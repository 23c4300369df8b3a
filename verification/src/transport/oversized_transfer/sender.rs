//! The order of publication of an oversized transfer.
//!
//! [`OversizedSender`] decides what happens next: publish a frame, wait for the receiver's
//! `accept`, give up, or finish. The caller performs the action and reports back what came of
//! it. The frames go out as `start`, the chunks in order, and `end`; with a handshake no chunk
//! goes out before the `accept`.

use vstd::prelude::*;

use super::codec::BuiltOversizedFrames;
use super::errors::{OversizedTransferError, TransferErrorV};
use super::frame::{param, text_of};
use crate::message::{JsonRpcNotification, NotificationV};

verus! {

/// What the caller is to do next.
#[derive(Debug, PartialEq, Eq)]
pub enum SendAction {
    /// Publish this frame.
    Publish(JsonRpcNotification),
    /// Wait for the receiver's `accept`, up to the configured timeout.
    AwaitAccept,
    /// Give up with this failure. Nothing is published.
    Fail(OversizedTransferError),
    /// Every frame has been published.
    Done,
}

/// Model of [`SendAction`].
pub enum SendActionV {
    Publish(NotificationV),
    AwaitAccept,
    Fail(TransferErrorV),
    Done,
}

impl View for SendAction {
    type V = SendActionV;

    open spec fn view(&self) -> SendActionV {
        match self {
            SendAction::Publish(n) => SendActionV::Publish(n@),
            SendAction::AwaitAccept => SendActionV::AwaitAccept,
            SendAction::Fail(e) => SendActionV::Fail(e@),
            SendAction::Done => SendActionV::Done,
        }
    }
}

/// What came of the last action.
#[derive(Clone, Copy, PartialEq, Eq, Structural, Debug)]
pub enum SendEvent {
    /// The frame was published.
    Published,
    /// The `accept` arrived.
    Accepted,
    /// The wait for the `accept` ended without one.
    AcceptMissed,
}

/// Where a transfer stands.
pub struct OversizedSender {
    frames: BuiltOversizedFrames,
    token: String,
    needs_accept: bool,
    has_waiter: bool,
    published: u128,
    accepted: bool,
    missed: bool,
}

/// Model of [`OversizedSender`].
pub struct SenderV {
    /// The frames in order of publication.
    pub frames: Seq<NotificationV>,
    /// The token that the `start` frame carries.
    pub token: Seq<char>,
    /// Whether the first chunk has to wait for an `accept`.
    pub needs_accept: bool,
    /// Whether somebody waits for the `accept`.
    pub has_waiter: bool,
    /// Number of frames published so far.
    pub published: int,
    /// Whether the `accept` has arrived.
    pub accepted: bool,
    /// Whether the wait for the `accept` has failed.
    pub missed: bool,
}

impl View for OversizedSender {
    type V = SenderV;

    closed spec fn view(&self) -> SenderV {
        SenderV {
            frames: self.frames.ordered(),
            token: self.token@,
            needs_accept: self.needs_accept,
            has_waiter: self.has_waiter,
            published: self.published as int,
            accepted: self.accepted,
            missed: self.missed,
        }
    }
}

impl SenderV {
    /// What comes next.
    pub open spec fn action(self) -> SendActionV {
        if self.published == 1 && self.needs_accept && !self.accepted {
            if !self.has_waiter {
                SendActionV::Fail(
                    TransferErrorV::Abort {
                        token: self.token,
                        reason: Some("no accept waiter registered"@),
                    },
                )
            } else if self.missed {
                SendActionV::Fail(
                    TransferErrorV::Abort {
                        token: self.token,
                        reason: Some("timed out waiting for accept frame"@),
                    },
                )
            } else {
                SendActionV::AwaitAccept
            }
        } else if 0 <= self.published < self.frames.len() {
            SendActionV::Publish(self.frames[self.published])
        } else {
            SendActionV::Done
        }
    }

    /// What an event makes of the state. An event that does not answer the current action
    /// changes nothing.
    pub open spec fn after(self, event: SendEvent) -> SenderV {
        match (self.action(), event) {
            (SendActionV::Publish(_), SendEvent::Published) => SenderV {
                published: self.published + 1,
                ..self
            },
            (SendActionV::AwaitAccept, SendEvent::Accepted) => SenderV { accepted: true, ..self },
            (SendActionV::AwaitAccept, SendEvent::AcceptMissed) => SenderV { missed: true, ..self },
            _ => self,
        }
    }
}

/// The token that a frame carries as a string; empty when it has none.
pub open spec fn string_token(n: NotificationV) -> Seq<char> {
    match text_of(param(n, "progressToken"@)) {
        Some(t) => t,
        None => Seq::empty(),
    }
}

/// The token that a frame carries as a string; empty when it has none.
pub fn progress_token_of(frame: &JsonRpcNotification) -> (r: String)
    ensures
        r@ == string_token(frame@),
{
    match &frame.params {
        Some(params) => match params.get("progressToken") {
            Some(value) => match value.as_str() {
                Some(s) => s.to_owned(),
                None => String::new(),
            },
            None => String::new(),
        },
        None => String::new(),
    }
}

impl OversizedSender {
    /// A sender that has published nothing yet. `has_waiter` says whether somebody listens for
    /// the `accept`.
    pub fn new(frames: BuiltOversizedFrames, needs_accept: bool, has_waiter: bool) -> (r: Self)
        ensures
            r@ == (SenderV {
                frames: frames.ordered(),
                token: string_token(frames.start@),
                needs_accept,
                has_waiter,
                published: 0,
                accepted: false,
                missed: false,
            }),
    {
        let token = progress_token_of(&frames.start);
        OversizedSender {
            frames,
            token,
            needs_accept,
            has_waiter,
            published: 0,
            accepted: false,
            missed: false,
        }
    }

    /// What comes next.
    pub fn next_action(&self) -> (r: SendAction)
        ensures
            r@ == self@.action(),
    {
        let n: usize = self.frames.chunks.len();
        assert(self@.frames.len() == n + 2);
        if self.published == 1 && self.needs_accept && !self.accepted {
            if !self.has_waiter {
                return SendAction::Fail(
                    OversizedTransferError::abort(
                        self.token.clone(),
                        Some("no accept waiter registered".to_owned()),
                    ),
                );
            }
            if self.missed {
                return SendAction::Fail(
                    OversizedTransferError::abort(
                        self.token.clone(),
                        Some("timed out waiting for accept frame".to_owned()),
                    ),
                );
            }
            return SendAction::AwaitAccept;
        }
        if self.published == 0 {
            return SendAction::Publish(self.frames.start.duplicate());
        }
        let last: u128 = n as u128 + 1;
        if self.published < last {
            let k: usize = (self.published - 1) as usize;
            assert(self@.frames[k + 1] == self.frames.chunks@[k as int]@);
            SendAction::Publish(self.frames.chunks[k].duplicate())
        } else if self.published == last {
            SendAction::Publish(self.frames.end.duplicate())
        } else {
            SendAction::Done
        }
    }

    /// Takes what came of the last action.
    pub fn on_event(&mut self, event: SendEvent)
        ensures
            final(self)@ == old(self)@.after(event),
    {
        let n: usize = self.frames.chunks.len();
        assert(self@.frames.len() == n + 2);
        match (self.next_action(), event) {
            (SendAction::Publish(_), SendEvent::Published) => {
                self.published = self.published + 1;
            },
            (SendAction::AwaitAccept, SendEvent::Accepted) => {
                self.accepted = true;
            },
            (SendAction::AwaitAccept, SendEvent::AcceptMissed) => {
                self.missed = true;
            },
            _ => {},
        }
    }
}

/// A sender that has published `k` frames, and the `accept` where it needs one before the
/// second frame, publishes the frame with number `k` next, and is done after the last one.
pub proof fn frames_go_out_in_order(s: SenderV, k: int)
    requires
        s.published == k,
        0 <= k <= s.frames.len(),
        k != 1 || !s.needs_accept || s.accepted,
    ensures
        k < s.frames.len() ==> s.action() == SendActionV::Publish(s.frames[k]) && s.after(
            SendEvent::Published,
        ) == (SenderV { published: k + 1, ..s }),
        k == s.frames.len() ==> s.action() == SendActionV::Done,
{
}

/// While a required `accept` is outstanding no frame after `start` goes out, whatever happens
/// short of the `accept`.
pub proof fn no_chunk_before_accept(s: SenderV, event: SendEvent)
    requires
        s.needs_accept,
        !s.accepted,
        s.published == 1,
    ensures
        !(s.action() is Publish),
        event != SendEvent::Accepted ==> s.after(event).published == 1 && !s.after(event).accepted,
        event == SendEvent::AcceptMissed ==> s.after(event).action() is Fail,
{
}

/// A sender whose `accept` nobody waits for gives up right after the `start` frame, and one whose
/// `accept` does not come gives up then; neither publishes a chunk. A sender that needs no `accept`
/// never waits.
pub proof fn sender_gives_up_without_an_accept(s: SenderV)
    ensures
        s.needs_accept && !s.accepted && s.published == 1 && !s.has_waiter ==> s.action() == (
        SendActionV::Fail(
            TransferErrorV::Abort {
                token: s.token,
                reason: Some("no accept waiter registered"@),
            },
        )),
        s.needs_accept && !s.accepted && s.published == 1 && s.has_waiter && s.missed ==> s.action()
            == (SendActionV::Fail(
            TransferErrorV::Abort {
                token: s.token,
                reason: Some("timed out waiting for accept frame"@),
            },
        )),
        s.action() is AwaitAccept ==> s.needs_accept && s.published == 1 && s.has_waiter,
        !s.needs_accept ==> !(s.action() is Fail),
        s.action() is Fail ==> s.after(SendEvent::Published) == s && s.after(SendEvent::Accepted)
            == s,
{
}

} // verus!
