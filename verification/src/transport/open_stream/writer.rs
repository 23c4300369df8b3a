//! The writing end of an open stream.
//!
//! [`OpenStreamWriter`] decides which frames go out and numbers them; the caller publishes them,
//! one operation at a time, and reports what was published. The `start` frame goes out with the
//! first operation that needs it, and again with the next one as long as it could not be
//! published.

use vstd::prelude::*;

use super::frame::{OpenStreamFrame, StreamFrameV};
use super::registry::{opt_end, EndV, StreamEnd};
use super::session::nonce_text;
use crate::message::{JsonRpcNotification, NotificationV};
use crate::text::{clone_opt, decimal_text, join3, opt_text};
use crate::transport::oversized_transfer::frame::progress_notification;

verus! {

/// What is asked of a writer.
#[derive(Debug, PartialEq, Eq)]
pub enum WriterOp {
    /// Publish the `start` frame.
    Start,
    /// Publish one chunk.
    Write(String),
    /// Publish a keepalive probe.
    Ping,
    /// Answer the peer's probe.
    Pong(String),
    /// Close the stream.
    Close,
    /// Abort the stream.
    Abort(Option<String>),
}

/// Model of [`WriterOp`].
pub enum OpV {
    Start,
    Write(Seq<char>),
    Ping,
    Pong(Seq<char>),
    Close,
    Abort(Option<Seq<char>>),
}

impl View for WriterOp {
    type V = OpV;

    open spec fn view(&self) -> OpV {
        match self {
            WriterOp::Start => OpV::Start,
            WriterOp::Write(d) => OpV::Write(d@),
            WriterOp::Ping => OpV::Ping,
            WriterOp::Pong(n) => OpV::Pong(n@),
            WriterOp::Close => OpV::Close,
            WriterOp::Abort(r) => OpV::Abort(opt_text(*r)),
        }
    }
}

/// What comes next in an operation.
#[derive(Debug, PartialEq, Eq)]
pub enum WriterStep {
    /// Publish the `start` frame. If that fails the operation fails; otherwise report
    /// [`OpenStreamWriter::start_published`] and ask again.
    PublishStart(JsonRpcNotification),
    /// Publish the operation's own frame, which completes the operation, and report
    /// [`OpenStreamWriter::completed`].
    Publish(JsonRpcNotification),
    /// There is nothing to publish: the operation is complete.
    Finished,
}

/// Model of [`WriterStep`].
pub enum StepV {
    PublishStart(NotificationV),
    Publish(NotificationV),
    Finished,
}

impl View for WriterStep {
    type V = StepV;

    open spec fn view(&self) -> StepV {
        match self {
            WriterStep::PublishStart(n) => StepV::PublishStart(n@),
            WriterStep::Publish(n) => StepV::Publish(n@),
            WriterStep::Finished => StepV::Finished,
        }
    }
}

/// How a writer is set up.
#[derive(Debug, PartialEq, Eq)]
pub struct OpenStreamWriterOptions {
    /// The stream's progress token.
    pub progress_token: String,
    /// Advisory content type of the `start` frame.
    pub content_type: Option<String>,
}

/// The writing end of an open stream.
pub struct OpenStreamWriter {
    progress_token: String,
    content_type: Option<String>,
    chunk_index: u64,
    control_nonce: u64,
    progress: u64,
    active: bool,
    started: bool,
}

/// Model of [`OpenStreamWriter`].
pub struct WriterV {
    /// The stream's progress token.
    pub token: Seq<char>,
    /// Advisory content type.
    pub content_type: Option<Seq<char>>,
    /// Index of the next chunk.
    pub chunk_index: u64,
    /// Number of the last nonce.
    pub nonces: u64,
    /// Progress of the last frame.
    pub progress: u64,
    /// Whether the stream is neither closed nor aborted.
    pub active: bool,
    /// Whether the `start` frame has been published.
    pub started: bool,
}

/// The number after `n`; zero follows the largest.
pub open spec fn succ(n: u64) -> u64 {
    if n == u64::MAX {
        0
    } else {
        (n + 1) as u64
    }
}

impl WriterV {
    /// A new writer.
    pub open spec fn fresh(token: Seq<char>, content_type: Option<Seq<char>>) -> WriterV {
        WriterV {
            token,
            content_type,
            chunk_index: 0,
            nonces: 0,
            progress: 0,
            active: true,
            started: false,
        }
    }

    /// A frame with the next progress value.
    pub open spec fn numbered(self, frame: StreamFrameV) -> NotificationV {
        progress_notification(self.token, succ(self.progress), None, frame.cvm())
    }

    /// The last index to be declared by a `close`.
    pub open spec fn last_chunk_index(self) -> Option<u64> {
        if self.chunk_index > 0 {
            Some((self.chunk_index - 1) as u64)
        } else {
            None
        }
    }

    /// Whether the `start` frame has to go out before `op`.
    pub open spec fn owes_start(self, op: OpV) -> bool {
        self.active && !self.started && (op is Start || op is Write || op is Close)
    }

    /// What comes next in `op`, and the writer afterwards.
    pub open spec fn step(self, op: OpV) -> (WriterV, StepV) {
        let counted = WriterV { progress: succ(self.progress), ..self };
        if self.owes_start(op) {
            (
                counted,
                StepV::PublishStart(
                    self.numbered(StreamFrameV::Start { content_type: self.content_type }),
                ),
            )
        } else if !self.active {
            (self, StepV::Finished)
        } else {
            match op {
                OpV::Start => (self, StepV::Finished),
                OpV::Write(data) => (
                    counted,
                    StepV::Publish(
                        self.numbered(StreamFrameV::Chunk { chunk_index: self.chunk_index, data }),
                    ),
                ),
                OpV::Ping => (
                    WriterV { nonces: succ(self.nonces), ..counted },
                    StepV::Publish(
                        self.numbered(
                            StreamFrameV::Ping { nonce: nonce_text(self.token, succ(self.nonces)) },
                        ),
                    ),
                ),
                OpV::Pong(nonce) => (
                    counted,
                    StepV::Publish(self.numbered(StreamFrameV::Pong { nonce })),
                ),
                OpV::Close => (
                    WriterV { active: false, ..counted },
                    StepV::Publish(
                        self.numbered(
                            StreamFrameV::Close { last_chunk_index: self.last_chunk_index() },
                        ),
                    ),
                ),
                OpV::Abort(reason) => (
                    WriterV { active: false, ..counted },
                    StepV::Publish(self.numbered(StreamFrameV::Abort { reason })),
                ),
            }
        }
    }

    /// What publishing the frame of `op`, or failing to, makes of the writer, and the end of the
    /// stream that is then to be told. Only a published chunk uses its index up; closing and
    /// aborting end the stream either way.
    pub open spec fn completed(self, op: OpV, published: bool) -> (WriterV, Option<EndV>) {
        match op {
            OpV::Write(_) if published => (
                WriterV { chunk_index: succ(self.chunk_index), ..self },
                None,
            ),
            OpV::Close => (self, Some(EndV::Closed)),
            OpV::Abort(reason) => (self, Some(EndV::Aborted(reason))),
            _ => (self, None),
        }
    }
}

impl View for OpenStreamWriter {
    type V = WriterV;

    closed spec fn view(&self) -> WriterV {
        WriterV {
            token: self.progress_token@,
            content_type: opt_text(self.content_type),
            chunk_index: self.chunk_index,
            nonces: self.control_nonce,
            progress: self.progress,
            active: self.active,
            started: self.started,
        }
    }
}

impl OpenStreamWriter {
    /// A writer that has published nothing yet.
    pub fn new(options: OpenStreamWriterOptions) -> (r: Self)
        ensures
            r@ == WriterV::fresh(options.progress_token@, opt_text(options.content_type)),
    {
        OpenStreamWriter {
            progress_token: options.progress_token,
            content_type: options.content_type,
            chunk_index: 0,
            control_nonce: 0,
            progress: 0,
            active: true,
            started: false,
        }
    }

    /// The stream's progress token.
    pub fn progress_token(&self) -> (r: &str)
        ensures
            r@ == self@.token,
    {
        self.progress_token.as_str()
    }

    /// Whether the stream is neither closed nor aborted.
    pub fn is_active(&self) -> (r: bool)
        ensures
            r == self@.active,
    {
        self.active
    }

    /// Whether the `start` frame has been published.
    pub fn has_started(&self) -> (r: bool)
        ensures
            r == self@.started,
    {
        self.started
    }

    /// The next progress value.
    fn next_progress(&mut self) -> (r: u64)
        ensures
            final(self)@ == (WriterV { progress: succ(old(self)@.progress), ..old(self)@ }),
            r == succ(old(self)@.progress),
    {
        self.progress = self.progress.wrapping_add(1);
        self.progress
    }

    fn numbered(&mut self, frame: OpenStreamFrame) -> (r: JsonRpcNotification)
        ensures
            final(self)@ == (WriterV { progress: succ(old(self)@.progress), ..old(self)@ }),
            r@ == old(self)@.numbered(frame@),
    {
        let progress: u64 = self.next_progress();
        frame.into_progress_notification(self.progress_token.as_str(), progress, None)
    }

    /// The `start` frame, as long as it has not been published.
    fn owed_start(&mut self) -> (r: Option<WriterStep>)
        ensures
            match r {
                Some(step) => old(self)@.owes_start(OpV::Start) && (final(self)@, step@)
                    == old(self)@.step(OpV::Start),
                None => !old(self)@.owes_start(OpV::Start) && final(self)@ == old(self)@,
            },
    {
        if !self.active || self.started {
            return None;
        }
        let content_type = clone_opt(&self.content_type);
        Some(WriterStep::PublishStart(self.numbered(OpenStreamFrame::Start { content_type })))
    }

    /// What comes next in order to start the stream.
    pub fn start(&mut self) -> (r: WriterStep)
        ensures
            (final(self)@, r@) == old(self)@.step(OpV::Start),
    {
        match self.owed_start() {
            Some(step) => step,
            None => WriterStep::Finished,
        }
    }

    /// What comes next in order to write a chunk.
    pub fn write(&mut self, data: String) -> (r: WriterStep)
        ensures
            (final(self)@, r@) == old(self)@.step(OpV::Write(data@)),
    {
        if let Some(step) = self.owed_start() {
            return step;
        }
        if !self.active {
            return WriterStep::Finished;
        }
        let chunk_index: u64 = self.chunk_index;
        WriterStep::Publish(self.numbered(OpenStreamFrame::Chunk { chunk_index, data }))
    }

    /// What comes next in order to probe the peer.
    pub fn ping(&mut self) -> (r: WriterStep)
        ensures
            (final(self)@, r@) == old(self)@.step(OpV::Ping),
    {
        if !self.active {
            return WriterStep::Finished;
        }
        self.control_nonce = self.control_nonce.wrapping_add(1);
        let nonce = join3(
            self.progress_token.as_str(),
            ":",
            decimal_text(self.control_nonce).as_str(),
        );
        WriterStep::Publish(self.numbered(OpenStreamFrame::Ping { nonce }))
    }

    /// What comes next in order to answer the peer's probe.
    pub fn pong(&mut self, nonce: String) -> (r: WriterStep)
        ensures
            (final(self)@, r@) == old(self)@.step(OpV::Pong(nonce@)),
    {
        if !self.active {
            return WriterStep::Finished;
        }
        WriterStep::Publish(self.numbered(OpenStreamFrame::Pong { nonce }))
    }

    /// What comes next in order to close the stream. Once it has started the stream is over,
    /// whether or not the frame can then be published.
    pub fn close(&mut self) -> (r: WriterStep)
        ensures
            (final(self)@, r@) == old(self)@.step(OpV::Close),
    {
        if let Some(step) = self.owed_start() {
            return step;
        }
        if !self.active {
            return WriterStep::Finished;
        }
        let last_chunk_index: Option<u64> = if self.chunk_index > 0 {
            Some(self.chunk_index - 1)
        } else {
            None
        };
        self.active = false;
        WriterStep::Publish(self.numbered(OpenStreamFrame::Close { last_chunk_index }))
    }

    /// What comes next in order to abort the stream: it is over at once, whether or not the frame
    /// can then be published. A stream that is over stays as it is, and nothing is published.
    pub fn abort(&mut self, reason: Option<String>) -> (r: WriterStep)
        ensures
            (final(self)@, r@) == old(self)@.step(OpV::Abort(opt_text(reason))),
    {
        if !self.active {
            return WriterStep::Finished;
        }
        self.active = false;
        WriterStep::Publish(self.numbered(OpenStreamFrame::Abort { reason }))
    }

    /// What comes next in `op`.
    pub fn next_step(&mut self, op: &WriterOp) -> (r: WriterStep)
        ensures
            (final(self)@, r@) == old(self)@.step(op@),
    {
        match op {
            WriterOp::Start => self.start(),
            WriterOp::Write(data) => self.write(data.clone()),
            WriterOp::Ping => self.ping(),
            WriterOp::Pong(nonce) => self.pong(nonce.clone()),
            WriterOp::Close => self.close(),
            WriterOp::Abort(reason) => self.abort(clone_opt(reason)),
        }
    }

    /// Reports that the `start` frame has been published.
    pub fn start_published(&mut self)
        ensures
            final(self)@ == (WriterV { started: true, ..old(self)@ }),
    {
        self.started = true;
    }

    /// Reports that the frame of `op` has been published, or could not be. A chunk that could
    /// not be published leaves its index to the next one. Returned is the end of the stream,
    /// whose hook the caller runs now.
    pub fn completed(&mut self, op: &WriterOp, published: bool) -> (r: Option<StreamEnd>)
        ensures
            (final(self)@, opt_end(r)) == old(self)@.completed(op@, published),
    {
        match op {
            WriterOp::Write(_) => {
                if published {
                    self.chunk_index = self.chunk_index.wrapping_add(1);
                }
                None
            },
            WriterOp::Close => Some(StreamEnd::Closed),
            WriterOp::Abort(reason) => Some(StreamEnd::Aborted(clone_opt(reason))),
            _ => None,
        }
    }
}

} // verus!
