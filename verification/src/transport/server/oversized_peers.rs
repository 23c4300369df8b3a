//! Oversized transfers that clients send to a server, with a receiver for each client.

use vstd::prelude::*;

use crate::lru_cache::{has_key, pushed, value_of, without};
use crate::message::{JsonRpcNotification, NotificationV};
use crate::recency_map::{
    entry_found, keys_distinct, mapped, mapped_facts, mapped_retain, retain, retain_agrees,
    without_facts, RecencyMap,
};
use crate::text::{opt_str, texts};
use crate::transport::oversized_transfer::constants::ACCEPT_PROGRESS;
use crate::transport::oversized_transfer::errors::{OversizedTransferError, TransferErrorV};
use crate::transport::oversized_transfer::frame::OversizedFrame;
use crate::transport::oversized_transfer::laws::accept_notification;
use crate::transport::oversized_transfer::receiver::{
    is_expired, outcome_of, step, Outcome, OversizedTransferReceiver, ReceiverV, TransferPolicy,
};

verus! {

/// Model of [`OversizedPeers`].
pub struct PeersV {
    /// The limits of each receiver.
    pub policy: TransferPolicy,
    /// The receivers by client, the most recently used first.
    pub receivers: Seq<(Seq<char>, ReceiverV)>,
    /// The most receivers that are kept.
    pub capacity: nat,
}

impl PeersV {
    /// Whether there are at most as many receivers as there may be.
    pub open spec fn bounded(self) -> bool {
        &&& keys_distinct(self.receivers)
        &&& self.receivers.len() <= self.capacity
        &&& 1 <= self.capacity
    }

    /// A client's receiver; a new one where there is none.
    pub open spec fn receiver(self, client: Seq<char>) -> ReceiverV {
        match value_of(self.receivers, client) {
            Some(r) => r,
            None => ReceiverV { policy: self.policy, transfers: Map::empty() },
        }
    }

    /// What a frame does to the client's receiver. Where the server has accepted the transfer
    /// `accepted`, the receiver takes that `accept` in as well, so that it expects the chunks
    /// behind the slot that was kept free for it.
    pub open spec fn fed(
        self,
        now: u64,
        client: Seq<char>,
        n: NotificationV,
        accepted: Option<Seq<char>>,
    ) -> (PeersV, Outcome) {
        let before = self.receiver(client);
        let (first, outcome) = step(before.transfers, before.policy, now, n);
        let transfers = match accepted {
            Some(token) => if outcome == Ok::<Option<Seq<char>>, TransferErrorV>(None) {
                step(first, before.policy, now, accept_notification(token)).0
            } else {
                first
            },
            None => first,
        };
        (
            PeersV {
                receivers: pushed(
                    self.receivers,
                    self.capacity,
                    client,
                    ReceiverV { transfers, ..before },
                ),
                ..self
            },
            outcome,
        )
    }

    /// The receivers without the transfers that are overdue at `now`, and without those that are
    /// left without a transfer.
    pub open spec fn swept(self, now: u64) -> PeersV {
        PeersV {
            receivers: retain(
                mapped(self.receivers, |r: ReceiverV| in_time(r, now)),
                |e: (Seq<char>, ReceiverV)| e.1.transfers.len() > 0,
            ),
            ..self
        }
    }
}

/// A receiver without the transfers that are overdue at `now`.
pub open spec fn in_time(r: ReceiverV, now: u64) -> ReceiverV {
    ReceiverV {
        transfers: Map::new(
            |k: Seq<char>|
                r.transfers.contains_key(k) && !is_expired(
                    r.policy,
                    r.transfers[k].admitted_at,
                    now,
                ),
            |k: Seq<char>| r.transfers[k],
        ),
        ..r
    }
}

/// The receivers of a server.
pub struct OversizedPeers {
    policy: TransferPolicy,
    receivers: RecencyMap<OversizedTransferReceiver>,
}

/// The model of a receiver.
pub open spec fn receiver_view() -> spec_fn(OversizedTransferReceiver) -> ReceiverV {
    |r: OversizedTransferReceiver| r@
}

impl View for OversizedPeers {
    type V = PeersV;

    closed spec fn view(&self) -> PeersV {
        PeersV {
            policy: self.policy,
            receivers: mapped(self.receivers@, receiver_view()),
            capacity: self.receivers.capacity(),
        }
    }
}

spec fn partly_swept(receivers: Seq<(Seq<char>, ReceiverV)>, now: u64, n: int) -> Seq<
    (Seq<char>, ReceiverV),
> {
    Seq::new(
        receivers.len(),
        |j: int|
            if j < n {
                (receivers[j].0, in_time(receivers[j].1, now))
            } else {
                receivers[j]
            },
    )
}

impl OversizedPeers {
    /// Whether the state is well formed.
    pub closed spec fn wf(&self) -> bool {
        self.receivers.wf()
    }

    /// What well-formedness means for the receivers.
    pub proof fn wf_facts(&self)
        requires
            self.wf(),
        ensures
            self@.bounded(),
    {
        self.receivers.wf_facts();
        assert forall|i: int, j: int|
            0 <= i < self@.receivers.len() && 0 <= j < self@.receivers.len() && i != j implies (
        #[trigger] self@.receivers[i]).0 != (#[trigger] self@.receivers[j]).0 by {
            assert(self.receivers@[i].0 != self.receivers@[j].0);
        }
    }

    proof fn receiver_facts(&self, key: Seq<char>)
        requires
            self.wf(),
        ensures
            has_key(self@.receivers, key) == has_key(self.receivers@, key),
            value_of(self@.receivers, key) == (match value_of(self.receivers@, key) {
                Some(r) => Some(r@),
                None => None,
            }),
            without(self@.receivers, key) == mapped(
                without(self.receivers@, key),
                receiver_view(),
            ),
            keys_distinct(self.receivers@),
    {
        self.receivers.wf_facts();
        if has_key(self.receivers@, key) {
            mapped_facts(
                self.receivers@,
                receiver_view(),
                self.receivers.capacity(),
                key,
                value_of(self.receivers@, key).unwrap(),
            );
        } else if has_key(self@.receivers, key) {
            let i = crate::lru_cache::index_of_key(self@.receivers, key);
            assert(self.receivers@[i].0 == key);
        }
    }

    /// No transfer, with receivers for up to `max_sessions` clients.
    pub fn new(policy: TransferPolicy, max_sessions: usize) -> (r: Self)
        requires
            max_sessions <= usize::MAX / 128,
        ensures
            r.wf(),
            r@ == (PeersV {
                policy,
                receivers: Seq::empty(),
                capacity: if max_sessions >= 1 {
                    max_sessions as nat
                } else {
                    1
                },
            }),
    {
        let r = OversizedPeers { policy, receivers: RecencyMap::with_capacity(max_sessions) };
        assert(r@.receivers =~= Seq::<(Seq<char>, ReceiverV)>::empty());
        r
    }

    /// Hands a frame to the client's receiver, and after it, where the server has accepted the
    /// transfer, that `accept`.
    pub fn feed(
        &mut self,
        now: u64,
        client: &str,
        notification: &JsonRpcNotification,
        accepted: Option<&str>,
    ) -> (r: Result<Option<String>, OversizedTransferError>)
        requires
            old(self).wf(),
        ensures
            final(self).wf(),
            (final(self)@, outcome_of(r)) == old(self)@.fed(
                now,
                client@,
                notification@,
                opt_str(accepted),
            ),
    {
        let ghost before = self@;
        proof {
            self.wf_facts();
            self.receiver_facts(client@);
            without_facts(before.receivers, client@);
        }
        let mut receiver = match self.receivers.pop(client) {
            Some(r) => r,
            None => OversizedTransferReceiver::with_policy(self.policy),
        };
        assert(receiver@ == before.receiver(client@));
        let outcome = receiver.process_frame(now, notification);
        if let Some(token) = accepted {
            let quiet = match &outcome {
                Ok(None) => true,
                _ => false,
            };
            if quiet {
                let accept = OversizedFrame::Accept.into_progress_notification(
                    token,
                    ACCEPT_PROGRESS,
                    None,
                );
                let _ = receiver.process_frame(now, &accept);
            }
        }
        proof {
            self.receivers.wf_facts();
            mapped_facts(
                self.receivers@,
                receiver_view(),
                self.receivers.capacity(),
                client@,
                receiver,
            );
            assert(pushed(without(before.receivers, client@), before.capacity, client@, receiver@)
                == pushed(before.receivers, before.capacity, client@, receiver@)) by {
                assert(without(without(before.receivers, client@), client@) == without(
                    before.receivers,
                    client@,
                ));
            }
        }
        let _ = self.receivers.push(client.to_owned(), receiver);
        outcome
    }

    /// Drops the transfers that are overdue at `now`, and the receivers that are left without a
    /// transfer.
    pub fn sweep_oversized_receivers(&mut self, now: u64)
        requires
            old(self).wf(),
        ensures
            final(self).wf(),
            final(self)@ == old(self)@.swept(now),
    {
        let ghost start = self@;
        proof {
            self.wf_facts();
        }
        let keys = self.receivers.keys();
        let mut empty: Vec<String> = Vec::new();
        let mut i: usize = 0;
        assert(self@.receivers =~= partly_swept(start.receivers, now, 0));
        while i < keys.len()
            invariant
                i <= keys@.len(),
                keys@.len() == start.receivers.len(),
                keys_distinct(start.receivers),
                self.wf(),
                forall|j: int|
                    0 <= j < keys@.len() ==> (#[trigger] keys@[j])@ == start.receivers[j].0,
                self@ == (PeersV {
                    receivers: partly_swept(start.receivers, now, i as int),
                    ..start
                }),
                forall|j: int|
                    0 <= j < i ==> (texts(empty@).contains((#[trigger] start.receivers[j]).0)
                        <==> in_time(start.receivers[j].1, now).transfers.len() == 0),
                forall|k: Seq<char>| #[trigger]
                    texts(empty@).contains(k) ==> exists|j: int|
                        0 <= j < i && (#[trigger] start.receivers[j]).0 == k,
            decreases keys@.len() - i,
        {
            let ghost name = start.receivers[i as int].0;
            let ghost at = self@;
            let ghost listed = texts(empty@);
            let ghost raw = self.receivers@;
            proof {
                assert(keys@[i as int]@ == name);
                self.wf_facts();
                assert(at.receivers[i as int] == start.receivers[i as int]);
                entry_found(at.receivers, i as int);
                self.receiver_facts(name);
                assert(raw[i as int].0 == name);
                entry_found(raw, i as int);
                if listed.contains(name) {
                    let j = choose|j: int| 0 <= j < i && (#[trigger] start.receivers[j]).0 == name;
                    assert(start.receivers[j].0 != start.receivers[i as int].0);
                }
            }
            let spare = OversizedTransferReceiver::with_policy(self.policy);
            match self.receivers.replace(keys[i].as_str(), spare) {
                Some(r) => {
                    let mut receiver = r;
                    let ghost was = receiver@;
                    assert(was == start.receivers[i as int].1);
                    let reaped = receiver.remove_expired(now);
                    proof {
                        assert(receiver@.transfers =~= in_time(was, now).transfers) by {
                            let gone = texts(reaped@);
                            assert forall|k: Seq<char>| gone.to_set().contains(k) == gone.contains(
                                k,
                            ) by {}
                        }
                        let mid = self.receivers@;
                        self.receivers.wf_facts();
                        assert(mid == raw.update(i as int, (name, spare)));
                        assert(mid[i as int].0 == name);
                        entry_found(mid, i as int);
                    }
                    let is_empty = receiver.active_transfer_count() == 0;
                    let _ = self.receivers.replace(keys[i].as_str(), receiver);
                    if is_empty {
                        empty.push(keys[i].clone());
                    }
                    proof {
                        let after = partly_swept(start.receivers, now, i + 1);
                        assert(self.receivers@ =~= raw.update(i as int, (name, receiver)));
                        assert forall|j: int| 0 <= j < after.len() implies #[trigger] self@.receivers[j]
                            == after[j] by {
                            assert(at.receivers[j] == partly_swept(
                                start.receivers,
                                now,
                                i as int,
                            )[j]);
                            assert(at.receivers[j] == (raw[j].0, raw[j].1@));
                            if j == i {
                                assert(self.receivers@[j] == (name, receiver));
                                assert(self@.receivers[j] == (name, receiver@));
                            } else {
                                assert(self.receivers@[j] == raw[j]);
                            }
                        }
                        assert(self@.receivers =~= after);
                        let more = texts(empty@);
                        if is_empty {
                            assert(more =~= listed.push(name));
                            assert(more[listed.len() as int] == name);
                        }
                        assert forall|k: Seq<char>| #[trigger] more.contains(k) == (
                        listed.contains(k) || (is_empty && k == name)) by {
                            if listed.contains(k) {
                                let x = listed.index_of(k);
                                assert(more[x] == k);
                            }
                        }
                        assert forall|j: int| 0 <= j < i + 1 implies (more.contains(
                            (#[trigger] start.receivers[j]).0,
                        ) <==> in_time(start.receivers[j].1, now).transfers.len() == 0) by {
                            if j < i {
                                assert(start.receivers[j].0 != start.receivers[i as int].0);
                            }
                        }
                    }
                },
                None => {
                    assert(false);
                },
            }
            i = i + 1;
        }
        let ghost settled = self.receivers@;
        self.receivers.pop_all(&empty);
        proof {
            let all = partly_swept(start.receivers, now, i as int);
            assert(all =~= mapped(start.receivers, |r: ReceiverV| in_time(r, now)));
            let keep = |e: (Seq<char>, OversizedTransferReceiver)| !texts(empty@).contains(e.0);
            let keep_seen = |e: (Seq<char>, ReceiverV)| !texts(empty@).contains(e.0);
            mapped_retain(settled, receiver_view(), keep, keep_seen);
            assert(mapped(settled, receiver_view()) == all);
            retain_agrees(all, keep_seen, |e: (Seq<char>, ReceiverV)| e.1.transfers.len() > 0);
        }
    }

    /// Drops every transfer.
    pub fn clear(&mut self)
        requires
            old(self).wf(),
        ensures
            final(self).wf(),
            final(self)@ == (PeersV { receivers: Seq::empty(), ..old(self)@ }),
    {
        self.receivers.clear();
        assert(self@.receivers =~= Seq::<(Seq<char>, ReceiverV)>::empty());
    }
}

} // verus!
