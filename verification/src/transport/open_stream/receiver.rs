//! The open streams of one peer, as a transport sees them.

use vstd::prelude::*;

use super::registry::{
    looks_like_stream_frame, opt_ended, route, streams_view, OpenStreamRegistry,
    OpenStreamRegistryPolicy, RegistryV, RoutedFrame,
};
use super::session::{result_of, OpenStreamSession, SessionV};
use crate::message::JsonRpcNotification;

verus! {

/// Receives the open streams of one peer.
pub struct OpenStreamReceiver {
    registry: OpenStreamRegistry,
}

impl View for OpenStreamReceiver {
    type V = RegistryV;

    closed spec fn view(&self) -> RegistryV {
        self.registry@
    }
}

impl Default for OpenStreamReceiver {
    fn default() -> (r: Self)
        ensures
            r@ == (RegistryV {
                policy: OpenStreamRegistryPolicy::standard(),
                sessions: Map::empty(),
            }),
    {
        OpenStreamReceiver::new()
    }
}

impl OpenStreamReceiver {
    /// A receiver with the default limits.
    pub fn new() -> (r: Self)
        ensures
            r@ == (RegistryV {
                policy: OpenStreamRegistryPolicy::standard(),
                sessions: Map::empty(),
            }),
    {
        OpenStreamReceiver { registry: OpenStreamRegistry::new() }
    }

    /// A receiver with the given limits.
    pub fn with_policy(policy: OpenStreamRegistryPolicy) -> (r: Self)
        ensures
            r@ == (RegistryV { policy, sessions: Map::empty() }),
    {
        OpenStreamReceiver { registry: OpenStreamRegistry::with_policy(policy) }
    }

    /// Whether the notification carries something of the shape of an open-stream frame.
    pub fn is_open_stream_frame(notification: &JsonRpcNotification) -> (r: bool)
        ensures
            r == looks_like_stream_frame(notification@),
    {
        OpenStreamRegistry::is_open_stream_progress(notification)
    }

    /// Takes one inbound notification.
    pub fn process_frame(&mut self, now: u64, notification: &JsonRpcNotification) -> (r:
        RoutedFrame)
        ensures
            final(self)@ == route(old(self)@, now, notification@).0,
            result_of(r.result) == route(old(self)@, now, notification@).1.result,
            opt_ended(r.ended) == route(old(self)@, now, notification@).1.ended,
    {
        self.registry.process_frame(now, notification)
    }

    /// The open stream `progress_token`.
    pub fn get_session(&self, progress_token: &str) -> (r: Option<&OpenStreamSession>)
        ensures
            match r {
                Some(s) => self@.sessions.contains_key(progress_token@) && s@
                    == self@.sessions[progress_token@],
                None => !self@.sessions.contains_key(progress_token@),
            },
    {
        self.registry.get_session(progress_token)
    }

    /// Number of open streams.
    pub fn active_stream_count(&self) -> (r: usize)
        ensures
            r == self@.sessions.len(),
            self@.sessions.dom().finite(),
    {
        self.registry.size()
    }

    /// The registry behind this receiver.
    pub fn registry(&self) -> (r: &OpenStreamRegistry)
        ensures
            r@ == self@,
    {
        &self.registry
    }

    /// The registry behind this receiver, to be changed.
    pub fn registry_mut(&mut self) -> (r: &mut OpenStreamRegistry)
        ensures
            r@ == old(self)@,
            final(self)@ == final(r)@,
    {
        &mut self.registry
    }

    /// Ends every stream without a failure and returns them with their tokens.
    pub fn clear(&mut self) -> (r: Vec<(String, OpenStreamSession)>)
        ensures
            final(self)@ == (RegistryV { sessions: Map::empty(), ..old(self)@ }),
            forall|k: Seq<char>, s: SessionV| #[trigger]
                streams_view(r@).contains((k, s)) <==> old(self)@.sessions.contains_key(k) && s
                    == old(self)@.sessions[k].finalized(None),
            streams_view(r@).no_duplicates(),
    {
        self.registry.clear()
    }
}

} // verus!
