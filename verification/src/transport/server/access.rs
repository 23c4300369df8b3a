//! Which requests need an allowed public key.

use vstd::prelude::*;

use crate::constants::{INITIALIZE_METHOD, NOTIFICATIONS_INITIALIZED_METHOD};
use crate::json::{get_opt, opt_field, JsonV};
use crate::message::{JsonRpcMessage, MessageV};
use crate::text::{opt_str, opt_text, same_text, texts};
use crate::transport::oversized_transfer::frame::text_of;
use crate::types::CapabilityExclusion;

verus! {

/// Model of [`CapabilityExclusion`].
pub struct ExclusionV {
    pub method: Seq<char>,
    pub name: Option<Seq<char>>,
}

impl View for CapabilityExclusion {
    type V = ExclusionV;

    open spec fn view(&self) -> ExclusionV {
        ExclusionV { method: self.method@, name: opt_text(self.name) }
    }
}

/// The models of some exclusions.
pub open spec fn exclusion_views(list: Seq<CapabilityExclusion>) -> Seq<ExclusionV> {
    Seq::new(list.len(), |i: int| list[i]@)
}

impl ExclusionV {
    /// Whether a request falls under the exclusion: the method has to be the same, and so has
    /// the name if the exclusion has one.
    pub open spec fn covers(self, method: Seq<char>, name: Option<Seq<char>>) -> bool {
        self.method == method && (self.name is None || self.name == name)
    }
}

/// Whether every client may make a request: one that opens a session, or that an exclusion
/// covers.
pub open spec fn open_to_all(
    excluded: Seq<ExclusionV>,
    method: Seq<char>,
    name: Option<Seq<char>>,
) -> bool {
    method == INITIALIZE_METHOD@ || method == NOTIFICATIONS_INITIALIZED_METHOD@ || exists|i: int|
        0 <= i < excluded.len() && (#[trigger] excluded[i]).covers(method, name)
}

/// Whether every client may make a request.
pub fn is_capability_excluded(excluded: &Vec<CapabilityExclusion>, method: &str, name: Option<&str>) -> (r:
    bool)
    ensures
        r == open_to_all(exclusion_views(excluded@), method@, opt_str(name)),
{
    if same_text(method, INITIALIZE_METHOD) || same_text(method, NOTIFICATIONS_INITIALIZED_METHOD) {
        return true;
    }
    let ghost all = exclusion_views(excluded@);
    let mut i: usize = 0;
    while i < excluded.len()
        invariant
            i <= excluded@.len(),
            all == exclusion_views(excluded@),
            forall|j: int| 0 <= j < i ==> !(#[trigger] all[j]).covers(method@, opt_str(name)),
        decreases excluded@.len() - i,
    {
        let e = &excluded[i];
        let named = match (&e.name, name) {
            (Some(own), Some(asked)) => same_text(own.as_str(), asked),
            (None, _) => true,
            _ => false,
        };
        assert(all[i as int] == e@);
        if same_text(e.method.as_str(), method) && named {
            return true;
        }
        i = i + 1;
    }
    false
}

/// The name that a request asks for, in `params.name`.
pub open spec fn requested_name(m: MessageV) -> Option<Seq<char>> {
    match m {
        MessageV::Request { params, .. } => text_of(opt_field(params, "name"@)),
        _ => None,
    }
}

/// The method of a message; empty where it has none.
pub open spec fn method_or_empty(m: MessageV) -> Seq<char> {
    match m.method() {
        Some(method) => method,
        None => ""@,
    }
}

/// Whether a sender may send a message: where no public keys are listed everybody may, else
/// those that are listed, and everybody what is open to all.
pub open spec fn is_authorized(
    allowed: Seq<Seq<char>>,
    excluded: Seq<ExclusionV>,
    sender: Seq<char>,
    m: MessageV,
) -> bool {
    allowed.len() == 0 || allowed.contains(sender) || open_to_all(
        excluded,
        method_or_empty(m),
        requested_name(m),
    )
}

/// Whether a text is in a list.
pub fn lists(list: &Vec<String>, text: &str) -> (r: bool)
    ensures
        r == texts(list@).contains(text@),
{
    let ghost all = texts(list@);
    let mut i: usize = 0;
    while i < list.len()
        invariant
            i <= list@.len(),
            all == texts(list@),
            forall|j: int| 0 <= j < i ==> #[trigger] all[j] != text@,
        decreases list@.len() - i,
    {
        if same_text(list[i].as_str(), text) {
            assert(all[i as int] == text@);
            return true;
        }
        i = i + 1;
    }
    proof {
        if all.contains(text@) {
            let j = all.index_of(text@);
            assert(all[j] == text@);
        }
    }
    false
}

/// Whether a sender may send a message.
pub fn authorize(
    allowed: &Vec<String>,
    excluded: &Vec<CapabilityExclusion>,
    sender: &str,
    message: &JsonRpcMessage,
) -> (r: bool)
    ensures
        r == is_authorized(texts(allowed@), exclusion_views(excluded@), sender@, message@),
{
    if allowed.len() == 0 || lists(allowed, sender) {
        return true;
    }
    let method = match message.method() {
        Some(method) => method,
        None => "",
    };
    let name = match message {
        JsonRpcMessage::Request(r) => match get_opt(r.params.as_ref(), "name") {
            Some(n) => n.as_str(),
            None => None,
        },
        _ => None,
    };
    is_capability_excluded(excluded, method, name)
}

/// Opening a session is always allowed.
pub proof fn session_can_always_be_opened(
    allowed: Seq<Seq<char>>,
    excluded: Seq<ExclusionV>,
    sender: Seq<char>,
    m: MessageV,
)
    requires
        m.method() == Some(INITIALIZE_METHOD@) || m.method() == Some(
            NOTIFICATIONS_INITIALIZED_METHOD@,
        ),
    ensures
        is_authorized(allowed, excluded, sender, m),
{
}

/// Who may send what: everybody anything where nobody is listed; who is listed, anything; and
/// everybody else what opens a session and what is open to all, which is a method as a whole or
/// under one name.
pub proof fn listed_clients_may_send_anything(
    allowed: Seq<Seq<char>>,
    excluded: Seq<ExclusionV>,
    sender: Seq<char>,
    m: MessageV,
)
    ensures
        allowed.len() == 0 ==> is_authorized(allowed, excluded, sender, m),
        allowed.contains(sender) ==> is_authorized(allowed, excluded, sender, m),
        allowed.len() > 0 && !allowed.contains(sender) && m.method() != Some(INITIALIZE_METHOD@)
            && m.method() != Some(NOTIFICATIONS_INITIALIZED_METHOD@) && m.method() is Some ==> (
        is_authorized(allowed, excluded, sender, m) <==> exists|i: int|
            0 <= i < excluded.len() && Some((#[trigger] excluded[i]).method) == m.method() && (
            excluded[i].name is None || (m is Request && excluded[i].name == (
            match m->Request_params {
                Some(params) => match params.field("name"@) {
                    Some(JsonV::Text(name)) => Some(name),
                    _ => None,
                },
                None => None,
            })))),
{
    if m.method() is Some {
        assert forall|i: int| 0 <= i < excluded.len() implies (#[trigger] excluded[i]).covers(
            m.method().unwrap(),
            requested_name(m),
        ) == (Some(excluded[i].method) == m.method() && (excluded[i].name is None || (m is Request
            && excluded[i].name == (match m->Request_params {
            Some(params) => match params.field("name"@) {
                Some(JsonV::Text(name)) => Some(name),
                _ => None,
            },
            None => None,
        })))) by {}
    }
}

/// Opening more to all, or listing one more client where some are listed, refuses nothing that was
/// allowed before.
pub proof fn opening_refuses_nothing(
    allowed: Seq<Seq<char>>,
    excluded: Seq<ExclusionV>,
    more: ExclusionV,
    listed: Seq<char>,
    sender: Seq<char>,
    m: MessageV,
)
    requires
        is_authorized(allowed, excluded, sender, m),
    ensures
        is_authorized(allowed, excluded.push(more), sender, m),
        allowed.len() > 0 ==> is_authorized(allowed.push(listed), excluded, sender, m),
        is_authorized(allowed.push(sender), excluded, sender, m),
{
    let all = excluded.push(more);
    assert(forall|i: int| 0 <= i < excluded.len() ==> all[i] == #[trigger] excluded[i]);
    assert(allowed.push(sender)[allowed.len() as int] == sender);
    if allowed.contains(sender) {
        let i = allowed.index_of(sender);
        assert(allowed.push(listed)[i] == sender);
    }
    if exists|i: int|
        0 <= i < excluded.len() && (#[trigger] excluded[i]).covers(
            method_or_empty(m),
            requested_name(m),
        ) {
        let i = choose|i: int|
            0 <= i < excluded.len() && (#[trigger] excluded[i]).covers(
                method_or_empty(m),
                requested_name(m),
            );
        assert(all[i].covers(method_or_empty(m), requested_name(m)));
    }
}

} // verus!
