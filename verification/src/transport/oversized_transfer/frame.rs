//! The frames of an oversized transfer and the progress notification that carries them.
//!
//! A frame is the `cvm` object inside the `params` of a `notifications/progress`
//! notification. The outer `params` also hold the `progressToken` and the `progress` value
//! that orders the frames.

use vstd::prelude::*;

use super::constants::{NOTIFICATIONS_PROGRESS_METHOD, OVERSIZED_TRANSFER_TYPE};
use crate::json::{
    get_opt, json_view, member_from, members_view, object, opt_json_ref, push_member, text_value,
    unsigned_value, Json, JsonV, NumberV,
};
use crate::message::{JsonRpcNotification, NotificationV};
use crate::text::{opt_str, opt_text, same_text};

verus! {

/// Completion mode of a `start` frame.
#[derive(Clone, Copy, PartialEq, Eq, Structural, Debug)]
pub enum CompletionMode {
    /// The receiver renders the reassembled payload as one message.
    Render,
}

/// A frame of an oversized transfer.
#[derive(Debug, PartialEq, Eq)]
pub enum OversizedFrame {
    /// Opens a transfer.
    Start {
        /// Completion mode.
        completion_mode: CompletionMode,
        /// `sha256:` and the lowercase hexadecimal SHA-256 of the payload.
        digest: String,
        /// Length of the payload in bytes.
        total_bytes: u64,
        /// Number of chunks that follow.
        total_chunks: u64,
    },
    /// Lets the sender begin with the chunks.
    Accept,
    /// One fragment of the payload.
    Chunk {
        /// The fragment.
        data: String,
    },
    /// Closes a transfer.
    End,
    /// Terminates a transfer early.
    Abort {
        /// Advisory reason.
        reason: Option<String>,
    },
}

/// Model of [`OversizedFrame`].
pub enum FrameV {
    Start { completion_mode: CompletionMode, digest: Seq<char>, total_bytes: u64, total_chunks: u64 },
    Accept,
    Chunk { data: Seq<char> },
    End,
    Abort { reason: Option<Seq<char>> },
}

impl View for OversizedFrame {
    type V = FrameV;

    open spec fn view(&self) -> FrameV {
        match self {
            OversizedFrame::Start { completion_mode, digest, total_bytes, total_chunks } => {
                FrameV::Start {
                    completion_mode: *completion_mode,
                    digest: digest@,
                    total_bytes: *total_bytes,
                    total_chunks: *total_chunks,
                }
            },
            OversizedFrame::Accept => FrameV::Accept,
            OversizedFrame::Chunk { data } => FrameV::Chunk { data: data@ },
            OversizedFrame::End => FrameV::End,
            OversizedFrame::Abort { reason } => FrameV::Abort { reason: opt_text(*reason) },
        }
    }
}

/// The model of an optional frame.
pub open spec fn opt_frame(f: Option<OversizedFrame>) -> Option<FrameV> {
    match f {
        Some(x) => Some(x@),
        None => None,
    }
}

impl FrameV {
    /// The `frameType` of the frame.
    pub open spec fn frame_type(self) -> Seq<char> {
        match self {
            FrameV::Start { .. } => "start"@,
            FrameV::Accept => "accept"@,
            FrameV::Chunk { .. } => "chunk"@,
            FrameV::End => "end"@,
            FrameV::Abort { .. } => "abort"@,
        }
    }

    /// The members of the `cvm` object that belong to the frame's own variant.
    pub open spec fn own_members(self) -> Seq<(Seq<char>, JsonV)> {
        match self {
            FrameV::Start { completion_mode, digest, total_bytes, total_chunks } => seq![
                ("completionMode"@, JsonV::Text("render"@)),
                ("digest"@, JsonV::Text(digest)),
                ("totalBytes"@, JsonV::Number(NumberV::Unsigned(total_bytes))),
                ("totalChunks"@, JsonV::Number(NumberV::Unsigned(total_chunks))),
            ],
            FrameV::Chunk { data } => seq![("data"@, JsonV::Text(data))],
            FrameV::Abort { reason: Some(text) } => seq![("reason"@, JsonV::Text(text))],
            _ => Seq::empty(),
        }
    }

    /// The `cvm` object of the frame.
    pub open spec fn cvm(self) -> JsonV {
        JsonV::Object(
            seq![
                ("type"@, JsonV::Text(OVERSIZED_TRANSFER_TYPE@)),
                ("frameType"@, JsonV::Text(self.frame_type())),
            ] + self.own_members(),
        )
    }
}

/// Whether `v` names the completion mode `render`: the string itself, or an object whose only
/// member is `render` with nothing in it.
pub open spec fn names_render(v: Option<JsonV>) -> bool {
    match v {
        Some(JsonV::Text(s)) => s == "render"@,
        Some(JsonV::Object(members)) => members.len() == 1 && members[0].0 == "render"@ && (
        members[0].1 == JsonV::Null || (members[0].1 matches JsonV::Object(m) && m.len() == 0)),
        _ => false,
    }
}

/// An optional text member: absent and `null` read as nothing, a string as itself, anything
/// else is malformed.
pub open spec fn optional_text(v: Option<JsonV>) -> Option<Option<Seq<char>>> {
    match v {
        None => Some(None),
        Some(JsonV::Null) => Some(None),
        Some(JsonV::Text(s)) => Some(Some(s)),
        _ => None,
    }
}

/// The text of an optional value that is a string.
pub open spec fn text_of(v: Option<JsonV>) -> Option<Seq<char>> {
    match v {
        Some(j) => j.text(),
        None => None,
    }
}

/// The integer of an optional value that is an unsigned integer.
pub open spec fn unsigned_of(v: Option<JsonV>) -> Option<u64> {
    match v {
        Some(j) => j.unsigned(),
        None => None,
    }
}

/// The frame that a `cvm` object stands for.
pub open spec fn frame_of_cvm(v: JsonV) -> Option<FrameV> {
    let kind = text_of(v.field("frameType"@));
    if text_of(v.field("type"@)) != Some(OVERSIZED_TRANSFER_TYPE@) {
        None
    } else if kind == Some("start"@) {
        let digest = text_of(v.field("digest"@));
        let bytes = unsigned_of(v.field("totalBytes"@));
        let chunks = unsigned_of(v.field("totalChunks"@));
        if names_render(v.field("completionMode"@)) && digest is Some && bytes is Some
            && chunks is Some {
            Some(
                FrameV::Start {
                    completion_mode: CompletionMode::Render,
                    digest: digest.unwrap(),
                    total_bytes: bytes.unwrap(),
                    total_chunks: chunks.unwrap(),
                },
            )
        } else {
            None
        }
    } else if kind == Some("accept"@) {
        Some(FrameV::Accept)
    } else if kind == Some("chunk"@) {
        match text_of(v.field("data"@)) {
            Some(data) => Some(FrameV::Chunk { data }),
            None => None,
        }
    } else if kind == Some("end"@) {
        Some(FrameV::End)
    } else if kind == Some("abort"@) {
        match optional_text(v.field("reason"@)) {
            Some(reason) => Some(FrameV::Abort { reason }),
            None => None,
        }
    } else {
        None
    }
}

/// The `params` of a progress notification that carries `cvm`.
pub open spec fn progress_params(
    token: Seq<char>,
    progress: u64,
    message: Option<Seq<char>>,
    cvm: JsonV,
) -> JsonV {
    let head = seq![
        ("progressToken"@, JsonV::Text(token)),
        ("progress"@, JsonV::Number(NumberV::Unsigned(progress))),
    ];
    let tail = seq![("cvm"@, cvm)];
    match message {
        Some(m) => JsonV::Object(head + seq![("message"@, JsonV::Text(m))] + tail),
        None => JsonV::Object(head + tail),
    }
}

/// A progress notification that carries `cvm`.
pub open spec fn progress_notification(
    token: Seq<char>,
    progress: u64,
    message: Option<Seq<char>>,
    cvm: JsonV,
) -> NotificationV {
    NotificationV {
        jsonrpc: "2.0"@,
        method: NOTIFICATIONS_PROGRESS_METHOD@,
        params: Some(progress_params(token, progress, message, cvm)),
    }
}

/// The canonical text of a progress token: a string as itself, a number as it is rendered.
pub open spec fn token_text(v: JsonV) -> Option<Seq<char>> {
    match v {
        JsonV::Text(s) => Some(s),
        JsonV::Number(n) => Some(n.rendered()),
        _ => None,
    }
}

/// The member `key` of a notification's `params`.
pub open spec fn param(n: NotificationV, key: Seq<char>) -> Option<JsonV> {
    match n.params {
        Some(p) => p.field(key),
        None => None,
    }
}

/// The oversized frame that a notification carries.
pub open spec fn frame_of(n: NotificationV) -> Option<FrameV> {
    match param(n, "cvm"@) {
        Some(cvm) => frame_of_cvm(cvm),
        None => None,
    }
}

/// The names of members and frame types differ from each other where one is looked up among
/// others.
pub proof fn names_distinct()
    ensures
        "type"@ != "frameType"@,
        "type"@ != "completionMode"@,
        "frameType"@ != "completionMode"@,
        "digest"@ != "type"@,
        "digest"@ != "frameType"@,
        "digest"@ != "completionMode"@,
        "totalBytes"@ != "type"@,
        "totalBytes"@ != "frameType"@,
        "totalBytes"@ != "completionMode"@,
        "totalBytes"@ != "digest"@,
        "totalChunks"@ != "type"@,
        "totalChunks"@ != "frameType"@,
        "totalChunks"@ != "completionMode"@,
        "totalChunks"@ != "digest"@,
        "totalChunks"@ != "totalBytes"@,
        "data"@ != "type"@,
        "data"@ != "frameType"@,
        "reason"@ != "type"@,
        "reason"@ != "frameType"@,
        "start"@ != "accept"@,
        "start"@ != "chunk"@,
        "start"@ != "end"@,
        "start"@ != "abort"@,
        "accept"@ != "chunk"@,
        "accept"@ != "end"@,
        "accept"@ != "abort"@,
        "chunk"@ != "end"@,
        "chunk"@ != "abort"@,
        "end"@ != "abort"@,
        "progressToken"@ != "progress"@,
        "progressToken"@ != "message"@,
        "progressToken"@ != "cvm"@,
        "progress"@ != "message"@,
        "progress"@ != "cvm"@,
        "message"@ != "cvm"@,
{
    reveal_strlit("type");
    reveal_strlit("frameType");
    reveal_strlit("completionMode");
    reveal_strlit("digest");
    reveal_strlit("totalBytes");
    reveal_strlit("totalChunks");
    reveal_strlit("data");
    reveal_strlit("reason");
    reveal_strlit("start");
    reveal_strlit("accept");
    reveal_strlit("chunk");
    reveal_strlit("end");
    reveal_strlit("abort");
    reveal_strlit("progressToken");
    reveal_strlit("progress");
    reveal_strlit("message");
    reveal_strlit("cvm");
    assert("type"@.len() == 4);
    assert("frameType"@.len() == 9);
    assert("completionMode"@.len() == 14);
    assert("digest"@.len() == 6);
    assert("totalBytes"@.len() == 10);
    assert("totalChunks"@.len() == 11);
    assert("data"@.len() == 4);
    assert("reason"@.len() == 6);
    assert("start"@.len() == 5);
    assert("accept"@.len() == 6);
    assert("chunk"@.len() == 5);
    assert("end"@.len() == 3);
    assert("abort"@.len() == 5);
    assert("progressToken"@.len() == 13);
    assert("progress"@.len() == 8);
    assert("message"@.len() == 7);
    assert("cvm"@.len() == 3);
    assert("data"@[0] == 'd' && "type"@[0] == 't');
    assert("start"@[0] == 's' && "chunk"@[0] == 'c' && "abort"@[0] == 'a');
}

/// Parsing the `cvm` object of a frame gives the frame back.
pub proof fn cvm_round_trip(f: FrameV)
    ensures
        frame_of_cvm(f.cvm()) == Some(f),
{
    names_distinct();
    reveal_with_fuel(member_from, 8);
}

/// A notification that carries a frame gives back its token, its progress and the frame.
pub proof fn notification_round_trip(
    f: FrameV,
    token: Seq<char>,
    progress: u64,
    message: Option<Seq<char>>,
)
    ensures
        ({
            let n = progress_notification(token, progress, message, f.cvm());
            &&& frame_of(n) == Some(f)
            &&& param(n, "progressToken"@) == Some(JsonV::Text(token))
            &&& param(n, "progress"@) == Some(JsonV::Number(NumberV::Unsigned(progress)))
        }),
{
    names_distinct();
    reveal_with_fuel(member_from, 6);
    cvm_round_trip(f);
}

pub(crate) fn text_member(v: &Json, key: &str) -> (r: Option<String>)
    ensures
        opt_text(r) == text_of(v@.field(key@)),
{
    match v.get(key) {
        Some(Json::Text(s)) => Some(s.clone()),
        _ => None,
    }
}

pub(crate) fn unsigned_member(v: &Json, key: &str) -> (r: Option<u64>)
    ensures
        r == unsigned_of(v@.field(key@)),
{
    match v.get(key) {
        Some(j) => j.as_u64(),
        None => None,
    }
}

fn render_named(v: Option<&Json>) -> (r: bool)
    ensures
        r == names_render(opt_json_ref(v)),
{
    proof {
        reveal_with_fuel(json_view, 3);
    }
    match v {
        Some(Json::Text(s)) => same_text(s.as_str(), "render"),
        Some(Json::Object(members)) => {
            if members.len() != 1 || !same_text(members[0].0.as_str(), "render") {
                return false;
            }
            match &members[0].1 {
                Json::Null => true,
                Json::Object(inner) => inner.len() == 0,
                _ => false,
            }
        },
        _ => false,
    }
}

impl OversizedFrame {
    /// The `frameType` of this frame.
    pub fn frame_type(&self) -> (r: &'static str)
        ensures
            r@ == self@.frame_type(),
    {
        match self {
            OversizedFrame::Start { .. } => "start",
            OversizedFrame::Accept => "accept",
            OversizedFrame::Chunk { .. } => "chunk",
            OversizedFrame::End => "end",
            OversizedFrame::Abort { .. } => "abort",
        }
    }

    /// The `cvm` object of this frame.
    pub fn to_cvm_value(&self) -> (r: Json)
        ensures
            r@ == self@.cvm(),
    {
        let mut members: Vec<(String, Json)> = Vec::new();
        push_member(&mut members, "type", text_value(OVERSIZED_TRANSFER_TYPE));
        push_member(&mut members, "frameType", text_value(self.frame_type()));
        match self {
            OversizedFrame::Start { completion_mode, digest, total_bytes, total_chunks } => {
                push_member(&mut members, "completionMode", text_value("render"));
                push_member(&mut members, "digest", text_value(digest.as_str()));
                push_member(&mut members, "totalBytes", unsigned_value(*total_bytes));
                push_member(&mut members, "totalChunks", unsigned_value(*total_chunks));
            },
            OversizedFrame::Chunk { data } => {
                push_member(&mut members, "data", text_value(data.as_str()));
            },
            OversizedFrame::Abort { reason: Some(text) } => {
                push_member(&mut members, "reason", text_value(text.as_str()));
            },
            _ => {},
        }
        assert(members_view(members@) =~= self@.cvm()->Object_0);
        object(members)
    }

    /// The frame that a `cvm` object stands for, or nothing when it is of another type or
    /// malformed.
    pub fn from_cvm_value(value: &Json) -> (r: Option<Self>)
        ensures
            opt_frame(r) == frame_of_cvm(value@),
    {
        proof {
            names_distinct();
        }
        match text_member(value, "type") {
            Some(t) => {
                if !same_text(t.as_str(), OVERSIZED_TRANSFER_TYPE) {
                    return None;
                }
            },
            None => {
                return None;
            },
        }
        let kind = match text_member(value, "frameType") {
            Some(kind) => kind,
            None => {
                return None;
            },
        };
        if same_text(kind.as_str(), "start") {
            if !render_named(value.get("completionMode")) {
                return None;
            }
            match (
                text_member(value, "digest"),
                unsigned_member(value, "totalBytes"),
                unsigned_member(value, "totalChunks"),
            ) {
                (Some(digest), Some(total_bytes), Some(total_chunks)) => Some(
                    OversizedFrame::Start {
                        completion_mode: CompletionMode::Render,
                        digest,
                        total_bytes,
                        total_chunks,
                    },
                ),
                _ => None,
            }
        } else if same_text(kind.as_str(), "accept") {
            Some(OversizedFrame::Accept)
        } else if same_text(kind.as_str(), "chunk") {
            match text_member(value, "data") {
                Some(data) => Some(OversizedFrame::Chunk { data }),
                None => None,
            }
        } else if same_text(kind.as_str(), "end") {
            Some(OversizedFrame::End)
        } else if same_text(kind.as_str(), "abort") {
            match value.get("reason") {
                None => Some(OversizedFrame::Abort { reason: None }),
                Some(Json::Null) => Some(OversizedFrame::Abort { reason: None }),
                Some(Json::Text(s)) => Some(OversizedFrame::Abort { reason: Some(s.clone()) }),
                Some(_) => None,
            }
        } else {
            None
        }
    }

    /// Whether `value` has the shape of an oversized-transfer frame: the right `type` and some
    /// string as `frameType`.
    pub fn is_frame_value(value: &Json) -> (r: bool)
        ensures
            r == (text_of(value@.field("type"@)) == Some(OVERSIZED_TRANSFER_TYPE@) && text_of(
                value@.field("frameType"@),
            ) is Some),
    {
        match text_member(value, "type") {
            Some(t) => same_text(t.as_str(), OVERSIZED_TRANSFER_TYPE) && text_member(
                value,
                "frameType",
            ).is_some(),
            None => false,
        }
    }

    /// This frame in a `notifications/progress` notification. The token is always a string.
    pub fn into_progress_notification(
        &self,
        progress_token: &str,
        progress: u64,
        message: Option<&str>,
    ) -> (r: JsonRpcNotification)
        ensures
            r@ == progress_notification(progress_token@, progress, opt_str(message), self@.cvm()),
    {
        wrap_in_progress(self.to_cvm_value(), progress_token, progress, message)
    }
}

/// Wraps a `cvm` object in a `notifications/progress` notification.
pub fn wrap_in_progress(
    cvm: Json,
    progress_token: &str,
    progress: u64,
    message: Option<&str>,
) -> (r: JsonRpcNotification)
    ensures
        r@ == progress_notification(progress_token@, progress, opt_str(message), cvm@),
{
    let mut members: Vec<(String, Json)> = Vec::new();
    push_member(&mut members, "progressToken", text_value(progress_token));
    push_member(&mut members, "progress", unsigned_value(progress));
    if let Some(m) = message {
        push_member(&mut members, "message", text_value(m));
    }
    push_member(&mut members, "cvm", cvm);
    assert(members_view(members@) =~= progress_params(
        progress_token@,
        progress,
        opt_str(message),
        cvm@,
    )->Object_0);
    let params = object(members);
    JsonRpcNotification {
        jsonrpc: "2.0".to_owned(),
        method: NOTIFICATIONS_PROGRESS_METHOD.to_owned(),
        params: Some(params),
    }
}

/// The canonical text of a progress token, which may be a string or a number.
pub fn progress_token_string(value: &Json) -> (r: Option<String>)
    ensures
        opt_text(r) == token_text(value@),
{
    match value {
        Json::Text(s) => Some(s.clone()),
        Json::Number(n) => Some(n.rendered()),
        _ => None,
    }
}

/// The text of a notification's progress token, where it has one.
pub open spec fn notification_token(n: NotificationV) -> Option<Seq<char>> {
    match param(n, "progressToken"@) {
        Some(v) => token_text(v),
        None => None,
    }
}

/// The text of a notification's progress token, where it has one.
pub fn token_of_notification(n: &JsonRpcNotification) -> (r: Option<String>)
    ensures
        opt_text(r) == notification_token(n@),
{
    match get_opt(n.params.as_ref(), "progressToken") {
        Some(v) => progress_token_string(v),
        None => None,
    }
}

/// The oversized frame that a notification carries.
pub fn frame_of_notification(n: &JsonRpcNotification) -> (r: Option<OversizedFrame>)
    ensures
        opt_frame(r) == frame_of(n@),
{
    match get_opt(n.params.as_ref(), "cvm") {
        Some(cvm) => OversizedFrame::from_cvm_value(cvm),
        None => None,
    }
}

} // verus!
