//! The frames of an open stream.
//!
//! A frame is the `cvm` object inside the `params` of a `notifications/progress` notification,
//! next to the `progressToken` that names the stream and the `progress` that orders its frames.

use vstd::prelude::*;

use super::constants::OPEN_STREAM_TYPE;
use crate::json::{
    member_from, members_view, object, push_member, text_value, unsigned_value, Json, JsonV,
    NumberV,
};
use crate::message::{JsonRpcNotification, NotificationV};
use crate::text::{opt_str, opt_text, same_text};
use crate::transport::oversized_transfer::constants::OVERSIZED_TRANSFER_TYPE;
use crate::transport::oversized_transfer::frame::{
    frame_of, names_distinct, optional_text, param, progress_notification, text_member, text_of,
    unsigned_member, unsigned_of, wrap_in_progress,
};

verus! {

/// A frame of an open stream.
#[derive(Debug, PartialEq, Eq)]
pub enum OpenStreamFrame {
    /// Opens a stream.
    Start {
        /// Advisory content type.
        content_type: Option<String>,
    },
    /// Acknowledges an inbound `start`.
    Accept,
    /// One piece of the stream.
    Chunk {
        /// Index of the piece, counted from zero.
        chunk_index: u64,
        /// The piece.
        data: String,
    },
    /// Asks the peer for a sign of life.
    Ping {
        /// To be echoed in the `pong`.
        nonce: String,
    },
    /// Answers a `ping`.
    Pong {
        /// The nonce of the `ping`.
        nonce: String,
    },
    /// Closes the stream.
    Close {
        /// Index of the last piece; nothing when there was none.
        last_chunk_index: Option<u64>,
    },
    /// Terminates the stream early.
    Abort {
        /// Advisory reason.
        reason: Option<String>,
    },
}

/// Model of [`OpenStreamFrame`].
pub enum StreamFrameV {
    Start { content_type: Option<Seq<char>> },
    Accept,
    Chunk { chunk_index: u64, data: Seq<char> },
    Ping { nonce: Seq<char> },
    Pong { nonce: Seq<char> },
    Close { last_chunk_index: Option<u64> },
    Abort { reason: Option<Seq<char>> },
}

impl View for OpenStreamFrame {
    type V = StreamFrameV;

    open spec fn view(&self) -> StreamFrameV {
        match self {
            OpenStreamFrame::Start { content_type } => StreamFrameV::Start {
                content_type: opt_text(*content_type),
            },
            OpenStreamFrame::Accept => StreamFrameV::Accept,
            OpenStreamFrame::Chunk { chunk_index, data } => StreamFrameV::Chunk {
                chunk_index: *chunk_index,
                data: data@,
            },
            OpenStreamFrame::Ping { nonce } => StreamFrameV::Ping { nonce: nonce@ },
            OpenStreamFrame::Pong { nonce } => StreamFrameV::Pong { nonce: nonce@ },
            OpenStreamFrame::Close { last_chunk_index } => StreamFrameV::Close {
                last_chunk_index: *last_chunk_index,
            },
            OpenStreamFrame::Abort { reason } => StreamFrameV::Abort { reason: opt_text(*reason) },
        }
    }
}

/// The model of an optional frame.
pub open spec fn opt_stream_frame(f: Option<OpenStreamFrame>) -> Option<StreamFrameV> {
    match f {
        Some(x) => Some(x@),
        None => None,
    }
}

impl StreamFrameV {
    /// The `frameType` of the frame.
    pub open spec fn frame_type(self) -> Seq<char> {
        match self {
            StreamFrameV::Start { .. } => "start"@,
            StreamFrameV::Accept => "accept"@,
            StreamFrameV::Chunk { .. } => "chunk"@,
            StreamFrameV::Ping { .. } => "ping"@,
            StreamFrameV::Pong { .. } => "pong"@,
            StreamFrameV::Close { .. } => "close"@,
            StreamFrameV::Abort { .. } => "abort"@,
        }
    }

    /// The members of the `cvm` object that belong to the frame's own variant. Optional members
    /// that hold nothing are left out.
    pub open spec fn own_members(self) -> Seq<(Seq<char>, JsonV)> {
        match self {
            StreamFrameV::Start { content_type: Some(t) } => seq![("contentType"@, JsonV::Text(t))],
            StreamFrameV::Chunk { chunk_index, data } => seq![
                ("chunkIndex"@, JsonV::Number(NumberV::Unsigned(chunk_index))),
                ("data"@, JsonV::Text(data)),
            ],
            StreamFrameV::Ping { nonce } => seq![("nonce"@, JsonV::Text(nonce))],
            StreamFrameV::Pong { nonce } => seq![("nonce"@, JsonV::Text(nonce))],
            StreamFrameV::Close { last_chunk_index: Some(n) } => seq![
                ("lastChunkIndex"@, JsonV::Number(NumberV::Unsigned(n))),
            ],
            StreamFrameV::Abort { reason: Some(t) } => seq![("reason"@, JsonV::Text(t))],
            _ => Seq::empty(),
        }
    }

    /// The `cvm` object of the frame.
    pub open spec fn cvm(self) -> JsonV {
        JsonV::Object(
            seq![
                ("type"@, JsonV::Text(OPEN_STREAM_TYPE@)),
                ("frameType"@, JsonV::Text(self.frame_type())),
            ] + self.own_members(),
        )
    }
}

/// An optional integer member: absent and `null` read as nothing, an unsigned integer as
/// itself, anything else is malformed.
pub open spec fn optional_unsigned(v: Option<JsonV>) -> Option<Option<u64>> {
    match v {
        None => Some(None),
        Some(JsonV::Null) => Some(None),
        Some(JsonV::Number(NumberV::Unsigned(n))) => Some(Some(n)),
        _ => None,
    }
}

/// The frame that a `cvm` object stands for.
pub open spec fn stream_frame_of_cvm(v: JsonV) -> Option<StreamFrameV> {
    let kind = text_of(v.field("frameType"@));
    if text_of(v.field("type"@)) != Some(OPEN_STREAM_TYPE@) {
        None
    } else if kind == Some("start"@) {
        match optional_text(v.field("contentType"@)) {
            Some(content_type) => Some(StreamFrameV::Start { content_type }),
            None => None,
        }
    } else if kind == Some("accept"@) {
        Some(StreamFrameV::Accept)
    } else if kind == Some("chunk"@) {
        match (unsigned_of(v.field("chunkIndex"@)), text_of(v.field("data"@))) {
            (Some(chunk_index), Some(data)) => Some(StreamFrameV::Chunk { chunk_index, data }),
            _ => None,
        }
    } else if kind == Some("ping"@) {
        match text_of(v.field("nonce"@)) {
            Some(nonce) => Some(StreamFrameV::Ping { nonce }),
            None => None,
        }
    } else if kind == Some("pong"@) {
        match text_of(v.field("nonce"@)) {
            Some(nonce) => Some(StreamFrameV::Pong { nonce }),
            None => None,
        }
    } else if kind == Some("close"@) {
        match optional_unsigned(v.field("lastChunkIndex"@)) {
            Some(last_chunk_index) => Some(StreamFrameV::Close { last_chunk_index }),
            None => None,
        }
    } else if kind == Some("abort"@) {
        match optional_text(v.field("reason"@)) {
            Some(reason) => Some(StreamFrameV::Abort { reason }),
            None => None,
        }
    } else {
        None
    }
}

/// The open-stream frame that a notification carries.
pub open spec fn stream_frame_of(n: NotificationV) -> Option<StreamFrameV> {
    match param(n, "cvm"@) {
        Some(cvm) => stream_frame_of_cvm(cvm),
        None => None,
    }
}

/// The names that only open-stream frames use differ from each other and from the others where
/// one is looked up among others.
pub proof fn stream_names_distinct()
    ensures
        "contentType"@ != "type"@,
        "contentType"@ != "frameType"@,
        "chunkIndex"@ != "type"@,
        "chunkIndex"@ != "frameType"@,
        "chunkIndex"@ != "data"@,
        "nonce"@ != "type"@,
        "nonce"@ != "frameType"@,
        "lastChunkIndex"@ != "type"@,
        "lastChunkIndex"@ != "frameType"@,
        "ping"@ != "pong"@,
        "ping"@ != "close"@,
        "pong"@ != "close"@,
        "ping"@ != "start"@,
        "ping"@ != "accept"@,
        "ping"@ != "chunk"@,
        "ping"@ != "abort"@,
        "pong"@ != "start"@,
        "pong"@ != "accept"@,
        "pong"@ != "chunk"@,
        "pong"@ != "abort"@,
        "close"@ != "start"@,
        "close"@ != "accept"@,
        "close"@ != "chunk"@,
        "close"@ != "abort"@,
{
    reveal_strlit("contentType");
    reveal_strlit("type");
    reveal_strlit("frameType");
    reveal_strlit("chunkIndex");
    reveal_strlit("data");
    reveal_strlit("nonce");
    reveal_strlit("lastChunkIndex");
    reveal_strlit("ping");
    reveal_strlit("pong");
    reveal_strlit("close");
    reveal_strlit("start");
    reveal_strlit("accept");
    reveal_strlit("chunk");
    reveal_strlit("abort");
    assert("contentType"@.len() == 11);
    assert("type"@.len() == 4);
    assert("frameType"@.len() == 9);
    assert("chunkIndex"@.len() == 10);
    assert("data"@.len() == 4);
    assert("nonce"@.len() == 5);
    assert("lastChunkIndex"@.len() == 14);
    assert("ping"@.len() == 4 && "ping"@[1] == 'i');
    assert("pong"@.len() == 4 && "pong"@[1] == 'o');
    assert("close"@.len() == 5 && "close"@[0] == 'c' && "close"@[1] == 'l');
    assert("start"@.len() == 5 && "start"@[0] == 's');
    assert("accept"@.len() == 6);
    assert("chunk"@.len() == 5 && "chunk"@[1] == 'h');
    assert("abort"@.len() == 5 && "abort"@[0] == 'a');
}

/// Parsing the `cvm` object of a frame gives the frame back.
pub proof fn stream_cvm_round_trip(f: StreamFrameV)
    ensures
        stream_frame_of_cvm(f.cvm()) == Some(f),
{
    names_distinct();
    stream_names_distinct();
    reveal_with_fuel(member_from, 6);
}

/// A notification that carries a frame gives back its token, its progress and the frame.
pub proof fn stream_notification_round_trip(
    f: StreamFrameV,
    token: Seq<char>,
    progress: u64,
    message: Option<Seq<char>>,
)
    ensures
        ({
            let n = progress_notification(token, progress, message, f.cvm());
            &&& stream_frame_of(n) == Some(f)
            &&& param(n, "progressToken"@) == Some(JsonV::Text(token))
            &&& param(n, "progress"@) == Some(JsonV::Number(NumberV::Unsigned(progress)))
        }),
{
    names_distinct();
    reveal_with_fuel(member_from, 6);
    stream_cvm_round_trip(f);
}

/// No notification carries both an oversized-transfer frame and an open-stream frame.
pub proof fn frame_families_are_disjoint(n: NotificationV)
    ensures
        !(frame_of(n) is Some && stream_frame_of(n) is Some),
{
    reveal_strlit("open-stream");
    reveal_strlit("oversized-transfer");
    assert(OPEN_STREAM_TYPE@.len() == 11);
    assert(OVERSIZED_TRANSFER_TYPE@.len() == 18);
}

impl OpenStreamFrame {
    /// The `frameType` of this frame.
    pub fn frame_type(&self) -> (r: &'static str)
        ensures
            r@ == self@.frame_type(),
    {
        match self {
            OpenStreamFrame::Start { .. } => "start",
            OpenStreamFrame::Accept => "accept",
            OpenStreamFrame::Chunk { .. } => "chunk",
            OpenStreamFrame::Ping { .. } => "ping",
            OpenStreamFrame::Pong { .. } => "pong",
            OpenStreamFrame::Close { .. } => "close",
            OpenStreamFrame::Abort { .. } => "abort",
        }
    }

    /// The `cvm` object of this frame.
    pub fn to_cvm_value(&self) -> (r: Json)
        ensures
            r@ == self@.cvm(),
    {
        let mut members: Vec<(String, Json)> = Vec::new();
        push_member(&mut members, "type", text_value(OPEN_STREAM_TYPE));
        push_member(&mut members, "frameType", text_value(self.frame_type()));
        match self {
            OpenStreamFrame::Start { content_type: Some(t) } => {
                push_member(&mut members, "contentType", text_value(t.as_str()));
            },
            OpenStreamFrame::Chunk { chunk_index, data } => {
                push_member(&mut members, "chunkIndex", unsigned_value(*chunk_index));
                push_member(&mut members, "data", text_value(data.as_str()));
            },
            OpenStreamFrame::Ping { nonce } => {
                push_member(&mut members, "nonce", text_value(nonce.as_str()));
            },
            OpenStreamFrame::Pong { nonce } => {
                push_member(&mut members, "nonce", text_value(nonce.as_str()));
            },
            OpenStreamFrame::Close { last_chunk_index: Some(n) } => {
                push_member(&mut members, "lastChunkIndex", unsigned_value(*n));
            },
            OpenStreamFrame::Abort { reason: Some(t) } => {
                push_member(&mut members, "reason", text_value(t.as_str()));
            },
            _ => {},
        }
        assert(members_view(members@) =~= self@.cvm()->Object_0);
        object(members)
    }

    /// The frame that a `cvm` object stands for, or nothing when it is of another type or
    /// malformed.
    pub fn from_cvm_value(value: &Json) -> (r: Option<Self>)
        ensures
            opt_stream_frame(r) == stream_frame_of_cvm(value@),
    {
        proof {
            names_distinct();
            stream_names_distinct();
        }
        match text_member(value, "type") {
            Some(t) => {
                if !same_text(t.as_str(), OPEN_STREAM_TYPE) {
                    return None;
                }
            },
            None => {
                return None;
            },
        }
        let kind = match text_member(value, "frameType") {
            Some(kind) => kind,
            None => {
                return None;
            },
        };
        if same_text(kind.as_str(), "start") {
            match optional_text_member(value, "contentType") {
                Some(content_type) => Some(OpenStreamFrame::Start { content_type }),
                None => None,
            }
        } else if same_text(kind.as_str(), "accept") {
            Some(OpenStreamFrame::Accept)
        } else if same_text(kind.as_str(), "chunk") {
            match (unsigned_member(value, "chunkIndex"), text_member(value, "data")) {
                (Some(chunk_index), Some(data)) => Some(
                    OpenStreamFrame::Chunk { chunk_index, data },
                ),
                _ => None,
            }
        } else if same_text(kind.as_str(), "ping") {
            match text_member(value, "nonce") {
                Some(nonce) => Some(OpenStreamFrame::Ping { nonce }),
                None => None,
            }
        } else if same_text(kind.as_str(), "pong") {
            match text_member(value, "nonce") {
                Some(nonce) => Some(OpenStreamFrame::Pong { nonce }),
                None => None,
            }
        } else if same_text(kind.as_str(), "close") {
            match value.get("lastChunkIndex") {
                None => Some(OpenStreamFrame::Close { last_chunk_index: None }),
                Some(Json::Null) => Some(OpenStreamFrame::Close { last_chunk_index: None }),
                Some(j) => match j.as_u64() {
                    Some(n) => Some(OpenStreamFrame::Close { last_chunk_index: Some(n) }),
                    None => None,
                },
            }
        } else if same_text(kind.as_str(), "abort") {
            match optional_text_member(value, "reason") {
                Some(reason) => Some(OpenStreamFrame::Abort { reason }),
                None => None,
            }
        } else {
            None
        }
    }

    /// Whether `value` has the shape of an open-stream frame: the right `type` and some string
    /// as `frameType`.
    pub fn is_frame_value(value: &Json) -> (r: bool)
        ensures
            r == (text_of(value@.field("type"@)) == Some(OPEN_STREAM_TYPE@) && text_of(
                value@.field("frameType"@),
            ) is Some),
    {
        match text_member(value, "type") {
            Some(t) => same_text(t.as_str(), OPEN_STREAM_TYPE) && text_member(
                value,
                "frameType",
            ).is_some(),
            None => false,
        }
    }

    /// This frame in a `notifications/progress` notification. The token is always a string.
    pub fn into_progress_notification(
        &self,
        progress_token: &str,
        progress: u64,
        message: Option<&str>,
    ) -> (r: JsonRpcNotification)
        ensures
            r@ == progress_notification(progress_token@, progress, opt_str(message), self@.cvm()),
    {
        wrap_in_progress(self.to_cvm_value(), progress_token, progress, message)
    }
}

fn optional_text_member(v: &Json, key: &str) -> (r: Option<Option<String>>)
    ensures
        match r {
            Some(t) => optional_text(v@.field(key@)) == Some(opt_text(t)),
            None => optional_text(v@.field(key@)) is None,
        },
{
    match v.get(key) {
        None => Some(None),
        Some(Json::Null) => Some(None),
        Some(Json::Text(s)) => Some(Some(s.clone())),
        Some(_) => None,
    }
}

/// The open-stream frame that a notification carries.
pub fn open_stream_frame_from_notification(notification: &JsonRpcNotification) -> (r: Option<
    OpenStreamFrame,
>)
    ensures
        opt_stream_frame(r) == stream_frame_of(notification@),
{
    match &notification.params {
        Some(params) => match params.get("cvm") {
            Some(cvm) => OpenStreamFrame::from_cvm_value(cvm),
            None => None,
        },
        None => None,
    }
}

} // verus!
