//! Failures of an open stream.

use vstd::prelude::*;

use crate::text::{clone_opt, opt_text};

verus! {

/// Why a stream failed.
#[derive(Debug, PartialEq, Eq)]
pub enum OpenStreamError {
    /// A frame arrived out of sequence or broke a limit of the stream.
    Sequence(String),
    /// A limit of the registry was exceeded.
    Policy(String),
    /// The stream was aborted.
    Abort { token: String, reason: Option<String> },
}

/// Model of [`OpenStreamError`].
pub enum StreamErrorV {
    Sequence(Seq<char>),
    Policy(Seq<char>),
    Abort { token: Seq<char>, reason: Option<Seq<char>> },
}

impl View for OpenStreamError {
    type V = StreamErrorV;

    open spec fn view(&self) -> StreamErrorV {
        match self {
            OpenStreamError::Sequence(s) => StreamErrorV::Sequence(s@),
            OpenStreamError::Policy(s) => StreamErrorV::Policy(s@),
            OpenStreamError::Abort { token, reason } => StreamErrorV::Abort {
                token: token@,
                reason: opt_text(*reason),
            },
        }
    }
}

/// The model of an optional failure.
pub open spec fn opt_stream_error(e: Option<OpenStreamError>) -> Option<StreamErrorV> {
    match e {
        Some(x) => Some(x@),
        None => None,
    }
}

impl OpenStreamError {
    /// An abort of the stream `token`.
    pub fn abort(token: String, reason: Option<String>) -> (r: Self)
        ensures
            r@ == (StreamErrorV::Abort { token: token@, reason: opt_text(reason) }),
    {
        OpenStreamError::Abort { token, reason }
    }

    /// A copy of the failure.
    pub fn duplicate(&self) -> (r: Self)
        ensures
            r@ == self@,
    {
        match self {
            OpenStreamError::Sequence(s) => OpenStreamError::Sequence(s.clone()),
            OpenStreamError::Policy(s) => OpenStreamError::Policy(s.clone()),
            OpenStreamError::Abort { token, reason } => OpenStreamError::Abort {
                token: token.clone(),
                reason: clone_opt(reason),
            },
        }
    }
}

} // verus!
