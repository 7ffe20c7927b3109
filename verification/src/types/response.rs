//! Responses as structured values.

use crate::types::common::{Flag, Status};
use vstd::prelude::*;

verus! {

/// A response with its parts told apart.
#[derive(Debug, Clone, PartialEq, Eq)]
pub enum Response {
    Tagged { tag: String, status: Status, code: Option<String>, text: String },
    Untagged(UntaggedResponse),
    Continuation(Option<String>),
}

/// What an untagged response reports.
#[derive(Debug, Clone, PartialEq, Eq)]
pub enum UntaggedResponse {
    Exists(u32),
    Recent(u32),
    Expunge(u32),
    Flags(Vec<Flag>),
    Search(Vec<u32>),
    Fetch { seq: u32, data: FetchData },
}

/// The envelope of a message, as far as it is read: its subject.
#[derive(Debug, Clone, PartialEq, Eq)]
pub struct Envelope {
    pub subject: Option<String>,
}

/// The mathematical value of an [`Envelope`].
pub struct EnvelopeView {
    pub subject: Option<Seq<char>>,
}

impl View for Envelope {
    type V = EnvelopeView;

    open spec fn view(&self) -> EnvelopeView {
        EnvelopeView {
            subject: match self.subject {
                Some(s) => Some(s@),
                None => None,
            },
        }
    }
}

/// One data item of a fetch response.
#[derive(Debug, Clone, PartialEq, Eq)]
pub enum FetchData {
    Envelope(Envelope),
    Flags(Vec<Flag>),
    InternalDate(String),
    Rfc822Size(u32),
    Uid(u32),
}

} // verus!
