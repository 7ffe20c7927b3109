//! The errors that a caller of the client can meet.

use vstd::prelude::*;
use vstd::string::StringExecFns;

verus! {

/// Why an operation of the client failed.
#[derive(Debug, Clone, PartialEq, Eq)]
pub enum ImapError {
    /// The connection could not be used, or the server said no.
    ConnectionFailed(String),
    /// The address has not the form of a host and a port.
    InvalidAddressFormat(String),
    /// The host is no valid DNS name.
    InvalidDnsName(String),
    /// The transport failed.
    IoError(String),
}

/// The mathematical value of an [`ImapError`].
pub enum ImapErrorView {
    ConnectionFailed(Seq<char>),
    InvalidAddressFormat(Seq<char>),
    InvalidDnsName(Seq<char>),
    IoError(Seq<char>),
}

impl View for ImapError {
    type V = ImapErrorView;

    open spec fn view(&self) -> ImapErrorView {
        match self {
            ImapError::ConnectionFailed(s) => ImapErrorView::ConnectionFailed(s@),
            ImapError::InvalidAddressFormat(s) => ImapErrorView::InvalidAddressFormat(s@),
            ImapError::InvalidDnsName(s) => ImapErrorView::InvalidDnsName(s@),
            ImapError::IoError(s) => ImapErrorView::IoError(s@),
        }
    }
}

/// The text that describes an error.
pub open spec fn error_text(e: ImapErrorView) -> Seq<char> {
    match e {
        ImapErrorView::ConnectionFailed(s) => "Connection failed: "@ + s,
        ImapErrorView::InvalidAddressFormat(s) => "Invalid address format: "@ + s,
        ImapErrorView::InvalidDnsName(s) => "DNS name error: "@ + s,
        ImapErrorView::IoError(s) => s,
    }
}

impl ImapError {
    /// The text that describes the error.
    pub fn message(&self) -> (s: String)
        ensures
            s@ == error_text(self@),
    {
        match self {
            ImapError::ConnectionFailed(t) => {
                let mut s = String::from_str("Connection failed: ");
                s.append(t.as_str());
                s
            },
            ImapError::InvalidAddressFormat(t) => {
                let mut s = String::from_str("Invalid address format: ");
                s.append(t.as_str());
                s
            },
            ImapError::InvalidDnsName(t) => {
                let mut s = String::from_str("DNS name error: ");
                s.append(t.as_str());
                s
            },
            ImapError::IoError(t) => t.clone(),
        }
    }
}

} // verus!
