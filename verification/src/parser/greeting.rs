//! The server's opening line.

use crate::parser::{decode, decode_spec, Decoded, ParserError, Response, ResponseView, Status};
use vstd::prelude::*;

verus! {

/// The opening line of a server: its status and the text that follows.
#[derive(Debug, PartialEq, Eq)]
pub struct Greeting {
    pub status: Status,
    pub text: Vec<u8>,
}

/// What [`try_parse`] owes for a buffer that decodes to `d`.
pub open spec fn greeting_outcome(
    d: Decoded,
    r: Result<Option<(Greeting, usize)>, ParserError>,
) -> bool {
    match d {
        Decoded::Complete(ResponseView::Greeting { status, text }, n) => {
            &&& r matches Ok(Some((g, k)))
            &&& g.status@ == status
            &&& g.text@ == text
            &&& k == n
        },
        Decoded::Incomplete => r == Err::<Option<(Greeting, usize)>, ParserError>(
            ParserError::Incomplete,
        ),
        _ => r == Err::<Option<(Greeting, usize)>, ParserError>(ParserError::InvalidResponse),
    }
}

/// Reads a greeting from the front of `buf`.
///
/// Succeeds with the greeting and the bytes it took where the buffer opens
/// with one; fails with `Incomplete` while the line is not terminated, and
/// with `InvalidResponse` where the line is anything but a greeting.
pub fn try_parse(buf: &[u8]) -> (r: Result<Option<(Greeting, usize)>, ParserError>)
    ensures
        greeting_outcome(decode_spec(buf@), r),
{
    match decode(buf) {
        Ok(Some((Response::Greeting { status, text }, n))) => Ok(
            Some((Greeting { status, text }, n)),
        ),
        Ok(Some(_)) => Err(ParserError::InvalidResponse),
        Ok(None) => Err(ParserError::Incomplete),
        Err(_) => Err(ParserError::InvalidResponse),
    }
}

} // verus!
