//! Tagged completions.

use crate::parser::{decode, decode_spec, Decoded, ParserError, Response};
use vstd::prelude::*;

verus! {

/// What [`try_parse_tagged_response`] owes for a buffer that decodes to `d`.
pub open spec fn tagged_outcome(
    d: Decoded,
    r: Result<Option<(Response, usize)>, ParserError>,
) -> bool {
    match d {
        Decoded::Complete(m, n) => if m is Tagged {
            r matches Ok(Some((t, k))) && t@ == m && k == n
        } else {
            r == Err::<Option<(Response, usize)>, ParserError>(ParserError::InvalidResponse)
        },
        Decoded::Incomplete => r == Err::<Option<(Response, usize)>, ParserError>(
            ParserError::Incomplete,
        ),
        Decoded::Malformed => r == Err::<Option<(Response, usize)>, ParserError>(
            ParserError::InvalidResponse,
        ),
    }
}

/// Reads a tagged completion from the front of `buf`.
///
/// Succeeds with the completion and the bytes it took where the buffer
/// opens with one; fails with `Incomplete` while the line is not
/// terminated, and with `InvalidResponse` where the line is anything else.
pub fn try_parse_tagged_response(buf: &[u8]) -> (r: Result<
    Option<(Response, usize)>,
    ParserError,
>)
    ensures
        tagged_outcome(decode_spec(buf@), r),
{
    match decode(buf) {
        Ok(Some((m, n))) => match m {
            Response::Tagged { .. } => Ok(Some((m, n))),
            _ => Err(ParserError::InvalidResponse),
        },
        Ok(None) => Err(ParserError::Incomplete),
        Err(_) => Err(ParserError::InvalidResponse),
    }
}

} // verus!
