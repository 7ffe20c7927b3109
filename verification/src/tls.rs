//! The name under which the server is met: the host of an address, checked
//! as a server name.

use crate::error::{ImapError, ImapErrorView};
use crate::format::{chars_of, string_of};
use rustls::pki_types::{InvalidDnsNameError, ServerName};
use vstd::prelude::*;
use vstd::slice::slice_subrange;
use vstd::string::StringExecFns;

verus! {

/// `rustls::pki_types::ServerName`, the name by which a TLS server is
/// identified. It is carried through, never looked into.
#[verifier::external_type_specification]
#[verifier::external_body]
pub struct ExServerName<'a>(ServerName<'a>);

/// `rustls::pki_types::InvalidDnsNameError`, the error of a host that is no
/// server name. It holds nothing.
#[verifier::external_type_specification]
#[verifier::external_body]
pub struct ExInvalidDnsNameError(InvalidDnsNameError);

/// Whether `ServerName::try_from` accepts a host: whether it is a DNS name
/// or an IP address, as that crate reads them.
pub uninterp spec fn is_server_name(host: Seq<char>) -> bool;

/// `ServerName::try_from` for an owned string: a server name where the
/// host is a DNS name or an IP address, the crate's error otherwise.
#[verifier::external_body]
fn server_name(host: String) -> (r: Result<ServerName<'static>, InvalidDnsNameError>)
    ensures
        r is Ok <==> is_server_name(host@),
{
    ServerName::try_from(host)
}

/// The length of the host in an address: the offset of the last colon, or
/// `-1` where the address holds none.
pub open spec fn host_len(addr: Seq<char>) -> int
    decreases addr.len(),
{
    if addr.len() == 0 {
        -1
    } else if addr.last() == ':' {
        addr.len() - 1
    } else {
        host_len(addr.drop_last())
    }
}

/// The error for a host that is no server name.
pub open spec fn dns_error() -> ImapErrorView {
    ImapErrorView::InvalidDnsName("invalid dns name"@)
}

/// Turns the answer of the name check into the client's own result.
pub fn name_or_error(checked: Result<ServerName<'static>, InvalidDnsNameError>) -> (r: Result<
    ServerName<'static>,
    ImapError,
>)
    ensures
        match checked {
            Ok(name) => r == Ok::<ServerName<'static>, ImapError>(name),
            Err(_) => r matches Err(e) && e@ == dns_error(),
        },
{
    match checked {
        Ok(name) => Ok(name),
        Err(_) => Err(ImapError::InvalidDnsName(String::from_str("invalid dns name"))),
    }
}

/// Splits the host off an address of the form `host:port`.
///
/// The host is what stands before the last colon. An address without a
/// colon is refused.
pub fn host_of(addr: &str) -> (r: Result<String, ImapError>)
    ensures
        match r {
            Ok(host) => host_len(addr@) >= 0 && host@ == addr@.take(host_len(addr@)),
            Err(e) => host_len(addr@) < 0 && e@ == ImapErrorView::InvalidAddressFormat(addr@),
        },
{
    let cs = chars_of(addr);
    let mut e = cs.len();
    assert(cs@.take(e as int) =~= cs@);
    while e > 0 && cs[e - 1] != ':'
        invariant
            e <= cs@.len(),
            host_len(cs@.take(e as int)) == host_len(cs@),
        decreases e,
    {
        assert(cs@.take(e as int).drop_last() =~= cs@.take(e - 1));
        e -= 1;
    }
    if e == 0 {
        Err(ImapError::InvalidAddressFormat(String::from_str(addr)))
    } else {
        assert(cs@.take(e as int).last() == ':');
        Ok(string_of(slice_subrange(cs.as_slice(), 0, e - 1)))
    }
}

/// Reads the server name from an address of the form `host:port`.
///
/// Fails with `InvalidAddressFormat` for an address without a colon, and
/// with `InvalidDnsName` for a host that is no server name.
pub fn parse_server_name(addr: &str) -> (r: Result<ServerName<'static>, ImapError>)
    ensures
        host_len(addr@) < 0 ==> (r matches Err(e) && e@ == ImapErrorView::InvalidAddressFormat(
            addr@,
        )),
        host_len(addr@) >= 0 && is_server_name(addr@.take(host_len(addr@))) ==> r is Ok,
        host_len(addr@) >= 0 && !is_server_name(addr@.take(host_len(addr@))) ==> (r matches Err(
            e,
        ) && e@ == dns_error()),
{
    match host_of(addr) {
        Ok(host) => name_or_error(server_name(host)),
        Err(e) => Err(e),
    }
}

} // verus!
