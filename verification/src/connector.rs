//! The connector: what is decided before a connection is opened.

use crate::builder::ConnectionType;
use crate::error::{ImapError, ImapErrorView};
use crate::tls::{host_len, host_of};
use vstd::prelude::*;
use vstd::string::StringExecFns;

verus! {

/// An address and the kind of transport by which to reach it.
#[derive(Debug)]
pub struct Connector {
    addr: String,
    conn_type: ConnectionType,
}

impl Connector {
    /// The address.
    pub closed spec fn addr(&self) -> Seq<char> {
        self.addr@
    }

    /// The kind of transport.
    pub closed spec fn conn_type(&self) -> ConnectionType {
        self.conn_type
    }

    /// A connector for the given address and kind of transport.
    pub fn new(addr: &str, conn_type: ConnectionType) -> (c: Self)
        ensures
            c.addr() == addr@,
            c.conn_type() == conn_type,
    {
        Self { addr: String::from_str(addr), conn_type }
    }

    /// The address to connect to.
    pub fn address(&self) -> (s: &str)
        ensures
            s@ == self.addr(),
    {
        self.addr.as_str()
    }

    /// Decides whether a connection can be opened, and to which host.
    ///
    /// Only TLS is served: every other kind of transport is refused. With
    /// TLS the host of the address is returned, and an address without a
    /// colon refused.
    pub fn host(&self) -> (r: Result<String, ImapError>)
        ensures
            match r {
                Ok(host) => {
                    &&& self.conn_type() is Tls
                    &&& host_len(self.addr()) >= 0
                    &&& host@ == self.addr().take(host_len(self.addr()))
                },
                Err(e) => if self.conn_type() is Tls {
                    host_len(self.addr()) < 0 && e@ == ImapErrorView::InvalidAddressFormat(
                        self.addr(),
                    )
                } else {
                    e@ == ImapErrorView::ConnectionFailed("Connection type not implemented"@)
                },
            },
    {
        match self.conn_type {
            ConnectionType::Tls => host_of(self.addr.as_str()),
            _ => Err(
                ImapError::ConnectionFailed(String::from_str("Connection type not implemented")),
            ),
        }
    }
}

} // verus!
