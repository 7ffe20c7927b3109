//! The builder of a connection: an address, and the kind of transport.

use crate::connector::Connector;
use vstd::prelude::*;
use vstd::string::StringExecFns;

verus! {

/// How the transport to the server is secured.
#[derive(Debug, Clone, Copy, PartialEq, Eq, Structural)]
pub enum ConnectionType {
    /// TLS from the first byte.
    Tls,
    /// Plain text first, TLS on request.
    StartTls,
    /// Plain text throughout.
    Plain,
}

/// An address and the kind of transport wanted, while they are chosen.
#[derive(Debug)]
pub struct Builder {
    addr: String,
    conn_type: ConnectionType,
}

impl Builder {
    /// The address chosen.
    pub closed spec fn addr(&self) -> Seq<char> {
        self.addr@
    }

    /// The kind of transport chosen.
    pub closed spec fn conn_type(&self) -> ConnectionType {
        self.conn_type
    }

    /// A builder for the given address, with TLS as the transport.
    pub fn new(addr: &str) -> (b: Self)
        ensures
            b.addr() == addr@,
            b.conn_type() == ConnectionType::Tls,
    {
        Self { addr: String::from_str(addr), conn_type: ConnectionType::Tls }
    }

    /// Chooses TLS.
    pub fn tls(self) -> (b: Self)
        ensures
            b.addr() == self.addr(),
            b.conn_type() == ConnectionType::Tls,
    {
        Self { addr: self.addr, conn_type: ConnectionType::Tls }
    }

    /// Chooses plain text with TLS on request.
    pub fn starttls(self) -> (b: Self)
        ensures
            b.addr() == self.addr(),
            b.conn_type() == ConnectionType::StartTls,
    {
        Self { addr: self.addr, conn_type: ConnectionType::StartTls }
    }

    /// Chooses plain text.
    pub fn plain(self) -> (b: Self)
        ensures
            b.addr() == self.addr(),
            b.conn_type() == ConnectionType::Plain,
    {
        Self { addr: self.addr, conn_type: ConnectionType::Plain }
    }

    /// The connector for what was chosen.
    pub fn build(self) -> (c: Connector)
        ensures
            c.addr() == self.addr(),
            c.conn_type() == self.conn_type(),
    {
        Connector::new(self.addr.as_str(), self.conn_type)
    }
}

} // verus!
