//! Resolution of host names.

use vstd::prelude::*;

use crate::io;
use crate::net::SocketAddr;

verus! {

/// A query for the addresses of a host.
pub trait DnsQuery: Sized {
    /// [`DnsQuery::poll`] may turn the query `pre` into `post` and answer `result`. The relation
    /// is the implementation's own: it admits everything unless that says more.
    open spec fn polled(pre: Self, post: Self, result: Result<Vec<SocketAddr>, io::Error>) -> bool {
        true
    }

    /// Asks for the addresses. A failure of kind [`io::ErrorKind::WouldBlock`] means that they are
    /// not known yet.
    fn poll(&mut self) -> (result: Result<Vec<SocketAddr>, io::Error>)
        ensures
            Self::polled(*old(self), *final(self), result),
    ;
}

/// Issues queries for the addresses of hosts.
pub trait DnsResolver: Sized {
    /// Query for the addresses of a host.
    type Query: DnsQuery;

    /// [`DnsResolver::new_query`] may answer `result` when asked for a host and a port. The
    /// relation is the implementation's own: it admits everything unless that says more.
    open spec fn issues(
        self,
        host: Seq<char>,
        port: u16,
        result: Result<Self::Query, io::Error>,
    ) -> bool {
        true
    }

    /// Issues a query for the addresses of a host.
    fn new_query(&self, host: &str, port: u16) -> (result: Result<Self::Query, io::Error>)
        ensures
            self.issues(host@, port, result),
    ;
}

} // verus!
