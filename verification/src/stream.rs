//! Where an endpoint connects to.

use vstd::prelude::*;

verus! {

/// Host and port of a remote peer.
#[derive(Debug)]
pub struct ConnectionInfo {
    host: String,
    port: u16,
}

/// Model of a [`ConnectionInfo`].
pub struct ConnectionInfoView {
    /// Host name.
    pub host: Seq<char>,
    /// Port.
    pub port: u16,
}

impl View for ConnectionInfo {
    type V = ConnectionInfoView;

    closed spec fn view(&self) -> ConnectionInfoView {
        ConnectionInfoView { host: self.host@, port: self.port }
    }
}

impl Clone for ConnectionInfo {
    fn clone(&self) -> (info: ConnectionInfo)
        ensures
            info@ == self@,
    {
        ConnectionInfo { host: self.host.clone(), port: self.port }
    }
}

impl ConnectionInfo {
    /// Creates the connection info for the given host and port.
    pub fn new(host: &str, port: u16) -> (info: ConnectionInfo)
        ensures
            info@ == (ConnectionInfoView { host: host@, port }),
    {
        ConnectionInfo { host: host.to_owned(), port }
    }

    /// Host name.
    pub fn host(&self) -> (host: &str)
        ensures
            host@ == self@.host,
    {
        self.host.as_str()
    }

    /// Port.
    pub fn port(&self) -> (port: u16)
        ensures
            port == self@.port,
    {
        self.port
    }
}

/// Something that knows which remote peer it connects to.
pub trait ConnectionInfoProvider: Sized {
    /// `info` is a description that [`ConnectionInfoProvider::connection_info`] may hand out. The
    /// relation is the implementation's own: it admits everything unless that says more.
    open spec fn provides(self, info: ConnectionInfoView) -> bool {
        true
    }

    /// The remote peer to connect to.
    fn connection_info(&self) -> (info: &ConnectionInfo)
        ensures
            self.provides(info@),
    ;
}

} // verus!
