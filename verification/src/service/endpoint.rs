//! Entry point for the application logic.

use vstd::prelude::*;

use crate::io;
use crate::net::SocketAddr;
use crate::service::time::Duration;
use crate::stream::ConnectionInfoProvider;

verus! {

/// Entry point for the application logic. Endpoints are registered with and managed by the service.
/// The relations that describe the methods are the implementation's own: they admit
/// everything unless it says more.
pub trait Endpoint: ConnectionInfoProvider {
    /// Defines protocol and stream this endpoint operates on.
    type Target;

    /// Event produced while polling the endpoint.
    type Event<'a> where Self: 'a, Self::Target: 'a;

    /// [`Endpoint::create_target`] may turn the endpoint `pre` into `post` and return `result`.
    open spec fn created(
        pre: Self,
        addr: SocketAddr,
        post: Self,
        result: Result<Option<Self::Target>, io::Error>,
    ) -> bool {
        true
    }

    /// [`Endpoint::poll`] may turn the endpoint `pre` into `post`, the target `target` into
    /// `target_post`, and return `result`. What the holder of an event changes through it counts
    /// as part of the poll.
    open spec fn polled<'a>(
        pre: Self,
        target: Self::Target,
        post: Self,
        target_post: Self::Target,
        result: Result<Option<Self::Event<'a>>, io::Error>,
    ) -> bool where Self: 'a {
        true
    }

    /// Used by the service to create a connection upon disconnect, passing the resolved `addr`.
    /// If the endpoint does not want to connect at this stage it should return `Ok(None)` and
    /// await the next connection attempt with (possibly) different `addr`.
    fn create_target(&mut self, addr: SocketAddr) -> (result: Result<
        Option<Self::Target>,
        io::Error,
    >)
        ensures
            Self::created(*old(self), addr, *final(self), result),
    ;

    /// Polls the active target for the next available event.
    ///
    /// `Ok(None)` means the selected endpoint currently has no event. An error begins the
    /// disconnect and recreation lifecycle and is passed to [`Endpoint::can_recreate`].
    fn poll<'a>(&'a mut self, target: &'a mut Self::Target) -> (result: Result<
        Option<Self::Event<'a>>,
        io::Error,
    >)
        ensures
            Self::polled(*old(self), *old(target), *final(self), *final(target), result),
    ;

    /// Upon disconnection the service asks the endpoint whether the connection should be
    /// recreated, passing the disconnect `reason`. Returning `false` makes the service return
    /// [`crate::service::error::IOServiceError::EndpointNotRecreatable`].
    fn can_recreate(&mut self, reason: &DisconnectReason) -> (answer: bool)
        default_ensures
            answer,
            *final(self) == *old(self),
    {
        true
    }

    /// When connections have a time to live the service asks the endpoint before disconnecting.
    /// If `false` is returned the service moves the next disconnect time of the endpoint by
    /// another time to live.
    fn can_auto_disconnect(&mut self) -> (answer: bool)
        default_ensures
            answer,
            *final(self) == *old(self),
    {
        true
    }
}

/// Marker trait to be applied on a user defined `struct` that is passed to the service as context.
pub trait Context {

}

/// Entry point for the application logic that is passed a user provided [`Context`]. Endpoints are
/// registered with and managed by the service. The relations that describe the methods are the
/// implementation's own: they admit everything unless it says more.
pub trait EndpointWithContext<C>: ConnectionInfoProvider {
    /// Defines protocol and stream this endpoint operates on.
    type Target;

    /// Event produced while polling the endpoint.
    type Event<'a> where Self: 'a, Self::Target: 'a, C: 'a;

    /// [`EndpointWithContext::create_target`] may turn the endpoint `pre` into `post`, the context
    /// `context` into `context_post`, and return `result`.
    open spec fn created(
        pre: Self,
        addr: SocketAddr,
        context: C,
        post: Self,
        context_post: C,
        result: Result<Option<Self::Target>, io::Error>,
    ) -> bool {
        true
    }

    /// [`EndpointWithContext::poll`] may turn the endpoint `pre` into `post`, the target `target`
    /// into `target_post`, the context `context` into `context_post`, and return `result`. What the
    /// holder of an event changes through it counts as part of the poll.
    open spec fn polled<'a>(
        pre: Self,
        target: Self::Target,
        context: C,
        post: Self,
        target_post: Self::Target,
        context_post: C,
        result: Result<Option<Self::Event<'a>>, io::Error>,
    ) -> bool where Self: 'a, C: 'a {
        true
    }

    /// Used by the service to create a connection upon disconnect, passing the resolved `addr` and
    /// the user provided context. If the endpoint does not want to connect at this stage it should
    /// return `Ok(None)` and await the next connection attempt with (possibly) different `addr`.
    fn create_target(&mut self, addr: SocketAddr, context: &mut C) -> (result: Result<
        Option<Self::Target>,
        io::Error,
    >)
        ensures
            Self::created(*old(self), addr, *old(context), *final(self), *final(context), result),
    ;

    /// Polls the active target for the next available event.
    ///
    /// `Ok(None)` means the selected endpoint currently has no event. An error begins the
    /// disconnect and recreation lifecycle and is passed to [`EndpointWithContext::can_recreate`].
    fn poll<'a>(&'a mut self, target: &'a mut Self::Target, context: &'a mut C) -> (result: Result<
        Option<Self::Event<'a>>,
        io::Error,
    >)
        ensures
            Self::polled(
                *old(self),
                *old(target),
                *old(context),
                *final(self),
                *final(target),
                *final(context),
                result,
            ),
    ;

    /// Upon disconnection the service asks the endpoint whether the connection should be
    /// recreated, passing the disconnect `reason`. Returning `false` makes the service return
    /// [`crate::service::error::IOServiceError::EndpointNotRecreatable`].
    fn can_recreate(&mut self, reason: &DisconnectReason, context: &mut C) -> (answer: bool)
        default_ensures
            answer,
            *final(self) == *old(self),
            *final(context) == *old(context),
    {
        true
    }

    /// When connections have a time to live the service asks the endpoint before disconnecting.
    /// If `false` is returned the service moves the next disconnect time of the endpoint by
    /// another time to live.
    fn can_auto_disconnect(&mut self, context: &mut C) -> (answer: bool)
        default_ensures
            answer,
            *final(self) == *old(self),
            *final(context) == *old(context),
    {
        true
    }
}

/// Disconnect reason passed into `can_recreate()` service call.
#[derive(Debug)]
pub enum DisconnectReason {
    /// This is expected disconnection due to `ttl` on the connection expiring.
    AutoDisconnect(Duration),
    /// IO error has occurred such as reaching EOF or peer disconnect.
    IO(io::Error),
}

/// The text of the end of a connection that lived as long as it may, where `ttl` is the text of its
/// time to live.
pub fn auto_disconnect_text(ttl: &str) -> (text: String)
    ensures
        text@ == "auto-disconnect after "@ + ttl@,
{
    "auto-disconnect after ".to_owned().concat(ttl)
}

impl DisconnectReason {
    /// The text of this reason.
    pub open spec fn text(self) -> Seq<char> {
        match self {
            DisconnectReason::AutoDisconnect(ttl) => "auto-disconnect after "@ + ttl.text(),
            DisconnectReason::IO(err) => err.message@,
        }
    }

    /// The connection lived as long as it may.
    pub fn auto_disconnect(ttl: Duration) -> (reason: DisconnectReason)
        ensures
            reason == DisconnectReason::AutoDisconnect(ttl),
    {
        DisconnectReason::AutoDisconnect(ttl)
    }

    /// The connection failed.
    pub fn other(err: io::Error) -> (reason: DisconnectReason)
        ensures
            reason == DisconnectReason::IO(err),
    {
        DisconnectReason::IO(err)
    }

    /// The reason as a text.
    pub fn to_string(&self) -> (text: String)
        ensures
            text@ == self.text(),
    {
        match self {
            DisconnectReason::AutoDisconnect(ttl) => auto_disconnect_text(ttl.to_text().as_str()),
            DisconnectReason::IO(err) => err.message.clone(),
        }
    }
}

} // verus!
