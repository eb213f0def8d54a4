//! Readiness of streams.

use vstd::prelude::*;

use crate::io;
use crate::service::node::{IONode, IONodes, IONodesView};

verus! {

/// Identifies an endpoint towards a selector.
pub type SelectorToken = u32;

/// A stream whose readiness a selector tracks.
pub trait Selectable {
    /// Completes a pending connection attempt and tells whether the stream is connected.
    fn connected(&mut self) -> Result<bool, io::Error>;

    /// Marks the stream as ready for writing.
    fn make_writable(&mut self) -> Result<(), io::Error>;

    /// Marks the stream as ready for reading.
    fn make_readable(&mut self) -> Result<(), io::Error>;
}

/// What a selector may do to endpoints of type `E` with streams of type `T`. The relations are the
/// implementation's own: they admit everything unless it says more.
pub trait Selects<T, E>: Sized {
    /// [`Selector::register`] may turn the selector `pre` into `post`, the node `node` into
    /// `node_post`, and return `result`.
    open spec fn registered(
        pre: Self,
        token: SelectorToken,
        node: IONode<T, E>,
        post: Self,
        node_post: IONode<T, E>,
        result: Result<(), io::Error>,
    ) -> bool {
        true
    }

    /// [`Selector::unregister`] may turn the selector `pre` into `post`, the node `node` into
    /// `node_post`, and return `result`.
    open spec fn unregistered(
        pre: Self,
        node: IONode<T, E>,
        post: Self,
        node_post: IONode<T, E>,
        result: Result<(), io::Error>,
    ) -> bool {
        true
    }

    /// [`Selector::poll`] may turn the selector `pre` into `post`, the nodes `nodes` into
    /// `nodes_post`, and return `result`.
    open spec fn polled(
        pre: Self,
        nodes: IONodesView<T, E>,
        post: Self,
        nodes_post: IONodesView<T, E>,
        result: Result<(), io::Error>,
    ) -> bool {
        true
    }
}

/// Tracks the readiness of the streams of active endpoints. What its methods do to the endpoints is
/// described by [`Selects`].
pub trait Selector: Sized {
    /// Stream of an endpoint.
    type Target: Selectable;

    /// [`Selector::next_token`] may turn the selector `pre` into `post` and return `token`. The
    /// relation is the implementation's own: it admits everything unless that says more.
    open spec fn issued(pre: Self, post: Self, token: SelectorToken) -> bool {
        true
    }

    /// Starts to track the stream of a node under a token.
    fn register<E>(&mut self, token: SelectorToken, node: &mut IONode<Self::Target, E>) -> (result:
        Result<(), io::Error>) where Self: Selects<Self::Target, E>
        ensures
            Self::registered(*old(self), token, *old(node), *final(self), *final(node), result),
    ;

    /// Stops to track the stream of a node.
    fn unregister<E>(&mut self, node: &mut IONode<Self::Target, E>) -> (result: Result<
        (),
        io::Error,
    >) where Self: Selects<Self::Target, E>
        ensures
            Self::unregistered(*old(self), *old(node), *final(self), *final(node), result),
    ;

    /// Brings the readiness of the tracked streams up to date. The storage can be reached through
    /// its methods alone, and they keep it well formed.
    fn poll<E>(&mut self, nodes: &mut IONodes<Self::Target, E>) -> (result: Result<
        (),
        io::Error,
    >) where Self: Selects<Self::Target, E>
        requires
            old(nodes).wf(),
        ensures
            final(nodes).wf(),
            Self::polled(*old(self), old(nodes)@, *final(self), final(nodes)@, result),
    ;

    /// A token for a new endpoint.
    fn next_token(&mut self) -> (token: SelectorToken)
        ensures
            Self::issued(*old(self), *final(self), token),
    ;
}

} // verus!
