//! What a service is made of, and what each of its steps does to it.
//!
//! A step is described by a relation between the service before it, the service after it and its
//! result. Where a step depends on a selector, a resolver, a time source or an endpoint, the
//! relation is stated over what these may do.

use vstd::prelude::*;

use crate::io;
use crate::net::SocketAddr;
use crate::service::dns::{DnsQuery, DnsResolver};
use crate::service::endpoint::{DisconnectReason, Endpoint, EndpointWithContext};
use crate::service::error::{IOServiceError, IOServiceOperation};
use crate::service::node::{IONode, IONodesView};
use crate::service::select::{Selector, SelectorToken, Selects};
use crate::service::time::{Duration, TimeSource, TtlSupplier};
use crate::service::{Handle, IOServiceEvent, PendingEndpoint, ENDPOINT_CREATION_THROTTLE_NS};
use crate::stream::{ConnectionInfoProvider, ConnectionInfoView};

verus! {

/// Model of a service.
#[verifier::ext_equal]
pub struct IOServiceView<S: Selector, E, TS, D: DnsResolver> {
    /// The selector.
    pub selector: S,
    /// Endpoints that wait for a connection, the next one to try first.
    pub pending: Seq<PendingEndpoint<D::Query, E>>,
    /// Active endpoints.
    pub nodes: IONodesView<S::Target, E>,
    /// Active endpoints that failed, with the cause, the first one first.
    pub disconnects: Seq<(Handle, DisconnectReason)>,
    /// Time after which the next pending endpoint is tried.
    pub next_create_ns: u64,
    /// Supplies the time to live of connections, if they have one.
    pub auto_disconnect: Option<Box<dyn TtlSupplier>>,
    /// Where the time is read from.
    pub time_source: TS,
    /// Issues the queries for the addresses of endpoints.
    pub dns_resolver: D,
    /// How long a query may take.
    pub dns_query_timeout_ns: Option<u64>,
}

/// A pending endpoint whose address is known and whose target is to be created.
pub struct DueEndpoint<E> {
    /// Handle of the endpoint.
    pub handle: Handle,
    /// The endpoint.
    pub endpoint: E,
    /// Address of the endpoint.
    pub addr: SocketAddr,
    /// When the endpoint was tried.
    pub now_ns: u64,
}

/// Tells the disconnections of other endpoints than `handle` from those of `handle`.
pub open spec fn other_than(handle: Handle) -> spec_fn((Handle, DisconnectReason)) -> bool {
    |entry: (Handle, DisconnectReason)| entry.0 != handle
}

/// The disconnections of other endpoints than `handle`.
pub open spec fn without_handle(
    disconnects: Seq<(Handle, DisconnectReason)>,
    handle: Handle,
) -> Seq<(Handle, DisconnectReason)> {
    disconnects.filter(other_than(handle))
}

/// What is left of the disconnections without those of `handle` is in their order, and none of it
/// belongs to `handle`.
pub proof fn without_handle_leaves_others(
    disconnects: Seq<(Handle, DisconnectReason)>,
    handle: Handle,
)
    ensures
        without_handle(disconnects, handle).len() <= disconnects.len(),
        forall|k: int|
            0 <= k < without_handle(disconnects, handle).len() ==> {
                let entry = #[trigger] without_handle(disconnects, handle)[k];
                entry.0 != handle && disconnects.contains(entry)
            },
    decreases disconnects.len(),
{
    reveal(Seq::filter);
    if disconnects.len() > 0 {
        let front = disconnects.drop_last();
        without_handle_leaves_others(front, handle);
        assert forall|k: int| 0 <= k < without_handle(disconnects, handle).len() implies ({
            let entry = #[trigger] without_handle(disconnects, handle)[k];
            entry.0 != handle && disconnects.contains(entry)
        }) by {
            let entry = without_handle(disconnects, handle)[k];
            if k < without_handle(front, handle).len() {
                assert(entry == without_handle(front, handle)[k]);
                let j = choose|j: int| 0 <= j < front.len() && front[j] == entry;
                assert(disconnects[j] == entry);
            } else {
                assert(entry == disconnects[disconnects.len() - 1]);
            }
        }
    }
}

/// A query that was issued at `created_ns` has taken longer than it may.
pub open spec fn query_expired(now_ns: u64, created_ns: u64, timeout_ns: u64) -> bool {
    now_ns > created_ns + timeout_ns
}

/// A query was given up because it had taken longer than it may.
pub open spec fn timed_out(result: Result<Option<SocketAddr>, io::Error>) -> bool {
    result matches Err(e) && e.reads(io::ErrorKind::TimedOut, "dns resolution timed out"@)
}

/// A query has no answer yet.
pub open spec fn would_block(answer: Result<Vec<SocketAddr>, io::Error>) -> bool {
    answer matches Err(e) && e.kind == io::ErrorKind::WouldBlock
}

/// What is made of the answer to a query: the first address, nothing if the answer is not known
/// yet, or a failure.
pub open spec fn address_of(
    answer: Result<Vec<SocketAddr>, io::Error>,
    result: Result<Option<SocketAddr>, io::Error>,
) -> bool {
    match answer {
        Ok(addrs) => if addrs@.len() > 0 {
            result == Ok::<_, io::Error>(Some(addrs@[0]))
        } else {
            result matches Err(e) && e.reads(
                io::ErrorKind::Other,
                "dns resolution dio not return any address"@,
            )
        },
        Err(e) => if would_block(answer) {
            result == Ok::<Option<SocketAddr>, io::Error>(None)
        } else {
            result == Err::<Option<SocketAddr>, _>(e)
        },
    }
}

impl<S: Selector, E, TS, D: DnsResolver> IOServiceView<S, E, TS, D> {
    /// A service without any endpoint.
    pub open spec fn fresh(selector: S, time_source: TS, dns_resolver: D) -> Self {
        IOServiceView {
            selector,
            pending: Seq::empty(),
            nodes: IONodesView::empty(),
            disconnects: Seq::empty(),
            next_create_ns: 0,
            auto_disconnect: None,
            time_source,
            dns_resolver,
            dns_query_timeout_ns: None,
        }
    }

    /// The storage of active endpoints is valid. At most one disconnection is queued; its endpoint
    /// is active and has failed.
    pub open spec fn valid(self) -> bool {
        &&& self.nodes.valid()
        &&& self.disconnects.len() <= 1
        &&& forall|k: int| #![trigger self.disconnects[k]]
            0 <= k < self.disconnects.len() ==> {
                &&& self.nodes.node(self.disconnects[k].0.0) is Some
                &&& self.disconnects[k].1 is IO
            }
    }

    /// The service with another node in place of the one of `handle`.
    pub open spec fn with_node(self, handle: Handle, node: IONode<S::Target, E>) -> Self {
        IOServiceView { nodes: self.nodes.with_node(handle.0, node), ..self }
    }

    /// The service with another endpoint in the node of `handle`.
    pub open spec fn with_endpoint(self, handle: Handle, endpoint: E) -> Self {
        match self.nodes.node(handle.0) {
            Some(node) => self.with_node(handle, node.with_endpoint(endpoint)),
            None => self,
        }
    }

    /// The service after a pending endpoint was tried at `now_ns`.
    pub open spec fn throttled(self, now_ns: u64) -> Self {
        IOServiceView {
            next_create_ns: crate::service::time::time_after(
                now_ns,
                ENDPOINT_CREATION_THROTTLE_NS as nat,
            ),
            ..self
        }
    }
}

impl<
    S: Selector + Selects<<S as Selector>::Target, E>,
    E,
    TS,
    D: DnsResolver,
> IOServiceView<S, E, TS, D> {
    /// The service after an active endpoint was taken out. The stream is given up and the
    /// selector forgets it first; if the selector fails to, the endpoint stays active.
    pub open spec fn detached(
        self,
        handle: Handle,
        post: Self,
        result: Result<E, IOServiceError>,
    ) -> bool {
        match self.nodes.node(handle.0) {
            None => {
                &&& result matches Err(e) && e.is_invalid_state(
                    handle,
                    "active endpoint is not registered"@,
                )
                &&& post == self
            },
            Some(node) => exists|node_post: IONode<S::Target, E>, reply: Result<(), io::Error>|
                {
                    &&& #[trigger] S::unregistered(
                        self.selector,
                        node,
                        post.selector,
                        node_post,
                        reply,
                    )
                    &&& match reply {
                        Err(source) => {
                            &&& result == Err::<E, _>(
                                IOServiceError::Io {
                                    handle: Some(handle),
                                    operation: IOServiceOperation::Unregister,
                                    source,
                                },
                            )
                            &&& post == (IOServiceView {
                                selector: post.selector,
                                ..self
                            }).with_node(handle, node_post)
                        },
                        Ok(()) => {
                            &&& result == Ok::<_, IOServiceError>(node_post.endpoint.1)
                            &&& post == IOServiceView {
                                selector: post.selector,
                                nodes: self.nodes.removed(handle.0),
                                ..self
                            }
                        },
                    }
                },
        }
    }

    /// The service after an endpoint was taken out for good, wherever it was. Its queued
    /// disconnections are forgotten.
    pub open spec fn deregistered(
        self,
        handle: Handle,
        post: Self,
        result: Result<Option<E>, IOServiceError>,
    ) -> bool {
        let quiet = IOServiceView {
            disconnects: without_handle(self.disconnects, handle),
            ..self
        };
        if self.nodes.node(handle.0) is Some {
            match result {
                Ok(Some(endpoint)) => quiet.detached(handle, post, Ok(endpoint)),
                Ok(None) => false,
                Err(e) => quiet.detached(handle, post, Err(e)),
            }
        } else {
            match result {
                Ok(Some(endpoint)) => exists|i: int|
                    {
                        &&& 0 <= i < self.pending.len()
                        &&& (#[trigger] self.pending[i]).handle == handle
                        &&& endpoint == self.pending[i].endpoint
                        &&& forall|j: int|
                            0 <= j < i ==> (#[trigger] self.pending[j]).handle != handle
                        &&& post == IOServiceView { pending: self.pending.remove(i), ..quiet }
                    },
                Ok(None) => {
                    &&& forall|j: int|
                        0 <= j < self.pending.len() ==> (#[trigger] self.pending[j]).handle
                            != handle
                    &&& post == quiet
                },
                Err(_) => false,
            }
        }
    }
}

impl<S: Selector, E, TS: TimeSource, D: DnsResolver> IOServiceView<S, E, TS, D> {
    /// `ttl` is a time to live that the next connection may get.
    pub open spec fn supplies_ttl(self, ttl: Option<Duration>) -> bool {
        match self.auto_disconnect {
            Some(supplier) => ttl matches Some(span) && supplier.supplies(span),
            None => ttl is None,
        }
    }

    /// Polling a query that was issued at `created_ns` may turn it from `query` into `query_post`
    /// and give `result`. A query that was polled before without an answer, which `blocked` tells,
    /// is not polled any more once it has taken longer than it may. One that was not polled before
    /// fails for its age only if it has no answer.
    pub open spec fn resolved(
        self,
        query: D::Query,
        created_ns: u64,
        blocked: bool,
        query_post: D::Query,
        result: Result<Option<SocketAddr>, io::Error>,
    ) -> bool {
        match self.dns_query_timeout_ns {
            Some(timeout_ns) if blocked => exists|now_ns: u64| #[trigger]
                self.time_source.shows(now_ns) && if query_expired(
                    now_ns,
                    created_ns,
                    timeout_ns,
                ) {
                    query_post == query && timed_out(result)
                } else {
                    exists|answer: Result<Vec<SocketAddr>, io::Error>| #[trigger]
                        D::Query::polled(query, query_post, answer) && address_of(answer, result)
                },
            Some(timeout_ns) => exists|answer: Result<Vec<SocketAddr>, io::Error>| #[trigger]
                D::Query::polled(query, query_post, answer) && if would_block(answer) {
                    exists|now_ns: u64| #[trigger]
                        self.time_source.shows(now_ns) && if query_expired(
                            now_ns,
                            created_ns,
                            timeout_ns,
                        ) {
                            timed_out(result)
                        } else {
                            address_of(answer, result)
                        }
                } else {
                    address_of(answer, result)
                },
            None => exists|answer: Result<Vec<SocketAddr>, io::Error>| #[trigger]
                D::Query::polled(query, query_post, answer) && address_of(answer, result),
        }
    }

    /// The service after it turned to the next pending endpoint, if it was time to.
    pub open spec fn pending_checked(
        self,
        post: Self,
        result: Result<Option<DueEndpoint<E>>, IOServiceError>,
    ) -> bool {
        exists|now_ns: u64| #[trigger]
            self.time_source.shows(now_ns) && self.pending_checked_at(now_ns, post, result)
    }

    /// The service after it turned to the next pending endpoint at `now_ns`, if it was time to.
    pub open spec fn pending_checked_at(
        self,
        now_ns: u64,
        post: Self,
        result: Result<Option<DueEndpoint<E>>, IOServiceError>,
    ) -> bool {
        if now_ns <= self.next_create_ns {
            result == Ok::<Option<DueEndpoint<E>>, IOServiceError>(None) && post == self
        } else if self.pending.len() == 0 {
            &&& result == Ok::<Option<DueEndpoint<E>>, IOServiceError>(None)
            &&& post == self.throttled(now_ns)
        } else {
            let first = self.pending.first();
            let rest = self.pending.drop_first();
            exists|query: D::Query, answer: Result<Option<SocketAddr>, io::Error>|
                {
                    &&& #[trigger] self.resolved(
                        first.query,
                        first.created_ns,
                        first.blocked,
                        query,
                        answer,
                    )
                    &&& match answer {
                        Err(source) => {
                            &&& result == Err::<Option<DueEndpoint<E>>, _>(
                                IOServiceError::Io {
                                    handle: Some(first.handle),
                                    operation: IOServiceOperation::Resolve,
                                    source,
                                },
                            )
                            &&& post == IOServiceView { pending: rest, ..self }
                        },
                        Ok(None) => {
                            &&& result == Ok::<Option<DueEndpoint<E>>, IOServiceError>(None)
                            &&& post == (IOServiceView {
                                pending: rest.push(
                                    PendingEndpoint { query, blocked: true, ..first },
                                ),
                                ..self
                            }).throttled(now_ns)
                        },
                        Ok(Some(addr)) => {
                            &&& result == Ok::<_, IOServiceError>(
                                Some(
                                    DueEndpoint {
                                        handle: first.handle,
                                        endpoint: first.endpoint,
                                        addr,
                                        now_ns,
                                    },
                                ),
                            )
                            &&& post == IOServiceView { pending: rest, ..self }
                        },
                    }
                }
        }
    }
}

impl<
    S: Selector,
    E: ConnectionInfoProvider,
    TS: TimeSource,
    D: DnsResolver,
> IOServiceView<S, E, TS, D> {
    /// Asking for the address of an endpoint may give `result`.
    pub open spec fn asked_for_address(
        self,
        endpoint: E,
        result: Result<D::Query, io::Error>,
    ) -> bool {
        exists|info: ConnectionInfoView| #[trigger]
            endpoint.provides(info) && self.dns_resolver.issues(info.host, info.port, result)
    }

    /// The service after an endpoint was put at the end of the pending ones, with a new query for
    /// its address. If the query cannot be issued, the endpoint is dropped.
    pub open spec fn scheduled(
        self,
        handle: Handle,
        endpoint: E,
        post: Self,
        result: Result<(), IOServiceError>,
    ) -> bool {
        exists|reply: Result<D::Query, io::Error>|
            {
                &&& #[trigger] self.asked_for_address(endpoint, reply)
                &&& match reply {
                    Err(source) => {
                        &&& result == Err::<(), _>(
                            IOServiceError::Io {
                                handle: Some(handle),
                                operation: IOServiceOperation::Resolve,
                                source,
                            },
                        )
                        &&& post == self
                    },
                    Ok(query) => exists|created_ns: u64|
                        {
                            &&& #[trigger] self.time_source.shows(created_ns)
                            &&& result == Ok::<_, IOServiceError>(())
                            &&& post == IOServiceView {
                                pending: self.pending.push(
                                    PendingEndpoint {
                                        handle,
                                        query,
                                        created_ns,
                                        blocked: false,
                                        endpoint,
                                    },
                                ),
                                ..self
                            }
                        },
                }
            }
    }

    /// The service after an endpoint that was given `handle` was put at the end of the pending
    /// ones.
    pub open spec fn enrolled(
        self,
        handle: Handle,
        endpoint: E,
        post: Self,
        result: Result<Handle, IOServiceError>,
    ) -> bool {
        match result {
            Ok(issued) => issued == handle && self.scheduled(handle, endpoint, post, Ok(())),
            Err(e) => self.scheduled(handle, endpoint, post, Err(e)),
        }
    }

    /// The service after a new endpoint was registered under a handle that the selector issued.
    pub open spec fn registered(
        self,
        endpoint: E,
        post: Self,
        result: Result<Handle, IOServiceError>,
    ) -> bool {
        exists|token: SelectorToken|
            {
                &&& #[trigger] S::issued(self.selector, post.selector, token)
                &&& (IOServiceView { selector: post.selector, ..self }).enrolled(
                    Handle(token),
                    endpoint,
                    post,
                    result,
                )
            }
    }
}

impl<
    S: Selector + Selects<<S as Selector>::Target, E>,
    E: ConnectionInfoProvider,
    TS: TimeSource,
    D: DnsResolver,
> IOServiceView<S, E, TS, D> {
    /// The service after the target of a pending endpoint was created, or was not. The endpoint
    /// becomes active with its target; without one it goes back to the pending ones.
    pub open spec fn connected(
        self,
        handle: Handle,
        endpoint: E,
        now_ns: u64,
        target: Result<Option<S::Target>, io::Error>,
        post: Self,
        result: Result<Option<Handle>, IOServiceError>,
    ) -> bool {
        match target {
            Err(source) => {
                &&& result == Err::<Option<Handle>, _>(
                    IOServiceError::Io {
                        handle: Some(handle),
                        operation: IOServiceOperation::CreateTarget,
                        source,
                    },
                )
                &&& post == self
            },
            Ok(None) => exists|queued: Self, reply: Result<(), IOServiceError>|
                {
                    &&& #[trigger] self.scheduled(handle, endpoint, queued, reply)
                    &&& match reply {
                        Err(e) => result == Err::<Option<Handle>, _>(e) && post == queued,
                        Ok(()) => {
                            &&& result == Ok::<Option<Handle>, IOServiceError>(None)
                            &&& post == queued.throttled(now_ns)
                        },
                    }
                },
            Ok(Some(stream)) => exists|ttl: Option<Duration>, active_ns: u64|
                {
                    &&& #[trigger] self.supplies_ttl(ttl)
                    &&& #[trigger] self.time_source.shows(active_ns)
                    &&& exists|node: IONode<S::Target, E>| #[trigger]
                        node.made_at(stream, handle, endpoint, ttl, active_ns) && self.activated(
                            handle,
                            node,
                            now_ns,
                            post,
                            result,
                        )
                },
        }
    }

    /// The service after the node of an endpoint was handed to the selector and stored.
    pub open spec fn activated(
        self,
        handle: Handle,
        node: IONode<S::Target, E>,
        now_ns: u64,
        post: Self,
        result: Result<Option<Handle>, IOServiceError>,
    ) -> bool {
        exists|node_post: IONode<S::Target, E>, reply: Result<(), io::Error>|
            {
                let known = IOServiceView { selector: post.selector, ..self };
                &&& #[trigger] S::registered(
                    self.selector,
                    handle.0,
                    node,
                    post.selector,
                    node_post,
                    reply,
                )
                &&& match reply {
                    Err(source) => {
                        &&& result == Err::<Option<Handle>, _>(
                            IOServiceError::Io {
                                handle: Some(handle),
                                operation: IOServiceOperation::Register,
                                source,
                            },
                        )
                        &&& post == known
                    },
                    Ok(()) => if self.nodes.admits(handle.0) {
                        &&& result == Ok::<_, IOServiceError>(Some(handle))
                        &&& post == (IOServiceView {
                            nodes: self.nodes.inserted(handle.0, node_post),
                            ..known
                        }).throttled(now_ns)
                    } else {
                        &&& result matches Err(e) && e.is_invalid_state(
                            handle,
                            if self.nodes.node(handle.0) is Some {
                                "endpoint token is already active"@
                            } else {
                                "endpoint token is out of range"@
                            },
                        )
                        &&& post == known
                    },
                }
            }
    }

    /// The service after a disconnected endpoint was taken out and put back to the pending ones,
    /// or dropped if it declined to be recreated.
    pub open spec fn disconnected<V>(
        self,
        handle: Handle,
        reason: DisconnectReason,
        can_recreate: bool,
        post: Self,
        result: Result<IOServiceEvent<V>, IOServiceError>,
    ) -> bool {
        exists|removed: Self, reply: Result<E, IOServiceError>|
            {
                &&& #[trigger] self.detached(handle, removed, reply)
                &&& match reply {
                    Err(e) => result == Err::<IOServiceEvent<V>, _>(e) && post == removed,
                    Ok(endpoint) => if can_recreate {
                        exists|scheduling: Result<(), IOServiceError>|
                            {
                                &&& #[trigger] removed.scheduled(
                                    handle,
                                    endpoint,
                                    post,
                                    scheduling,
                                )
                                &&& result == match scheduling {
                                    Ok(()) => Ok::<IOServiceEvent<V>, IOServiceError>(
                                        IOServiceEvent::Disconnected { handle, reason },
                                    ),
                                    Err(e) => Err(e),
                                }
                            }
                    } else {
                        &&& result == Err::<IOServiceEvent<V>, _>(
                            IOServiceError::EndpointNotRecreatable { handle, reason },
                        )
                        &&& post == removed
                    },
                }
            }
    }
}

/// An endpoint was asked whether it can be recreated.
pub struct RecreateAsked<E, C> {
    /// The endpoint before it was asked.
    pub endpoint: E,
    /// The context before the endpoint was asked.
    pub context: C,
    /// Cause of the disconnection.
    pub reason: DisconnectReason,
    /// The endpoint after it was asked.
    pub endpoint_post: E,
    /// The context after the endpoint was asked.
    pub context_post: C,
    /// The answer.
    pub answer: bool,
}

/// An endpoint was asked whether its connection may be ended for its age.
pub struct AutoDisconnectAsked<E, C> {
    /// The endpoint before it was asked.
    pub endpoint: E,
    /// The context before the endpoint was asked.
    pub context: C,
    /// The endpoint after it was asked.
    pub endpoint_post: E,
    /// The context after the endpoint was asked.
    pub context_post: C,
    /// The answer.
    pub answer: bool,
}

/// What an endpoint was asked while the service was polled.
pub struct Asked<E, C> {
    /// Whether it can be recreated.
    pub recreate: Option<RecreateAsked<E, C>>,
    /// Whether its connection may be ended for its age.
    pub auto_disconnect: Option<AutoDisconnectAsked<E, C>>,
}

impl<
    S: Selector + Selects<<S as Selector>::Target, E>,
    E: Endpoint<Target = S::Target>,
    TS: TimeSource,
    D: DnsResolver,
> IOServiceView<S, E, TS, D> {
    /// The service after the active endpoint `handle` was polled. A failure is queued as a
    /// disconnection of the endpoint.
    pub open spec fn endpoint_polled<'a>(
        self,
        handle: Handle,
        post: Self,
        result: Result<IOServiceEvent<E::Event<'a>>, IOServiceError>,
    ) -> bool where E: 'a {
        let node = self.nodes.node(handle.0)->0;
        exists|endpoint: E, stream: S::Target, reply: Result<Option<E::Event<'a>>, io::Error>|
            {
                let polled = self.with_node(
                    handle,
                    IONode { stream, ..node.with_endpoint(endpoint) },
                );
                &&& #[trigger] E::polled(node.endpoint.1, node.stream, endpoint, stream, reply)
                &&& match reply {
                    Ok(Some(event)) => {
                        &&& result == Ok::<_, IOServiceError>(
                            IOServiceEvent::Data { handle, event },
                        )
                        &&& post == polled
                    },
                    Ok(None) => {
                        &&& result == Ok::<_, IOServiceError>(
                            IOServiceEvent::<E::Event<'a>>::Idle,
                        )
                        &&& post == polled
                    },
                    Err(source) => {
                        &&& result == Ok::<_, IOServiceError>(
                            IOServiceEvent::<E::Event<'a>>::Idle,
                        )
                        &&& post == IOServiceView {
                            disconnects: polled.disconnects.push(
                                (handle, DisconnectReason::IO(source)),
                            ),
                            ..polled
                        }
                    },
                }
            }
    }

    /// The service after the active endpoint `handle` had its turn: it was disconnected for its
    /// age, or it was polled.
    pub open spec fn turn_taken<'a>(
        self,
        handle: Handle,
        asked: Asked<E, ()>,
        post: Self,
        result: Result<IOServiceEvent<E::Event<'a>>, IOServiceError>,
    ) -> bool where E: 'a {
        match self.auto_disconnect {
            None => self.endpoint_polled(handle, post, result),
            Some(_) => exists|now_ns: u64| #[trigger]
                self.time_source.shows(now_ns) && self.turn_taken_at(
                    handle,
                    now_ns,
                    asked,
                    post,
                    result,
                ),
        }
    }

    /// The service after the active endpoint `handle` had its turn at `now_ns`, where connections
    /// have a time to live.
    pub open spec fn turn_taken_at<'a>(
        self,
        handle: Handle,
        now_ns: u64,
        asked: Asked<E, ()>,
        post: Self,
        result: Result<IOServiceEvent<E::Event<'a>>, IOServiceError>,
    ) -> bool where E: 'a {
        let node = self.nodes.node(handle.0)->0;
        if now_ns <= node.disconnect_time_ns {
            self.endpoint_polled(handle, post, result)
        } else {
            &&& asked.auto_disconnect matches Some(question)
            &&& question.endpoint == node.endpoint.1
            &&& if question.answer {
                let reason = DisconnectReason::AutoDisconnect(node.ttl);
                &&& asked.recreate matches Some(next)
                &&& next.endpoint == question.endpoint_post
                &&& next.reason == reason
                &&& self.with_endpoint(handle, next.endpoint_post).disconnected(
                    handle,
                    reason,
                    next.answer,
                    post,
                    result,
                )
            } else {
                exists|ttl: Duration| #[trigger]
                    self.auto_disconnect->0.supplies(ttl) && self.with_node(
                        handle,
                        IONode {
                            disconnect_time_ns: crate::service::time::time_after(
                                node.disconnect_time_ns,
                                crate::service::time::low_64_bits(ttl@),
                            ),
                            ..node.with_endpoint(question.endpoint_post)
                        },
                    ).endpoint_polled(handle, post, result)
            }
        }
    }

    /// The service after the selector was polled and the next active endpoint, if there is one, had
    /// its turn.
    pub open spec fn active_polled<'a>(
        self,
        asked: Asked<E, ()>,
        post: Self,
        result: Result<IOServiceEvent<E::Event<'a>>, IOServiceError>,
    ) -> bool where E: 'a {
        exists|selector: S, nodes: IONodesView<S::Target, E>, reply: Result<(), io::Error>|
            {
                let ready = IOServiceView { selector, nodes, ..self };
                &&& nodes.valid()
                &&& #[trigger] S::polled(self.selector, self.nodes, selector, nodes, reply)
                &&& match reply {
                    Err(source) => {
                        &&& result == Err::<IOServiceEvent<E::Event<'a>>, _>(
                            IOServiceError::Io {
                                handle: None,
                                operation: IOServiceOperation::PollSelector,
                                source,
                            },
                        )
                        &&& post == ready
                    },
                    Ok(()) => if nodes.schedule().len() == 0 {
                        &&& result == Ok::<_, IOServiceError>(
                            IOServiceEvent::<E::Event<'a>>::Idle,
                        )
                        &&& post == ready
                    } else {
                        let token = nodes.schedule().first() as SelectorToken;
                        (IOServiceView { nodes: nodes.advanced(token), ..ready }).turn_taken(
                            Handle(token),
                            asked,
                            post,
                            result,
                        )
                    },
                }
            }
    }

    /// The service after it was polled: a queued disconnection comes first, then a pending
    /// endpoint, then an active one.
    pub open spec fn polled<'a>(
        self,
        asked: Asked<E, ()>,
        post: Self,
        result: Result<IOServiceEvent<E::Event<'a>>, IOServiceError>,
    ) -> bool where E: 'a {
        if self.disconnects.len() > 0 {
            let (handle, reason) = self.disconnects.first();
            let rest = IOServiceView { disconnects: self.disconnects.drop_first(), ..self };
            match self.nodes.node(handle.0) {
                None => {
                    &&& result matches Err(e) && e.is_invalid_state(
                        handle,
                        "disconnected endpoint is not registered"@,
                    )
                    &&& post == rest
                },
                Some(node) => {
                    &&& asked.recreate matches Some(question)
                    &&& question.endpoint == node.endpoint.1
                    &&& question.reason == reason
                    &&& rest.with_endpoint(handle, question.endpoint_post).disconnected(
                        handle,
                        reason,
                        question.answer,
                        post,
                        result,
                    )
                },
            }
        } else if self.pending.len() > 0 {
            exists|checked: Self, due: Result<Option<DueEndpoint<E>>, IOServiceError>|
                {
                    &&& #[trigger] self.pending_checked(checked, due)
                    &&& match due {
                        Err(e) => {
                            &&& result == Err::<IOServiceEvent<E::Event<'a>>, _>(e)
                            &&& post == checked
                        },
                        Ok(None) => checked.active_polled(asked, post, result),
                        Ok(Some(due)) => checked.due_connected(due, asked, post, result),
                    }
                }
        } else {
            self.active_polled(asked, post, result)
        }
    }

    /// The service after the target of the endpoint `due` was created, and, unless that settled the
    /// poll, an active endpoint had its turn.
    pub open spec fn due_connected<'a>(
        self,
        due: DueEndpoint<E>,
        asked: Asked<E, ()>,
        post: Self,
        result: Result<IOServiceEvent<E::Event<'a>>, IOServiceError>,
    ) -> bool where E: 'a {
        exists|endpoint: E, target: Result<Option<S::Target>, io::Error>|
            {
                &&& #[trigger] E::created(due.endpoint, due.addr, endpoint, target)
                &&& exists|connected: Self, reply: Result<Option<Handle>, IOServiceError>|
                    {
                        &&& #[trigger] self.connected(
                            due.handle,
                            endpoint,
                            due.now_ns,
                            target,
                            connected,
                            reply,
                        )
                        &&& match reply {
                            Err(e) => {
                                &&& result == Err::<IOServiceEvent<E::Event<'a>>, _>(e)
                                &&& post == connected
                            },
                            Ok(Some(handle)) => {
                                &&& result == Ok::<_, IOServiceError>(
                                    IOServiceEvent::<E::Event<'a>>::Connected { handle },
                                )
                                &&& post == connected
                            },
                            Ok(None) => connected.active_polled(asked, post, result),
                        }
                    }
            }
    }
}

impl<
    S: Selector + Selects<<S as Selector>::Target, E>,
    E,
    TS: TimeSource,
    D: DnsResolver,
> IOServiceView<S, E, TS, D> {
    /// The service and the context after the active endpoint `handle` was polled. A failure is
    /// queued as a disconnection of the endpoint.
    pub open spec fn endpoint_polled_with<'a, C>(
        self,
        handle: Handle,
        context: C,
        post: Self,
        context_post: C,
        result: Result<IOServiceEvent<E::Event<'a>>, IOServiceError>,
    ) -> bool where C: 'a, E: EndpointWithContext<C, Target = S::Target> + 'a {
        let node = self.nodes.node(handle.0)->0;
        exists|endpoint: E, stream: S::Target, reply: Result<Option<E::Event<'a>>, io::Error>|
            {
                let polled = self.with_node(
                    handle,
                    IONode { stream, ..node.with_endpoint(endpoint) },
                );
                &&& #[trigger] E::polled(
                    node.endpoint.1,
                    node.stream,
                    context,
                    endpoint,
                    stream,
                    context_post,
                    reply,
                )
                &&& match reply {
                    Ok(Some(event)) => {
                        &&& result == Ok::<_, IOServiceError>(
                            IOServiceEvent::Data { handle, event },
                        )
                        &&& post == polled
                    },
                    Ok(None) => {
                        &&& result == Ok::<_, IOServiceError>(
                            IOServiceEvent::<E::Event<'a>>::Idle,
                        )
                        &&& post == polled
                    },
                    Err(source) => {
                        &&& result == Ok::<_, IOServiceError>(
                            IOServiceEvent::<E::Event<'a>>::Idle,
                        )
                        &&& post == IOServiceView {
                            disconnects: polled.disconnects.push(
                                (handle, DisconnectReason::IO(source)),
                            ),
                            ..polled
                        }
                    },
                }
            }
    }

    /// The service and the context after the active endpoint `handle` had its turn: it was
    /// disconnected for its age, or it was polled.
    pub open spec fn turn_taken_with<'a, C>(
        self,
        handle: Handle,
        context: C,
        asked: Asked<E, C>,
        post: Self,
        context_post: C,
        result: Result<IOServiceEvent<E::Event<'a>>, IOServiceError>,
    ) -> bool where C: 'a, E: EndpointWithContext<C, Target = S::Target> + 'a {
        match self.auto_disconnect {
            None => self.endpoint_polled_with(handle, context, post, context_post, result),
            Some(_) => exists|now_ns: u64| #[trigger]
                self.time_source.shows(now_ns) && self.turn_taken_at_with(
                    handle,
                    now_ns,
                    context,
                    asked,
                    post,
                    context_post,
                    result,
                ),
        }
    }

    /// The service and the context after the active endpoint `handle` had its turn at `now_ns`,
    /// where connections have a time to live.
    pub open spec fn turn_taken_at_with<'a, C>(
        self,
        handle: Handle,
        now_ns: u64,
        context: C,
        asked: Asked<E, C>,
        post: Self,
        context_post: C,
        result: Result<IOServiceEvent<E::Event<'a>>, IOServiceError>,
    ) -> bool where C: 'a, E: EndpointWithContext<C, Target = S::Target> + 'a {
        let node = self.nodes.node(handle.0)->0;
        if now_ns <= node.disconnect_time_ns {
            self.endpoint_polled_with(handle, context, post, context_post, result)
        } else {
            &&& asked.auto_disconnect matches Some(question)
            &&& question.endpoint == node.endpoint.1
            &&& question.context == context
            &&& if question.answer {
                let reason = DisconnectReason::AutoDisconnect(node.ttl);
                &&& asked.recreate matches Some(next)
                &&& next.endpoint == question.endpoint_post
                &&& next.context == question.context_post
                &&& next.reason == reason
                &&& context_post == next.context_post
                &&& self.with_endpoint(handle, next.endpoint_post).disconnected(
                    handle,
                    reason,
                    next.answer,
                    post,
                    result,
                )
            } else {
                exists|ttl: Duration| #[trigger]
                    self.auto_disconnect->0.supplies(ttl) && self.with_node(
                        handle,
                        IONode {
                            disconnect_time_ns: crate::service::time::time_after(
                                node.disconnect_time_ns,
                                crate::service::time::low_64_bits(ttl@),
                            ),
                            ..node.with_endpoint(question.endpoint_post)
                        },
                    ).endpoint_polled_with(
                        handle,
                        question.context_post,
                        post,
                        context_post,
                        result,
                    )
            }
        }
    }

    /// The service and the context after the selector was polled and the next active endpoint, if
    /// there is one, had its turn.
    pub open spec fn active_polled_with<'a, C>(
        self,
        context: C,
        asked: Asked<E, C>,
        post: Self,
        context_post: C,
        result: Result<IOServiceEvent<E::Event<'a>>, IOServiceError>,
    ) -> bool where C: 'a, E: EndpointWithContext<C, Target = S::Target> + 'a {
        exists|selector: S, nodes: IONodesView<S::Target, E>, reply: Result<(), io::Error>|
            {
                let ready = IOServiceView { selector, nodes, ..self };
                &&& nodes.valid()
                &&& #[trigger] S::polled(self.selector, self.nodes, selector, nodes, reply)
                &&& match reply {
                    Err(source) => {
                        &&& result == Err::<IOServiceEvent<E::Event<'a>>, _>(
                            IOServiceError::Io {
                                handle: None,
                                operation: IOServiceOperation::PollSelector,
                                source,
                            },
                        )
                        &&& post == ready
                        &&& context_post == context
                    },
                    Ok(()) => if nodes.schedule().len() == 0 {
                        &&& result == Ok::<_, IOServiceError>(
                            IOServiceEvent::<E::Event<'a>>::Idle,
                        )
                        &&& post == ready
                        &&& context_post == context
                    } else {
                        let token = nodes.schedule().first() as SelectorToken;
                        (IOServiceView {
                            nodes: nodes.advanced(token),
                            ..ready
                        }).turn_taken_with(
                            Handle(token),
                            context,
                            asked,
                            post,
                            context_post,
                            result,
                        )
                    },
                }
            }
    }

    /// The service and the context after the service was polled: a queued disconnection comes
    /// first, then a pending endpoint, then an active one.
    pub open spec fn polled_with<'a, C>(
        self,
        context: C,
        asked: Asked<E, C>,
        post: Self,
        context_post: C,
        result: Result<IOServiceEvent<E::Event<'a>>, IOServiceError>,
    ) -> bool where C: 'a, E: EndpointWithContext<C, Target = S::Target> + 'a {
        if self.disconnects.len() > 0 {
            let (handle, reason) = self.disconnects.first();
            let rest = IOServiceView { disconnects: self.disconnects.drop_first(), ..self };
            match self.nodes.node(handle.0) {
                None => {
                    &&& result matches Err(e) && e.is_invalid_state(
                        handle,
                        "disconnected endpoint is not registered"@,
                    )
                    &&& post == rest
                    &&& context_post == context
                },
                Some(node) => {
                    &&& asked.recreate matches Some(question)
                    &&& question.endpoint == node.endpoint.1
                    &&& question.context == context
                    &&& question.reason == reason
                    &&& context_post == question.context_post
                    &&& rest.with_endpoint(handle, question.endpoint_post).disconnected(
                        handle,
                        reason,
                        question.answer,
                        post,
                        result,
                    )
                },
            }
        } else if self.pending.len() > 0 {
            exists|checked: Self, due: Result<Option<DueEndpoint<E>>, IOServiceError>|
                {
                    &&& #[trigger] self.pending_checked(checked, due)
                    &&& match due {
                        Err(e) => {
                            &&& result == Err::<IOServiceEvent<E::Event<'a>>, _>(e)
                            &&& post == checked
                            &&& context_post == context
                        },
                        Ok(None) => checked.active_polled_with(
                            context,
                            asked,
                            post,
                            context_post,
                            result,
                        ),
                        Ok(Some(due)) => checked.due_connected_with(
                            due,
                            context,
                            asked,
                            post,
                            context_post,
                            result,
                        ),
                    }
                }
        } else {
            self.active_polled_with(context, asked, post, context_post, result)
        }
    }

    /// The service and the context after the target of the endpoint `due` was created, and, unless
    /// that settled the poll, an active endpoint had its turn.
    pub open spec fn due_connected_with<'a, C>(
        self,
        due: DueEndpoint<E>,
        context: C,
        asked: Asked<E, C>,
        post: Self,
        context_post: C,
        result: Result<IOServiceEvent<E::Event<'a>>, IOServiceError>,
    ) -> bool where C: 'a, E: EndpointWithContext<C, Target = S::Target> + 'a {
        exists|endpoint: E, context_mid: C, target: Result<Option<S::Target>, io::Error>|
            {
                &&& #[trigger] E::created(
                    due.endpoint,
                    due.addr,
                    context,
                    endpoint,
                    context_mid,
                    target,
                )
                &&& exists|connected: Self, reply: Result<Option<Handle>, IOServiceError>|
                    {
                        &&& #[trigger] self.connected(
                            due.handle,
                            endpoint,
                            due.now_ns,
                            target,
                            connected,
                            reply,
                        )
                        &&& match reply {
                            Err(e) => {
                                &&& result == Err::<IOServiceEvent<E::Event<'a>>, _>(e)
                                &&& post == connected
                                &&& context_post == context_mid
                            },
                            Ok(Some(handle)) => {
                                &&& result == Ok::<_, IOServiceError>(
                                    IOServiceEvent::<E::Event<'a>>::Connected { handle },
                                )
                                &&& post == connected
                                &&& context_post == context_mid
                            },
                            Ok(None) => connected.active_polled_with(
                                context_mid,
                                asked,
                                post,
                                context_post,
                                result,
                            ),
                        }
                    }
            }
    }
}

} // verus!
