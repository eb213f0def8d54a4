//! Laws of polling: what comes first, who gets the turn, what a result says about the endpoints,
//! and that none of them gets lost.

use vstd::prelude::*;

use crate::io;
use crate::service::dns::DnsResolver;
use crate::service::endpoint::{DisconnectReason, Endpoint, EndpointWithContext};
use crate::service::error::{IOServiceError, IOServiceOperation};
use crate::service::model::{Asked, DueEndpoint, IOServiceView};
use crate::service::node::{IONode, IONodesView};
use crate::service::select::{Selector, SelectorToken, Selects};
use crate::service::time::TimeSource;
use crate::service::{Handle, IOServiceEvent, PendingEndpoint, ENDPOINT_CREATION_THROTTLE_NS};
use crate::stream::ConnectionInfoProvider;

verus! {

impl<S, E, TS, D> IOServiceView<S, E, TS, D> where
    S: Selector + Selects<<S as Selector>::Target, E>,
    E: ConnectionInfoProvider,
    TS: TimeSource,
    D: DnsResolver,
 {
    /// A queued disconnection comes before anything else: the poll settles it, reports it, and
    /// tries no pending endpoint.
    pub open spec fn queue_goes_first<V>(
        self,
        post: Self,
        result: Result<IOServiceEvent<V>, IOServiceError>,
    ) -> bool {
        self.disconnects.len() > 0 ==> {
            let (handle, reason) = self.disconnects.first();
            &&& post.disconnects.len() == 0
            &&& post.next_create_ns == self.next_create_ns
            &&& match result {
                Ok(event) => {
                    &&& event == IOServiceEvent::<V>::Disconnected { handle, reason }
                    &&& post.pending.len() == self.pending.len() + 1
                    &&& post.pending.drop_last() == self.pending
                },
                Err(IOServiceError::EndpointNotRecreatable { handle: h, reason: r }) => {
                    &&& h == handle
                    &&& r == reason
                    &&& post.pending == self.pending
                },
                Err(IOServiceError::Io { handle: h, operation, source }) => {
                    &&& h == Some(handle)
                    &&& operation == IOServiceOperation::Unregister || operation
                        == IOServiceOperation::Resolve
                    &&& post.pending == self.pending
                },
                Err(IOServiceError::InvalidState { .. }) => false,
            }
        }
    }

    /// A connected endpoint was the first of the pending ones. It is active now, and no other
    /// endpoint is concerned.
    pub open spec fn connected_endpoint_is_active<V>(
        self,
        post: Self,
        result: Result<IOServiceEvent<V>, IOServiceError>,
    ) -> bool {
        result matches Ok(IOServiceEvent::Connected { handle }) ==> {
            &&& self.disconnects.len() == 0
            &&& post.disconnects.len() == 0
            &&& self.pending.len() > 0
            &&& self.pending.first().handle == handle
            &&& post.pending == self.pending.drop_first()
            &&& self.nodes.node(handle.0) is None
            &&& post.nodes.node(handle.0) is Some
            &&& forall|other: SelectorToken|
                other != handle.0 ==> #[trigger] post.nodes.node(other) == self.nodes.node(other)
        }
    }

    /// Data and idleness come from the endpoint whose turn it is among those that are active once
    /// the selector was polled. This endpoint has its next turn after all others, it is queued for
    /// disconnection if it failed, and no other endpoint is concerned.
    pub open spec fn turn_goes_to_next<V>(
        self,
        post: Self,
        result: Result<IOServiceEvent<V>, IOServiceError>,
    ) -> bool {
        result is Ok && (result->Ok_0 is Data || result->Ok_0 is Idle) ==> exists|
            nodes: IONodesView<S::Target, E>,
        | #[trigger]
            S::polled(self.selector, self.nodes, post.selector, nodes, Ok(())) && {
                &&& self.disconnects.len() == 0
                &&& nodes.valid()
                &&& nodes.schedule().len() == 0 ==> {
                    &&& result->Ok_0 is Idle
                    &&& post.nodes == nodes
                    &&& post.disconnects.len() == 0
                }
                &&& nodes.schedule().len() > 0 ==> {
                    let token = nodes.schedule().first() as SelectorToken;
                    &&& post.nodes.schedule() == nodes.schedule().drop_first().push(token as int)
                    &&& post.nodes.node(token) is Some
                    &&& forall|other: SelectorToken|
                        other != token ==> #[trigger] post.nodes.node(other) == nodes.node(other)
                    &&& result->Ok_0 matches IOServiceEvent::Data { handle, event } ==> {
                        &&& handle == Handle(token)
                        &&& post.disconnects.len() == 0
                    }
                    &&& post.disconnects.len() > 0 ==> post.disconnects[0].0 == Handle(token)
                }
            }
    }

    /// A disconnected endpoint is no longer active and waits behind all pending ones for its next
    /// connection.
    pub open spec fn disconnected_endpoint_waits_last<V>(
        self,
        post: Self,
        result: Result<IOServiceEvent<V>, IOServiceError>,
    ) -> bool {
        result matches Ok(IOServiceEvent::Disconnected { handle, reason }) ==> {
            &&& post.nodes.node(handle.0) is None
            &&& post.pending.len() > 0
            &&& post.pending.last().handle == handle
            &&& post.disconnects.len() == 0
        }
    }

    /// A disconnected endpoint that declined to be recreated is no longer active, and it is not
    /// queued again.
    pub open spec fn declined_endpoint_is_dropped<V>(
        self,
        post: Self,
        result: Result<IOServiceEvent<V>, IOServiceError>,
    ) -> bool {
        result matches Err(IOServiceError::EndpointNotRecreatable { handle, reason }) ==> {
            &&& post.nodes.node(handle.0) is None
            &&& post.disconnects.len() == 0
        }
    }

    /// A connection that did not fail is ended only if connections have a time to live, only in its
    /// turn, and only after its time. The cause names its time to live.
    pub open spec fn ended_only_when_due<V>(
        self,
        result: Result<IOServiceEvent<V>, IOServiceError>,
    ) -> bool {
        self.disconnects.len() == 0 ==> match result {
            Ok(IOServiceEvent::Disconnected { handle, reason }) => self.was_due(handle, reason),
            Err(IOServiceError::EndpointNotRecreatable { handle, reason }) => self.was_due(
                handle,
                reason,
            ),
            _ => true,
        }
    }

    /// Once the selector was polled it was the turn of the endpoint `handle`, and its time had
    /// passed.
    pub open spec fn was_due(self, handle: Handle, reason: DisconnectReason) -> bool {
        &&& self.auto_disconnect is Some
        &&& exists|selector: S, nodes: IONodesView<S::Target, E>, now_ns: u64|
            {
                &&& #[trigger] S::polled(self.selector, self.nodes, selector, nodes, Ok(()))
                &&& #[trigger] self.time_source.shows(now_ns)
                &&& nodes.schedule().len() > 0
                &&& handle.0 == nodes.schedule().first()
                &&& nodes.node(handle.0) matches Some(node)
                &&& now_ns > node.disconnect_time_ns
                &&& reason == DisconnectReason::AutoDisconnect(node.ttl)
            }
    }

    /// The time before which no pending endpoint is tried moves only when one was tried, after that
    /// time, and then to one second from now. It does whenever an endpoint was connected.
    pub open spec fn attempts_are_spaced<V>(
        self,
        post: Self,
        result: Result<IOServiceEvent<V>, IOServiceError>,
    ) -> bool {
        &&& {
            ||| post.next_create_ns == self.next_create_ns
            ||| self.paused_anew(post)
        }
        &&& result is Ok && result->Ok_0 is Connected ==> self.paused_anew(post)
    }

    /// A pending endpoint was tried, and the next one is tried after one second at the earliest.
    pub open spec fn paused_anew(self, post: Self) -> bool {
        &&& self.pending.len() > 0
        &&& exists|now_ns: u64|
            {
                &&& #[trigger] self.time_source.shows(now_ns)
                &&& now_ns > self.next_create_ns
                &&& post.next_create_ns == crate::service::time::time_after(
                    now_ns,
                    ENDPOINT_CREATION_THROTTLE_NS as nat,
                )
            }
    }

    /// Failures name the endpoint that they concern, unless the selector could not be polled. The
    /// records of the service are never at odds, but for a token that the selector issued twice or
    /// that no memory suffices for.
    pub open spec fn failure_names_endpoint<V>(
        self,
        result: Result<IOServiceEvent<V>, IOServiceError>,
    ) -> bool {
        result matches Err(error) ==> match error {
            IOServiceError::Io { handle, operation, source } => {
                &&& operation != IOServiceOperation::CreateEndpoint
                &&& handle is None <==> operation == IOServiceOperation::PollSelector
            },
            IOServiceError::EndpointNotRecreatable { .. } => true,
            IOServiceError::InvalidState { .. } => {
                &&& self.pending.len() > 0
                &&& error.is_invalid_state(
                    self.pending.first().handle,
                    if self.nodes.node(self.pending.first().handle.0) is Some {
                        "endpoint token is already active"@
                    } else {
                        "endpoint token is out of range"@
                    },
                )
                &&& !self.nodes.admits(self.pending.first().handle.0)
            },
        }
    }

    /// The settings of the service stay as they are.
    pub open spec fn settings_are_kept(self, post: Self) -> bool {
        &&& post.auto_disconnect == self.auto_disconnect
        &&& post.time_source == self.time_source
        &&& post.dns_resolver == self.dns_resolver
        &&& post.dns_query_timeout_ns == self.dns_query_timeout_ns
    }

    /// These are the active endpoints of the service, before or after the selector was polled.
    pub open spec fn reaches(self, nodes: IONodesView<S::Target, E>) -> bool {
        &&& nodes.valid()
        &&& {
            ||| nodes == self.nodes
            ||| exists|selector: S, reply: Result<(), io::Error>| #[trigger]
                S::polled(self.selector, self.nodes, selector, nodes, reply)
        }
    }

    /// At most one active endpoint is concerned, but for what the selector does: all others are as
    /// they were.
    pub open spec fn one_endpoint_at_most(self, post: Self) -> bool {
        exists|nodes: IONodesView<S::Target, E>, token: SelectorToken| #[trigger]
            self.reaches(nodes) && #[trigger] post.differs_at_most_at(nodes, token)
    }

    /// All active endpoints but that of `token` are those of `nodes`.
    pub open spec fn differs_at_most_at(
        self,
        nodes: IONodesView<S::Target, E>,
        token: SelectorToken,
    ) -> bool {
        forall|other: SelectorToken|
            other != token ==> #[trigger] self.nodes.node(other) == nodes.node(other)
    }

    /// No endpoint gets lost or doubled: after a success the same endpoints are pending or active
    /// as before, and after a failure all but the one that the failure names. A selector that
    /// cannot be polled, or that does not let an endpoint go, makes none get lost.
    pub open spec fn endpoints_are_accounted_for<V>(
        self,
        post: Self,
        result: Result<IOServiceEvent<V>, IOServiceError>,
    ) -> bool {
        exists|nodes: IONodesView<S::Target, E>| #[trigger]
            self.reaches(nodes) && {
                let before = crate::service::service_laws::pending_tokens(self.pending).add(
                    crate::service::service_laws::active_tokens(nodes),
                );
                match result {
                    Ok(_) => before == post.tokens(),
                    Err(IOServiceError::Io { handle, operation, source }) => if operation
                        == IOServiceOperation::PollSelector || operation
                        == IOServiceOperation::Unregister {
                        before == post.tokens()
                    } else {
                        handle matches Some(h) && before == post.tokens().insert(h.0 as int)
                    },
                    Err(IOServiceError::EndpointNotRecreatable { handle, reason }) => before
                        == post.tokens().insert(handle.0 as int),
                    Err(IOServiceError::InvalidState { handle, message }) => handle matches Some(h)
                        && before == post.tokens().insert(h.0 as int),
                }
            }
    }

    /// What a poll of the service promises.
    pub open spec fn keeps_promises<V>(
        self,
        post: Self,
        result: Result<IOServiceEvent<V>, IOServiceError>,
    ) -> bool {
        &&& post.valid()
        &&& self.queue_goes_first(post, result)
        &&& self.connected_endpoint_is_active(post, result)
        &&& self.turn_goes_to_next(post, result)
        &&& self.disconnected_endpoint_waits_last(post, result)
        &&& self.declined_endpoint_is_dropped(post, result)
        &&& self.ended_only_when_due(result)
        &&& self.attempts_are_spaced(post, result)
        &&& self.failure_names_endpoint(result)
        &&& self.settings_are_kept(post)
        &&& self.one_endpoint_at_most(post)
        &&& self.endpoints_are_accounted_for(post, result)
    }
}

/// A disconnected endpoint was taken out and waits behind all pending ones, or it was dropped and
/// the failure names it, or the selector failed and it stays active.
pub proof fn disconnecting_settles<S, E, TS, D, V>(
    pre: IOServiceView<S, E, TS, D>,
    handle: Handle,
    reason: DisconnectReason,
    answer: bool,
    post: IOServiceView<S, E, TS, D>,
    result: Result<IOServiceEvent<V>, IOServiceError>,
) where
    S: Selector + Selects<<S as Selector>::Target, E>,
    E: ConnectionInfoProvider,
    TS: TimeSource,
    D: DnsResolver,

    requires
        pre.nodes.valid(),
        pre.nodes.node(handle.0) is Some,
        pre.disconnected(handle, reason, answer, post, result),
    ensures
        post.nodes.valid(),
        post == (IOServiceView {
            selector: post.selector,
            nodes: post.nodes,
            pending: post.pending,
            ..pre
        }),
        forall|other: SelectorToken|
            other != handle.0 ==> #[trigger] post.nodes.node(other) == pre.nodes.node(other),
        match result {
            Ok(event) => {
                &&& event == IOServiceEvent::<V>::Disconnected { handle, reason }
                &&& answer
                &&& post.nodes.node(handle.0) is None
                &&& post.pending.len() == pre.pending.len() + 1
                &&& post.pending.drop_last() == pre.pending
                &&& post.pending.last().handle == handle
                &&& post.tokens() == pre.tokens()
            },
            Err(IOServiceError::EndpointNotRecreatable { handle: h, reason: r }) => {
                &&& h == handle
                &&& r == reason
                &&& !answer
                &&& post.nodes.node(handle.0) is None
                &&& post.pending == pre.pending
                &&& pre.tokens() == post.tokens().insert(handle.0 as int)
            },
            Err(IOServiceError::Io { handle: h, operation, source }) => {
                &&& h == Some(handle)
                &&& post.pending == pre.pending
                &&& {
                    ||| {
                        &&& operation == IOServiceOperation::Unregister
                        &&& post.nodes.node(handle.0) is Some
                        &&& post.tokens() == pre.tokens()
                    }
                    ||| {
                        &&& operation == IOServiceOperation::Resolve
                        &&& answer
                        &&& post.nodes.node(handle.0) is None
                        &&& pre.tokens() == post.tokens().insert(handle.0 as int)
                    }
                }
            },
            Err(IOServiceError::InvalidState { .. }) => false,
        },
{
    let (removed, reply) = choose|
        removed: IOServiceView<S, E, TS, D>,
        reply: Result<E, IOServiceError>,
    |
        {
            &&& #[trigger] pre.detached(handle, removed, reply)
            &&& match reply {
                Err(e) => result == Err::<IOServiceEvent<V>, _>(e) && post == removed,
                Ok(endpoint) => if answer {
                    exists|scheduling: Result<(), IOServiceError>|
                        {
                            &&& #[trigger] removed.scheduled(handle, endpoint, post, scheduling)
                            &&& result == match scheduling {
                                Ok(()) => Ok::<IOServiceEvent<V>, IOServiceError>(
                                    IOServiceEvent::Disconnected { handle, reason },
                                ),
                                Err(e) => Err(e),
                            }
                        }
                } else {
                    &&& result == Err::<IOServiceEvent<V>, _>(
                        IOServiceError::EndpointNotRecreatable { handle, reason },
                    )
                    &&& post == removed
                },
            }
        };
    crate::service::service_laws::detached_endpoint_is_gone(pre, handle, removed, reply);
    if result is Ok {
        assert(post.pending == removed.pending.push(post.pending.last()));
        assert(post.pending.drop_last() == pre.pending);
        crate::service::service_laws::queueing_adds_token(removed.pending, post.pending.last());
    }
}

/// Turning to the pending endpoints concerns no active one. It takes the first pending endpoint out
/// if its address is known, drops it and names it if there is none, and puts it behind the others
/// if the address is not known yet.
pub proof fn checking_settles<S, E, TS, D>(
    pre: IOServiceView<S, E, TS, D>,
    post: IOServiceView<S, E, TS, D>,
    result: Result<Option<DueEndpoint<E>>, IOServiceError>,
) where S: Selector + Selects<<S as Selector>::Target, E>, TS: TimeSource, D: DnsResolver
    requires
        pre.pending.len() > 0,
        pre.pending_checked(post, result),
    ensures
        post == (IOServiceView {
            pending: post.pending,
            next_create_ns: post.next_create_ns,
            ..pre
        }),
        match result {
            Ok(None) => {
                &&& crate::service::service_laws::pending_tokens(post.pending)
                    == crate::service::service_laws::pending_tokens(pre.pending)
                &&& {
                    ||| post.next_create_ns == pre.next_create_ns
                    ||| exists|now_ns: u64|
                        {
                            &&& #[trigger] pre.time_source.shows(now_ns)
                            &&& now_ns > pre.next_create_ns
                            &&& post.next_create_ns == crate::service::time::time_after(
                                now_ns,
                                ENDPOINT_CREATION_THROTTLE_NS as nat,
                            )
                        }
                }
            },
            Ok(Some(due)) => {
                &&& due.handle == pre.pending.first().handle
                &&& pre.time_source.shows(due.now_ns)
                &&& due.now_ns > pre.next_create_ns
                &&& post.pending == pre.pending.drop_first()
                &&& post.next_create_ns == pre.next_create_ns
            },
            Err(e) => {
                &&& e matches IOServiceError::Io { handle, operation, source }
                &&& handle == Some(pre.pending.first().handle)
                &&& operation == IOServiceOperation::Resolve
                &&& post.pending == pre.pending.drop_first()
                &&& post.next_create_ns == pre.next_create_ns
            },
        },
        crate::service::service_laws::pending_tokens(pre.pending)
            == crate::service::service_laws::pending_tokens(pre.pending.drop_first()).insert(
            pre.pending.first().handle.0 as int,
        ),
{
    crate::service::service_laws::unqueueing_takes_token(pre.pending, 0);
    assert(pre.pending.remove(0) == pre.pending.drop_first());
    assert forall|last: PendingEndpoint<D::Query, E>|
        last.handle == pre.pending.first().handle implies (
    crate::service::service_laws::pending_tokens(
        #[trigger] pre.pending.drop_first().push(last),
    ) == crate::service::service_laws::pending_tokens(pre.pending)) by {
        crate::service::service_laws::queueing_adds_token(pre.pending.drop_first(), last);
    }
}

/// An endpoint that created a target becomes active, or it is dropped and the failure names it. One
/// that created none waits behind all pending ones.
pub proof fn connecting_settles<S, E, TS, D>(
    pre: IOServiceView<S, E, TS, D>,
    handle: Handle,
    endpoint: E,
    now_ns: u64,
    target: Result<Option<S::Target>, io::Error>,
    post: IOServiceView<S, E, TS, D>,
    result: Result<Option<Handle>, IOServiceError>,
) where
    S: Selector + Selects<<S as Selector>::Target, E>,
    E: ConnectionInfoProvider,
    TS: TimeSource,
    D: DnsResolver,

    requires
        pre.nodes.valid(),
        pre.connected(handle, endpoint, now_ns, target, post, result),
    ensures
        post.nodes.valid(),
        post == (IOServiceView {
            selector: post.selector,
            nodes: post.nodes,
            pending: post.pending,
            next_create_ns: post.next_create_ns,
            ..pre
        }),
        match result {
            Ok(None) => {
                &&& post.selector == pre.selector
                &&& post.nodes == pre.nodes
                &&& crate::service::service_laws::pending_tokens(post.pending)
                    == crate::service::service_laws::pending_tokens(pre.pending).insert(
                    handle.0 as int,
                )
                &&& post.next_create_ns == crate::service::time::time_after(
                    now_ns,
                    ENDPOINT_CREATION_THROTTLE_NS as nat,
                )
            },
            Ok(Some(h)) => {
                &&& h == handle
                &&& pre.nodes.admits(handle.0)
                &&& post.nodes.node(handle.0) is Some
                &&& forall|other: SelectorToken|
                    other != handle.0 ==> #[trigger] post.nodes.node(other) == pre.nodes.node(other)
                &&& post.pending == pre.pending
                &&& post.tokens() == pre.tokens().insert(handle.0 as int)
                &&& post.next_create_ns == crate::service::time::time_after(
                    now_ns,
                    ENDPOINT_CREATION_THROTTLE_NS as nat,
                )
            },
            Err(e) => {
                &&& post.nodes == pre.nodes
                &&& post.pending == pre.pending
                &&& post.next_create_ns == pre.next_create_ns
                &&& match e {
                    IOServiceError::Io { handle: h, operation, source } => {
                        &&& h == Some(handle)
                        &&& operation == IOServiceOperation::CreateTarget || operation
                            == IOServiceOperation::Resolve || operation
                            == IOServiceOperation::Register
                    },
                    IOServiceError::EndpointNotRecreatable { .. } => false,
                    IOServiceError::InvalidState { .. } => {
                        &&& e.is_invalid_state(
                            handle,
                            if pre.nodes.node(handle.0) is Some {
                                "endpoint token is already active"@
                            } else {
                                "endpoint token is out of range"@
                            },
                        )
                        &&& !pre.nodes.admits(handle.0)
                    },
                }
            },
        },
{
    assert forall|last: PendingEndpoint<D::Query, E>|
        crate::service::service_laws::pending_tokens(#[trigger] pre.pending.push(last))
            == crate::service::service_laws::pending_tokens(pre.pending).insert(
            last.handle.0 as int,
        ) by {
        crate::service::service_laws::queueing_adds_token(pre.pending, last);
    }
    assert forall|node: IONode<S::Target, E>| pre.nodes.admits(handle.0) implies ({
        let nodes = #[trigger] pre.nodes.inserted(handle.0, node);
        &&& nodes.valid()
        &&& nodes.node(handle.0) is Some
        &&& crate::service::service_laws::active_tokens(nodes)
            == crate::service::service_laws::active_tokens(pre.nodes).insert(handle.0 as int)
        &&& forall|other: SelectorToken|
            other != handle.0 ==> #[trigger] nodes.node(other) == pre.nodes.node(other)
    }) by {
        crate::service::storage_laws::storage_stays_valid(pre.nodes, handle.0, node);
        crate::service::storage_laws::inserted_node_is_found(pre.nodes, handle.0, node);
        crate::service::service_laws::inserting_adds_token(pre.nodes, handle.0, node);
    }
}

/// Polling an active endpoint concerns no other one.
proof fn turn_settles<S, E, TS, D, V>(
    pre: IOServiceView<S, E, TS, D>,
    handle: Handle,
    post: IOServiceView<S, E, TS, D>,
    result: Result<IOServiceEvent<V>, IOServiceError>,
) where
    S: Selector + Selects<<S as Selector>::Target, E>,
    E: ConnectionInfoProvider,
    TS: TimeSource,
    D: DnsResolver,

    requires
        pre.nodes.valid(),
        pre.nodes.node(handle.0) is Some,
        pre.disconnects.len() == 0,
        pre.endpoint_outcome(handle, post, result),
    ensures
        post.valid(),
        post == (IOServiceView { nodes: post.nodes, disconnects: post.disconnects, ..pre }),
        post.nodes.schedule() == pre.nodes.schedule(),
        post.nodes.node(handle.0) is Some,
        forall|other: SelectorToken|
            other != handle.0 ==> #[trigger] post.nodes.node(other) == pre.nodes.node(other),
        post.disconnects.len() > 0 ==> post.disconnects[0].0 == handle,
        post.tokens() == pre.tokens(),
        match result {
            Ok(IOServiceEvent::Data { handle: h, event }) => {
                &&& h == handle
                &&& post.disconnects.len() == 0
            },
            Ok(IOServiceEvent::Idle) => true,
            _ => false,
        },
{
    crate::service::slots::replacing_keeps_taken(pre.nodes.slots, handle.0 as int);
    assert forall|node: IONode<S::Target, E>| #[trigger]
        pre.nodes.with_node(handle.0, node).valid() by {
        crate::service::storage_laws::storage_stays_valid(pre.nodes, handle.0, node);
    }
}

/// Polling the selector and then the next active endpoint keeps the promises of a poll.
proof fn active_poll_keeps_promises<S, E, TS, D, V>(
    pre: IOServiceView<S, E, TS, D>,
    post: IOServiceView<S, E, TS, D>,
    result: Result<IOServiceEvent<V>, IOServiceError>,
) where
    S: Selector + Selects<<S as Selector>::Target, E>,
    E: ConnectionInfoProvider,
    TS: TimeSource,
    D: DnsResolver,

    requires
        pre.disconnects.len() == 0,
        pre.active_outcome(post, result),
    ensures
        pre.keeps_promises(post, result),
        post.next_create_ns == pre.next_create_ns,
        !(result is Ok && result->Ok_0 is Connected),
        !(result is Err && result->Err_0 is InvalidState),
{
    let (selector, nodes, reply) = choose|
        selector: S,
        nodes: IONodesView<S::Target, E>,
        reply: Result<(), io::Error>,
    |
        {
            let ready = IOServiceView { selector, nodes, ..pre };
            &&& nodes.valid()
            &&& #[trigger] S::polled(pre.selector, pre.nodes, selector, nodes, reply)
            &&& match reply {
                Err(source) => {
                    &&& result == Err::<IOServiceEvent<V>, _>(
                        IOServiceError::Io {
                            handle: None,
                            operation: IOServiceOperation::PollSelector,
                            source,
                        },
                    )
                    &&& post == ready
                },
                Ok(()) => if nodes.schedule().len() == 0 {
                    &&& result == Ok::<_, IOServiceError>(IOServiceEvent::<V>::Idle)
                    &&& post == ready
                } else {
                    let token = nodes.schedule().first() as SelectorToken;
                    (IOServiceView { nodes: nodes.advanced(token), ..ready }).turn_outcome(
                        Handle(token),
                        post,
                        result,
                    )
                },
            }
        };
    assert(pre.reaches(nodes));
    crate::service::storage_laws::schedule_names_each_active_once(nodes);
    if let Ok(unit) = reply {
        assert(unit == ());
        assert(S::polled(pre.selector, pre.nodes, selector, nodes, Ok(())));
    }
    if reply is Ok && nodes.schedule().len() > 0 {
        let token = nodes.schedule().first() as SelectorToken;
        let handle = Handle(token);
        crate::service::storage_laws::advancing_rotates(nodes);
        let turning = IOServiceView { selector, nodes: nodes.advanced(token), ..pre };
        assert(forall|other: SelectorToken| #[trigger]
            turning.nodes.node(other) == nodes.node(other));
        if turning.endpoint_outcome(handle, post, result) {
            turn_settles(turning, handle, post, result);
            assert(token as int == nodes.schedule().first());
            assert(S::polled(pre.selector, pre.nodes, post.selector, nodes, Ok(())));
        } else {
            let node = nodes.node(token)->0;
            let reason = DisconnectReason::AutoDisconnect(node.ttl);
            let (endpoint, answer) = choose|endpoint: E, answer: bool| #[trigger]
                turning.with_endpoint(handle, endpoint).disconnected(
                    handle,
                    reason,
                    answer,
                    post,
                    result,
                );
            let asked = turning.with_endpoint(handle, endpoint);
            crate::service::storage_laws::storage_stays_valid(
                turning.nodes,
                token,
                node.with_endpoint(endpoint),
            );
            crate::service::slots::replacing_keeps_taken(turning.nodes.slots, token as int);
            disconnecting_settles(asked, handle, reason, answer, post, result);
        }
        assert(post.differs_at_most_at(nodes, token));
    } else {
        assert(post.differs_at_most_at(nodes, 0));
    }
}

/// What was done to the pending endpoints before does not break the promises of a poll.
proof fn promises_carry_over<S, E, TS, D, V>(
    pre: IOServiceView<S, E, TS, D>,
    mid: IOServiceView<S, E, TS, D>,
    post: IOServiceView<S, E, TS, D>,
    result: Result<IOServiceEvent<V>, IOServiceError>,
) where
    S: Selector + Selects<<S as Selector>::Target, E>,
    E: ConnectionInfoProvider,
    TS: TimeSource,
    D: DnsResolver,

    requires
        pre.disconnects.len() == 0,
        mid == (IOServiceView {
            pending: mid.pending,
            next_create_ns: mid.next_create_ns,
            ..pre
        }),
        crate::service::service_laws::pending_tokens(mid.pending)
            == crate::service::service_laws::pending_tokens(pre.pending),
        mid.next_create_ns == pre.next_create_ns || pre.paused_anew(mid),
        mid.keeps_promises(post, result),
        post.next_create_ns == mid.next_create_ns,
        !(result is Ok && result->Ok_0 is Connected),
        !(result is Err && result->Err_0 is InvalidState),
    ensures
        pre.keeps_promises(post, result),
{
    let nodes = choose|nodes: IONodesView<S::Target, E>| #[trigger]
        mid.reaches(nodes) && {
            let before = crate::service::service_laws::pending_tokens(mid.pending).add(
                crate::service::service_laws::active_tokens(nodes),
            );
            match result {
                Ok(_) => before == post.tokens(),
                Err(IOServiceError::Io { handle, operation, source }) => if operation
                    == IOServiceOperation::PollSelector || operation
                    == IOServiceOperation::Unregister {
                    before == post.tokens()
                } else {
                    handle matches Some(h) && before == post.tokens().insert(h.0 as int)
                },
                Err(IOServiceError::EndpointNotRecreatable { handle, reason }) => before
                    == post.tokens().insert(handle.0 as int),
                Err(IOServiceError::InvalidState { handle, message }) => handle matches Some(h)
                    && before == post.tokens().insert(h.0 as int),
            }
        };
    assert(pre.reaches(nodes));
    let (ready, token) = choose|ready: IONodesView<S::Target, E>, token: SelectorToken| #[trigger]
        mid.reaches(ready) && #[trigger] post.differs_at_most_at(ready, token);
    assert(pre.reaches(ready));
}

/// Whatever the endpoints do, a poll keeps its promises.
pub proof fn outcome_keeps_promises<S, E, TS, D, V>(
    pre: IOServiceView<S, E, TS, D>,
    post: IOServiceView<S, E, TS, D>,
    result: Result<IOServiceEvent<V>, IOServiceError>,
) where
    S: Selector + Selects<<S as Selector>::Target, E>,
    E: ConnectionInfoProvider,
    TS: TimeSource,
    D: DnsResolver,

    requires
        pre.valid(),
        pre.poll_outcome(post, result),
    ensures
        pre.keeps_promises(post, result),
{
    assert(pre.reaches(pre.nodes));
    if pre.disconnects.len() > 0 {
        let (handle, reason) = pre.disconnects.first();
        assert(pre.nodes.node(pre.disconnects[0].0.0) is Some);
        let rest = IOServiceView { disconnects: pre.disconnects.drop_first(), ..pre };
        let (endpoint, answer) = choose|endpoint: E, answer: bool| #[trigger]
            rest.with_endpoint(handle, endpoint).disconnected(
                handle,
                reason,
                answer,
                post,
                result,
            );
        let node = pre.nodes.node(handle.0)->0;
        crate::service::storage_laws::storage_stays_valid(
            pre.nodes,
            handle.0,
            node.with_endpoint(endpoint),
        );
        crate::service::slots::replacing_keeps_taken(pre.nodes.slots, handle.0 as int);
        disconnecting_settles(
            rest.with_endpoint(handle, endpoint),
            handle,
            reason,
            answer,
            post,
            result,
        );
        assert(post.differs_at_most_at(pre.nodes, handle.0));
    } else if pre.pending.len() > 0 {
        pending_poll_keeps_promises(pre, post, result);
    } else {
        active_poll_keeps_promises(pre, post, result);
    }
}

/// A poll that turns to the pending endpoints keeps its promises.
proof fn pending_poll_keeps_promises<S, E, TS, D, V>(
    pre: IOServiceView<S, E, TS, D>,
    post: IOServiceView<S, E, TS, D>,
    result: Result<IOServiceEvent<V>, IOServiceError>,
) where
    S: Selector + Selects<<S as Selector>::Target, E>,
    E: ConnectionInfoProvider,
    TS: TimeSource,
    D: DnsResolver,

    requires
        pre.valid(),
        pre.disconnects.len() == 0,
        pre.pending.len() > 0,
        pre.poll_outcome(post, result),
    ensures
        pre.keeps_promises(post, result),
{
    assert(pre.reaches(pre.nodes));
    let (checked, check) = choose|
        checked: IOServiceView<S, E, TS, D>,
        check: Result<Option<DueEndpoint<E>>, IOServiceError>,
    |
        {
            &&& #[trigger] pre.pending_checked(checked, check)
            &&& match check {
                Err(e) => result == Err::<IOServiceEvent<V>, _>(e) && post == checked,
                Ok(None) => checked.active_outcome(post, result),
                Ok(Some(due)) => exists|
                    endpoint: E,
                    target: Result<Option<S::Target>, io::Error>,
                    connected: IOServiceView<S, E, TS, D>,
                    reply: Result<Option<Handle>, IOServiceError>,
                |
                    {
                        &&& #[trigger] checked.connected(
                            due.handle,
                            endpoint,
                            due.now_ns,
                            target,
                            connected,
                            reply,
                        )
                        &&& match reply {
                            Err(e) => {
                                &&& result == Err::<IOServiceEvent<V>, _>(e)
                                &&& post == connected
                            },
                            Ok(Some(handle)) => {
                                &&& result == Ok::<_, IOServiceError>(
                                    IOServiceEvent::<V>::Connected { handle },
                                )
                                &&& post == connected
                            },
                            Ok(None) => connected.active_outcome(post, result),
                        }
                    },
            }
        };
    checking_settles(pre, checked, check);
    let first = pre.pending.first().handle.0 as int;
    match check {
        Err(e) => {
            assert(pre.tokens() == post.tokens().insert(first));
            assert(post.differs_at_most_at(pre.nodes, 0));
        },
        Ok(None) => {
            active_poll_keeps_promises(checked, post, result);
            promises_carry_over(pre, checked, post, result);
        },
        Ok(Some(due)) => {
            let (endpoint, target, connected, reply) = choose|
                endpoint: E,
                target: Result<Option<S::Target>, io::Error>,
                connected: IOServiceView<S, E, TS, D>,
                reply: Result<Option<Handle>, IOServiceError>,
            |
                {
                    &&& #[trigger] checked.connected(
                        due.handle,
                        endpoint,
                        due.now_ns,
                        target,
                        connected,
                        reply,
                    )
                    &&& match reply {
                        Err(e) => {
                            &&& result == Err::<IOServiceEvent<V>, _>(e)
                            &&& post == connected
                        },
                        Ok(Some(handle)) => {
                            &&& result == Ok::<_, IOServiceError>(
                                IOServiceEvent::<V>::Connected { handle },
                            )
                            &&& post == connected
                        },
                        Ok(None) => connected.active_outcome(post, result),
                    }
                };
            connecting_settles(
                checked,
                due.handle,
                endpoint,
                due.now_ns,
                target,
                connected,
                reply,
            );
            assert(pre.tokens() == checked.tokens().insert(first));
            if reply is Ok && reply->Ok_0 is None {
                active_poll_keeps_promises(connected, post, result);
                promises_carry_over(pre, connected, post, result);
            } else {
                assert(post.differs_at_most_at(pre.nodes, due.handle.0));
            }
        },
    }
}

/// A poll keeps its promises.
pub proof fn poll_keeps_promises<'a, S, E, TS, D>(
    pre: IOServiceView<S, E, TS, D>,
    asked: Asked<E, ()>,
    post: IOServiceView<S, E, TS, D>,
    result: Result<IOServiceEvent<E::Event<'a>>, IOServiceError>,
) where
    S: Selector + Selects<<S as Selector>::Target, E>,
    E: Endpoint<Target = S::Target> + 'a,
    TS: TimeSource,
    D: DnsResolver,

    requires
        pre.valid(),
        pre.polled(asked, post, result),
    ensures
        pre.keeps_promises(post, result),
{
    crate::service::outcome::poll_has_outcome(pre, asked, post, result);
    outcome_keeps_promises(pre, post, result);
}

/// A poll that exposes a context keeps its promises.
pub proof fn poll_with_context_keeps_promises<'a, S, E, C, TS, D>(
    pre: IOServiceView<S, E, TS, D>,
    context: C,
    asked: Asked<E, C>,
    post: IOServiceView<S, E, TS, D>,
    context_post: C,
    result: Result<IOServiceEvent<E::Event<'a>>, IOServiceError>,
) where
    S: Selector + Selects<<S as Selector>::Target, E>,
    C: 'a,
    E: EndpointWithContext<C, Target = S::Target> + 'a,
    TS: TimeSource,
    D: DnsResolver,

    requires
        pre.valid(),
        pre.polled_with(context, asked, post, context_post, result),
    ensures
        pre.keeps_promises(post, result),
{
    crate::service::outcome::poll_with_context_has_outcome(
        pre,
        context,
        asked,
        post,
        context_post,
        result,
    );
    outcome_keeps_promises(pre, post, result);
}

/// Active endpoints are polled in persistent round-robin order: as long as polls give nothing but
/// data and idleness and the selector leaves the active endpoints where they are, poll after poll
/// goes through the schedule from its start to its end and over again.
pub proof fn polls_go_round<S, E, TS, D, V>(
    services: Seq<IOServiceView<S, E, TS, D>>,
    results: Seq<Result<IOServiceEvent<V>, IOServiceError>>,
    polls: nat,
) where
    S: Selector + Selects<<S as Selector>::Target, E>,
    E: ConnectionInfoProvider,
    TS: TimeSource,
    D: DnsResolver,

    requires
        services.len() == results.len() + 1,
        polls <= results.len(),
        services[0].valid(),
        services[0].nodes.schedule().len() > 0,
        forall|k: int|
            0 <= k < results.len() ==> (#[trigger] services[k]).keeps_promises(
                services[k + 1],
                results[k],
            ),
        forall|k: int|
            0 <= k < results.len() ==> (#[trigger] results[k]) is Ok && (results[k]->Ok_0 is Data
                || results[k]->Ok_0 is Idle),
        forall|k: int, selector: S, nodes: IONodesView<S::Target, E>|
            0 <= k < results.len() && #[trigger] S::polled(
                services[k].selector,
                services[k].nodes,
                selector,
                nodes,
                Ok(()),
            ) ==> nodes.schedule() == services[k].nodes.schedule(),
    ensures
        services[polls as int].nodes.schedule().len() == services[0].nodes.schedule().len(),
        forall|j: int|
            0 <= j < services[0].nodes.schedule().len() ==> {
                let len = services[0].nodes.schedule().len() as int;
                #[trigger] services[polls as int].nodes.schedule()[j]
                    == services[0].nodes.schedule()[(polls + j) % len]
            },
        polls < results.len() ==> (results[polls as int]->Ok_0 matches IOServiceEvent::Data {
            handle,
            event,
        } ==> handle.0 == services[0].nodes.schedule()[polls as int
            % services[0].nodes.schedule().len() as int]),
{
    let schedules = Seq::new(services.len(), |k: int| services[k].nodes.schedule());
    assert forall|k: int| 0 <= k < results.len() && (#[trigger] schedules[k]).len() > 0 implies ({
        &&& schedules[k + 1] == schedules[k].drop_first().push(schedules[k].first())
        &&& results[k]->Ok_0 matches IOServiceEvent::Data { handle, event } ==> handle.0
            == schedules[k].first()
    }) by {
        let nodes = turn_of(services[k], services[k + 1], results[k]);
        assert(nodes.schedule() == services[k].nodes.schedule());
    }
    crate::service::storage_laws::rotations_go_round(schedules, polls);
    let at = polls as int;
    assert(schedules[at] == services[at].nodes.schedule());
    assert(schedules[0] == services[0].nodes.schedule());
    assert(schedules[at][0] == schedules[0][(at + 0) % schedules[0].len() as int]);
}

/// The active endpoints once the selector was polled, where a poll gave data or idleness.
proof fn turn_of<S, E, TS, D, V>(
    pre: IOServiceView<S, E, TS, D>,
    post: IOServiceView<S, E, TS, D>,
    result: Result<IOServiceEvent<V>, IOServiceError>,
) -> (nodes: IONodesView<S::Target, E>) where
    S: Selector + Selects<<S as Selector>::Target, E>,
    E: ConnectionInfoProvider,
    TS: TimeSource,
    D: DnsResolver,

    requires
        pre.keeps_promises(post, result),
        result is Ok,
        result->Ok_0 is Data || result->Ok_0 is Idle,
    ensures
        S::polled(pre.selector, pre.nodes, post.selector, nodes, Ok(())),
        nodes.schedule().len() > 0 ==> {
            &&& post.nodes.schedule() == nodes.schedule().drop_first().push(
                nodes.schedule().first(),
            )
            &&& result->Ok_0 matches IOServiceEvent::Data { handle, event } ==> handle.0
                == nodes.schedule().first()
        },
{
    let nodes = choose|nodes: IONodesView<S::Target, E>| #[trigger]
        S::polled(pre.selector, pre.nodes, post.selector, nodes, Ok(())) && {
            &&& pre.disconnects.len() == 0
            &&& nodes.valid()
            &&& nodes.schedule().len() == 0 ==> {
                &&& result->Ok_0 is Idle
                &&& post.nodes == nodes
                &&& post.disconnects.len() == 0
            }
            &&& nodes.schedule().len() > 0 ==> {
                let token = nodes.schedule().first() as SelectorToken;
                &&& post.nodes.schedule() == nodes.schedule().drop_first().push(token as int)
                &&& post.nodes.node(token) is Some
                &&& forall|other: SelectorToken|
                    other != token ==> #[trigger] post.nodes.node(other) == nodes.node(other)
                &&& result->Ok_0 matches IOServiceEvent::Data { handle, event } ==> {
                    &&& handle == Handle(token)
                    &&& post.disconnects.len() == 0
                }
                &&& post.disconnects.len() > 0 ==> post.disconnects[0].0 == Handle(token)
            }
        };
    crate::service::storage_laws::schedule_names_each_active_once(nodes);
    nodes
}

/// Within one second after a pending endpoint was tried no other one is.
pub proof fn pause_holds_attempts_back<S, E, TS, D>(
    service: IOServiceView<S, E, TS, D>,
    tried_ns: u64,
    now_ns: u64,
    post: IOServiceView<S, E, TS, D>,
    result: Result<Option<DueEndpoint<E>>, IOServiceError>,
) where S: Selector + Selects<<S as Selector>::Target, E>, TS: TimeSource, D: DnsResolver
    requires
        service.next_create_ns == crate::service::time::time_after(
            tried_ns,
            ENDPOINT_CREATION_THROTTLE_NS as nat,
        ),
        now_ns <= tried_ns + ENDPOINT_CREATION_THROTTLE_NS,
        service.pending_checked_at(now_ns, post, result),
    ensures
        result == Ok::<Option<DueEndpoint<E>>, IOServiceError>(None),
        post == service,
{
}

/// Attempts are more than one second apart: after an attempt at `tried_ns` that did not fail,
/// whether the endpoint connected, declined or has no address yet, nothing is tried up to one
/// second later, whatever was done to the service in between that does not try a pending endpoint.
pub proof fn attempts_are_a_second_apart<S, E, TS, D>(
    pre: IOServiceView<S, E, TS, D>,
    tried_ns: u64,
    checked: IOServiceView<S, E, TS, D>,
    due: Option<DueEndpoint<E>>,
    endpoint: E,
    target: Result<Option<S::Target>, io::Error>,
    tried: IOServiceView<S, E, TS, D>,
    connection: Option<Handle>,
    later: IOServiceView<S, E, TS, D>,
    now_ns: u64,
    post: IOServiceView<S, E, TS, D>,
    result: Result<Option<DueEndpoint<E>>, IOServiceError>,
) where
    S: Selector + Selects<<S as Selector>::Target, E>,
    E: ConnectionInfoProvider,
    TS: TimeSource,
    D: DnsResolver,

    requires
        tried_ns > pre.next_create_ns,
        pre.pending_checked_at(tried_ns, checked, Ok(due)),
        match due {
            Some(next) => checked.connected(
                next.handle,
                endpoint,
                next.now_ns,
                target,
                tried,
                Ok(connection),
            ),
            None => tried == checked,
        },
        later.next_create_ns == tried.next_create_ns,
        now_ns <= tried_ns + ENDPOINT_CREATION_THROTTLE_NS,
        later.pending_checked_at(now_ns, post, result),
    ensures
        result == Ok::<Option<DueEndpoint<E>>, IOServiceError>(None),
        post == later,
{
    pause_holds_attempts_back(later, tried_ns, now_ns, post, result);
}

/// While the pause after an attempt lasts, a poll that finds no queued disconnection turns to the
/// active endpoints at once: it connects none, and the pending ones stay as they are but for one
/// that was ended for its age and now waits behind them.
pub proof fn paused_poll_tries_nothing<S, E, TS, D, V>(
    pre: IOServiceView<S, E, TS, D>,
    post: IOServiceView<S, E, TS, D>,
    result: Result<IOServiceEvent<V>, IOServiceError>,
) where
    S: Selector + Selects<<S as Selector>::Target, E>,
    E: ConnectionInfoProvider,
    TS: TimeSource,
    D: DnsResolver,

    requires
        pre.disconnects.len() == 0,
        forall|now_ns: u64| #[trigger]
            pre.time_source.shows(now_ns) ==> now_ns <= pre.next_create_ns,
        pre.poll_outcome(post, result),
    ensures
        pre.active_outcome(post, result),
        !(result is Ok && result->Ok_0 is Connected),
        post.next_create_ns == pre.next_create_ns,
        if result is Ok && result->Ok_0 is Disconnected {
            post.pending.len() == pre.pending.len() + 1 && post.pending.drop_last() == pre.pending
        } else {
            post.pending == pre.pending
        },
{
    if pre.pending.len() > 0 {
        assert forall|
            checked: IOServiceView<S, E, TS, D>,
            due: Result<Option<DueEndpoint<E>>, IOServiceError>,
        | #[trigger]
            pre.pending_checked(checked, due) implies checked == pre && due == Ok::<
            Option<DueEndpoint<E>>,
            IOServiceError,
        >(None) by {}
    }
    active_poll_keeps_promises(pre, post, result);
    active_poll_tries_nothing(pre, post, result);
}

/// Polling the active endpoints leaves the pending ones as they are, but for one that was ended for
/// its age and now waits behind them.
proof fn active_poll_tries_nothing<S, E, TS, D, V>(
    pre: IOServiceView<S, E, TS, D>,
    post: IOServiceView<S, E, TS, D>,
    result: Result<IOServiceEvent<V>, IOServiceError>,
) where
    S: Selector + Selects<<S as Selector>::Target, E>,
    E: ConnectionInfoProvider,
    TS: TimeSource,
    D: DnsResolver,

    requires
        pre.active_outcome(post, result),
    ensures
        if result is Ok && result->Ok_0 is Disconnected {
            post.pending.len() == pre.pending.len() + 1 && post.pending.drop_last() == pre.pending
        } else {
            post.pending == pre.pending
        },
{
    assert forall|nodes: IONodesView<S::Target, E>|
        nodes.valid() && (#[trigger] nodes.schedule()).len() > 0 implies ({
        let token = nodes.schedule().first() as SelectorToken;
        nodes.advanced(token).valid() && nodes.advanced(token).node(token) is Some
    }) by {
        crate::service::storage_laws::advancing_rotates(nodes);
    }
    assert forall|
        turning: IOServiceView<S, E, TS, D>,
        handle: Handle,
        endpoint: E,
        reason: DisconnectReason,
        answer: bool,
    | #[trigger]
        turning.with_endpoint(handle, endpoint).disconnected(handle, reason, answer, post, result)
            && turning.nodes.valid() && turning.nodes.node(handle.0) is Some implies ({
        if result is Ok && result->Ok_0 is Disconnected {
            post.pending.len() == turning.pending.len() + 1 && post.pending.drop_last()
                == turning.pending
        } else {
            post.pending == turning.pending
        }
    }) by {
        let node = turning.nodes.node(handle.0)->0.with_endpoint(endpoint);
        crate::service::storage_laws::storage_stays_valid(turning.nodes, handle.0, node);
        crate::service::slots::replacing_keeps_taken(turning.nodes.slots, handle.0 as int);
        disconnecting_settles(
            turning.with_endpoint(handle, endpoint),
            handle,
            reason,
            answer,
            post,
            result,
        );
    }
}

/// The failure of an endpoint that was deregistered before it was reported is forgotten: if the
/// next poll reports a disconnection under the same handle, it is for the age of a connection.
pub proof fn deregistered_failure_is_forgotten<S, E, TS, D, V>(
    pre: IOServiceView<S, E, TS, D>,
    handle: Handle,
    mid: IOServiceView<S, E, TS, D>,
    removal: Result<Option<E>, IOServiceError>,
    post: IOServiceView<S, E, TS, D>,
    result: Result<IOServiceEvent<V>, IOServiceError>,
) where
    S: Selector + Selects<<S as Selector>::Target, E>,
    E: ConnectionInfoProvider,
    TS: TimeSource,
    D: DnsResolver,

    requires
        pre.valid(),
        pre.deregistered(handle, mid, removal),
        mid.keeps_promises(post, result),
    ensures
        match result {
            Ok(IOServiceEvent::Disconnected { handle: h, reason }) => h == handle
                ==> reason is AutoDisconnect,
            Err(IOServiceError::EndpointNotRecreatable { handle: h, reason }) => h == handle
                ==> reason is AutoDisconnect,
            _ => true,
        },
{
    crate::service::service_laws::deregistered_endpoint_is_gone(pre, handle, mid, removal);
    if mid.disconnects.len() > 0 {
        assert(mid.disconnects[0].0 != handle);
    }
}

/// A connection without a time to live is never due to be ended. One with a time to live is due
/// once it has passed, of which the low 64 bits in nanoseconds count.
pub proof fn due_after_ttl<S, E>(
    node: IONode<S, E>,
    stream: S,
    handle: Handle,
    endpoint: E,
    ttl: Option<crate::service::time::Duration>,
    active_ns: u64,
    now_ns: u64,
)
    requires
        node.made_at(stream, handle, endpoint, ttl, active_ns),
    ensures
        now_ns > node.disconnect_time_ns <==> (ttl matches Some(span) && now_ns > active_ns
            + crate::service::time::low_64_bits(span@)),
{
}

} // verus!
