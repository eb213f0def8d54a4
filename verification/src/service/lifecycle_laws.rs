//! Laws of the steps in the life of an endpoint, over what the resolver, the selector and the clock
//! answer: what is asked for, what is made of each answer, and where the endpoint is afterwards.

use vstd::prelude::*;

use crate::io;
use crate::net::SocketAddr;
use crate::service::dns::{DnsQuery, DnsResolver};
use crate::service::endpoint::DisconnectReason;
use crate::service::error::{IOServiceError, IOServiceOperation};
use crate::service::model::{DueEndpoint, IOServiceView};
use crate::service::node::IONode;
use crate::service::select::{Selector, SelectorToken, Selects};
use crate::service::time::{Duration, TimeSource};
use crate::service::{Handle, IOServiceEvent, PendingEndpoint};
use crate::stream::{ConnectionInfoProvider, ConnectionInfoView};

verus! {

/// An endpoint that is put to the pending ones comes last, with a fresh query that the resolver
/// issued for the host and the port that the endpoint provides. If the resolver fails, the endpoint
/// is dropped and the failure is passed on.
pub proof fn waiting_endpoint_has_its_query<S, E, TS, D>(
    pre: IOServiceView<S, E, TS, D>,
    handle: Handle,
    endpoint: E,
    post: IOServiceView<S, E, TS, D>,
    result: Result<(), IOServiceError>,
) where S: Selector, E: ConnectionInfoProvider, TS: TimeSource, D: DnsResolver
    requires
        pre.scheduled(handle, endpoint, post, result),
    ensures
        post == (IOServiceView { pending: post.pending, ..pre }),
        exists|info: ConnectionInfoView, issue: Result<D::Query, io::Error>| {
            &&& endpoint.provides(info)
            &&& #[trigger] pre.dns_resolver.issues(info.host, info.port, issue)
            &&& match issue {
                Err(source) => {
                    &&& result == Err::<(), _>(
                        IOServiceError::Io {
                            handle: Some(handle),
                            operation: IOServiceOperation::Resolve,
                            source,
                        },
                    )
                    &&& post.pending == pre.pending
                },
                Ok(query) => {
                    &&& result == Ok::<_, IOServiceError>(())
                    &&& post.pending.len() == pre.pending.len() + 1
                    &&& post.pending.drop_last() == pre.pending
                    &&& post.pending.last().handle == handle
                    &&& post.pending.last().endpoint == endpoint
                    &&& post.pending.last().query == query
                    &&& !post.pending.last().blocked
                    &&& pre.time_source.shows(post.pending.last().created_ns)
                },
            }
        },
{
    if result is Ok {
        assert(post.pending.drop_last() == pre.pending);
    }
}

/// An endpoint that is enrolled under a handle waits behind all pending ones for a query of the
/// host and port that it provides, and its handle is given back. If no query can be issued, nothing
/// changes.
pub proof fn enrolled_endpoint_waits_under_its_handle<S, E, TS, D>(
    pre: IOServiceView<S, E, TS, D>,
    handle: Handle,
    endpoint: E,
    post: IOServiceView<S, E, TS, D>,
    result: Result<Handle, IOServiceError>,
) where S: Selector, E: ConnectionInfoProvider, TS: TimeSource, D: DnsResolver
    requires
        pre.enrolled(handle, endpoint, post, result),
    ensures
        post == (IOServiceView { pending: post.pending, ..pre }),
        exists|info: ConnectionInfoView, issue: Result<D::Query, io::Error>| {
            &&& endpoint.provides(info)
            &&& #[trigger] pre.dns_resolver.issues(info.host, info.port, issue)
            &&& match issue {
                Err(source) => {
                    &&& result == Err::<Handle, _>(
                        IOServiceError::Io {
                            handle: Some(handle),
                            operation: IOServiceOperation::Resolve,
                            source,
                        },
                    )
                    &&& post.pending == pre.pending
                },
                Ok(query) => {
                    &&& result == Ok::<_, IOServiceError>(handle)
                    &&& post.pending.len() == pre.pending.len() + 1
                    &&& post.pending.drop_last() == pre.pending
                    &&& post.pending.last().handle == handle
                    &&& post.pending.last().endpoint == endpoint
                    &&& post.pending.last().query == query
                    &&& !post.pending.last().blocked
                    &&& pre.time_source.shows(post.pending.last().created_ns)
                },
            }
        },
{
    match result {
        Ok(_) => waiting_endpoint_has_its_query(pre, handle, endpoint, post, Ok(())),
        Err(e) => waiting_endpoint_has_its_query(pre, handle, endpoint, post, Err(e)),
    }
}

/// An endpoint that is not active cannot be given up: that is reported and nothing changes.
pub proof fn missing_endpoint_is_reported<S, E, TS, D>(
    pre: IOServiceView<S, E, TS, D>,
    handle: Handle,
    post: IOServiceView<S, E, TS, D>,
    result: Result<E, IOServiceError>,
) where S: Selector + Selects<<S as Selector>::Target, E>, D: DnsResolver
    requires
        pre.nodes.node(handle.0) is None,
        pre.detached(handle, post, result),
    ensures
        post == pre,
        result matches Err(IOServiceError::InvalidState { handle: h, message }) && h == Some(handle)
            && message@ == "active endpoint is not registered"@,
{
}

/// An active endpoint that is given up is handed to the selector, and it leaves only if the
/// selector lets it go.
pub proof fn leaving_endpoint_is_unregistered<S, E, TS, D>(
    pre: IOServiceView<S, E, TS, D>,
    handle: Handle,
    post: IOServiceView<S, E, TS, D>,
    result: Result<E, IOServiceError>,
) where S: Selector + Selects<<S as Selector>::Target, E>, D: DnsResolver
    requires
        pre.nodes.valid(),
        pre.nodes.node(handle.0) is Some,
        pre.detached(handle, post, result),
    ensures
        post == (IOServiceView { selector: post.selector, nodes: post.nodes, ..pre }),
        exists|node_post: IONode<S::Target, E>, reply: Result<(), io::Error>|
            {
                &&& #[trigger] S::unregistered(
                    pre.selector,
                    pre.nodes.node(handle.0)->0,
                    post.selector,
                    node_post,
                    reply,
                )
                &&& match reply {
                    Err(source) => {
                        &&& result == Err::<E, _>(
                            IOServiceError::Io {
                                handle: Some(handle),
                                operation: IOServiceOperation::Unregister,
                                source,
                            },
                        )
                        &&& post.nodes.node(handle.0) == Some(node_post)
                    },
                    Ok(()) => {
                        &&& result == Ok::<_, IOServiceError>(node_post.endpoint.1)
                        &&& post.nodes.node(handle.0) is None
                    },
                }
            },
{
    crate::service::service_laws::detached_endpoint_is_gone(pre, handle, post, result);
}

/// A disconnected endpoint that may be recreated and that the selector lets go waits behind all
/// pending ones, with a fresh query for its host and port, and is reported as disconnected. One
/// that may not is dropped and reported as not recreatable. One that the selector keeps stays
/// active.
pub proof fn disconnection_goes_by_the_answer<S, E, TS, D, V>(
    pre: IOServiceView<S, E, TS, D>,
    handle: Handle,
    reason: DisconnectReason,
    answer: bool,
    post: IOServiceView<S, E, TS, D>,
    result: Result<IOServiceEvent<V>, IOServiceError>,
) where
    S: Selector + Selects<<S as Selector>::Target, E>,
    E: ConnectionInfoProvider,
    TS: TimeSource,
    D: DnsResolver,

    requires
        pre.nodes.valid(),
        pre.nodes.node(handle.0) is Some,
        pre.disconnected(handle, reason, answer, post, result),
    ensures
        forall|other: SelectorToken|
            other != handle.0 ==> #[trigger] post.nodes.node(other) == pre.nodes.node(other),
        post == (IOServiceView {
            selector: post.selector,
            nodes: post.nodes,
            pending: post.pending,
            ..pre
        }),
        exists|node_post: IONode<S::Target, E>, reply: Result<(), io::Error>| {
            &&& #[trigger] S::unregistered(
                pre.selector,
                pre.nodes.node(handle.0)->0,
                post.selector,
                node_post,
                reply,
            )
            &&& match reply {
                Err(source) => {
                    &&& result == Err::<IOServiceEvent<V>, _>(
                        IOServiceError::Io {
                            handle: Some(handle),
                            operation: IOServiceOperation::Unregister,
                            source,
                        },
                    )
                    &&& post.nodes.node(handle.0) == Some(node_post)
                    &&& post.nodes.schedule() == pre.nodes.schedule()
                    &&& post.pending == pre.pending
                },
                Ok(()) => {
                    &&& post.nodes.node(handle.0) is None
                    &&& post.nodes.schedule() == pre.nodes.schedule().filter(
                        crate::service::slots::other_slot(handle.0 as int),
                    )
                    &&& if answer {
                        exists|info: ConnectionInfoView, issue: Result<D::Query, io::Error>| {
                            &&& node_post.endpoint.1.provides(info)
                            &&& #[trigger] pre.dns_resolver.issues(info.host, info.port, issue)
                            &&& match issue {
                                Err(source) => {
                                    &&& result == Err::<IOServiceEvent<V>, _>(
                                        IOServiceError::Io {
                                            handle: Some(handle),
                                            operation: IOServiceOperation::Resolve,
                                            source,
                                        },
                                    )
                                    &&& post.pending == pre.pending
                                },
                                Ok(query) => {
                                    &&& result == Ok::<_, IOServiceError>(
                                        IOServiceEvent::<V>::Disconnected { handle, reason },
                                    )
                                    &&& post.pending.len() == pre.pending.len() + 1
                                    &&& post.pending.drop_last() == pre.pending
                                    &&& post.pending.last().handle == handle
                                    &&& post.pending.last().endpoint == node_post.endpoint.1
                                    &&& post.pending.last().query == query
                                    &&& !post.pending.last().blocked
                                    &&& pre.time_source.shows(post.pending.last().created_ns)
                                },
                            }
                        }
                    } else {
                        &&& result == Err::<IOServiceEvent<V>, _>(
                            IOServiceError::EndpointNotRecreatable { handle, reason },
                        )
                        &&& post.pending == pre.pending
                    }
                },
            }
        },
{
    let (removed, reply) = choose|
        removed: IOServiceView<S, E, TS, D>,
        reply: Result<E, IOServiceError>,
    |
        {
            &&& #[trigger] pre.detached(handle, removed, reply)
            &&& match reply {
                Err(e) => result == Err::<IOServiceEvent<V>, _>(e) && post == removed,
                Ok(endpoint) => if answer {
                    exists|scheduling: Result<(), IOServiceError>|
                        {
                            &&& #[trigger] removed.scheduled(handle, endpoint, post, scheduling)
                            &&& result == match scheduling {
                                Ok(()) => Ok::<IOServiceEvent<V>, IOServiceError>(
                                    IOServiceEvent::Disconnected { handle, reason },
                                ),
                                Err(e) => Err(e),
                            }
                        }
                } else {
                    &&& result == Err::<IOServiceEvent<V>, _>(
                        IOServiceError::EndpointNotRecreatable { handle, reason },
                    )
                    &&& post == removed
                },
            }
        };
    leaving_endpoint_is_unregistered(pre, handle, removed, reply);
    crate::service::service_laws::detached_endpoint_is_gone(pre, handle, removed, reply);
    if let Ok(endpoint) = reply {
        if answer {
            let scheduling = choose|scheduling: Result<(), IOServiceError>|
                {
                    &&& #[trigger] removed.scheduled(handle, endpoint, post, scheduling)
                    &&& result == match scheduling {
                        Ok(()) => Ok::<IOServiceEvent<V>, IOServiceError>(
                            IOServiceEvent::Disconnected { handle, reason },
                        ),
                        Err(e) => Err(e),
                    }
                };
            waiting_endpoint_has_its_query(removed, handle, endpoint, post, scheduling);
            assert(post.selector == removed.selector);
        }
    }
    assert(post.selector == removed.selector);
    crate::service::storage_laws::removing_keeps_order(pre.nodes, handle.0);
    assert forall|node: IONode<S::Target, E>| (#[trigger] pre.nodes.with_node(
        handle.0,
        node,
    )).schedule() == pre.nodes.schedule() by {
        crate::service::storage_laws::replacing_keeps_turns(pre.nodes, handle.0, node);
    }
}

/// An attempt polls the query of the first pending endpoint, unless it was polled before and is too
/// late by now. The endpoint becomes due with the first address of the answer, whatever it is. It
/// is dropped if the query fails, has no address at all or is too late, and waits behind the others
/// if there is no answer yet. Before its time nothing is attempted.
pub proof fn attempt_goes_by_the_answer<S, E, TS, D>(
    pre: IOServiceView<S, E, TS, D>,
    now_ns: u64,
    post: IOServiceView<S, E, TS, D>,
    result: Result<Option<DueEndpoint<E>>, IOServiceError>,
) where S: Selector, TS: TimeSource, D: DnsResolver
    requires
        pre.pending.len() > 0,
        pre.pending_checked_at(now_ns, post, result),
    ensures
        post == (IOServiceView {
            pending: post.pending,
            next_create_ns: post.next_create_ns,
            ..pre
        }),
        now_ns <= pre.next_create_ns ==> {
            &&& result == Ok::<Option<DueEndpoint<E>>, IOServiceError>(None)
            &&& post == pre
        },
        now_ns > pre.next_create_ns ==> {
            let first = pre.pending.first();
            ||| {
                &&& first.blocked
                &&& pre.dns_query_timeout_ns matches Some(timeout_ns)
                &&& exists|late_ns: u64| #[trigger]
                    pre.time_source.shows(late_ns) && late_ns > first.created_ns + timeout_ns
                &&& result matches Err(IOServiceError::Io { handle, operation, source })
                &&& handle == Some(first.handle)
                &&& operation == IOServiceOperation::Resolve
                &&& source.kind == io::ErrorKind::TimedOut
                &&& source.message@ == "dns resolution timed out"@
                &&& source.os_code is None
                &&& post.pending == pre.pending.drop_first()
                &&& post.next_create_ns == pre.next_create_ns
            }
            ||| exists|query: D::Query, answer: Result<Vec<SocketAddr>, io::Error>| {
                &&& #[trigger] D::Query::polled(first.query, query, answer)
                &&& first.blocked && pre.dns_query_timeout_ns is Some ==> exists|early_ns: u64|
                    #[trigger]
                    pre.time_source.shows(early_ns) && early_ns <= first.created_ns
                        + pre.dns_query_timeout_ns->0
                &&& match answer {
                    Ok(addrs) => {
                        &&& post.pending == pre.pending.drop_first()
                        &&& post.next_create_ns == pre.next_create_ns
                        &&& addrs@.len() > 0 ==> {
                            &&& result matches Ok(Some(due))
                            &&& due.addr == addrs@[0]
                            &&& due.handle == first.handle
                            &&& due.endpoint == first.endpoint
                            &&& due.now_ns == now_ns
                        }
                        &&& addrs@.len() == 0 ==> {
                            &&& result matches Err(IOServiceError::Io { handle, operation, source })
                            &&& handle == Some(first.handle)
                            &&& operation == IOServiceOperation::Resolve
                            &&& source.kind == io::ErrorKind::Other
                            &&& source.message@ == "dns resolution dio not return any address"@
                            &&& source.os_code is None
                        }
                    },
                    Err(failure) => if failure.kind != io::ErrorKind::WouldBlock {
                        &&& result == Err::<Option<DueEndpoint<E>>, _>(
                            IOServiceError::Io {
                                handle: Some(first.handle),
                                operation: IOServiceOperation::Resolve,
                                source: failure,
                            },
                        )
                        &&& post.pending == pre.pending.drop_first()
                        &&& post.next_create_ns == pre.next_create_ns
                    } else {
                        ||| {
                            &&& pre.dns_query_timeout_ns matches Some(timeout_ns) ==> exists|
                                early_ns: u64,
                            | #[trigger]
                                pre.time_source.shows(early_ns) && early_ns <= first.created_ns
                                    + timeout_ns
                            &&& result == Ok::<Option<DueEndpoint<E>>, IOServiceError>(None)
                            &&& post.pending.len() == pre.pending.len()
                            &&& post.pending.drop_last() == pre.pending.drop_first()
                            &&& post.pending.last().handle == first.handle
                            &&& post.pending.last().endpoint == first.endpoint
                            &&& post.pending.last().query == query
                            &&& post.pending.last().created_ns == first.created_ns
                            &&& post.pending.last().blocked
                            &&& post.next_create_ns == if now_ns + 1_000_000_000 <= u64::MAX {
                                now_ns + 1_000_000_000
                            } else {
                                u64::MAX as int
                            }
                        }
                        ||| {
                            &&& !first.blocked
                            &&& pre.dns_query_timeout_ns matches Some(timeout_ns)
                            &&& exists|late_ns: u64| #[trigger]
                                pre.time_source.shows(late_ns) && late_ns > first.created_ns
                                    + timeout_ns
                            &&& result matches Err(IOServiceError::Io { handle, operation, source })
                            &&& handle == Some(first.handle)
                            &&& operation == IOServiceOperation::Resolve
                            &&& source.kind == io::ErrorKind::TimedOut
                            &&& source.message@ == "dns resolution timed out"@
                            &&& source.os_code is None
                            &&& post.pending == pre.pending.drop_first()
                            &&& post.next_create_ns == pre.next_create_ns
                        }
                    },
                }
            }
        },
{
    let first = pre.pending.first();
    assert forall|last: PendingEndpoint<D::Query, E>| true implies (
    #[trigger] pre.pending.drop_first().push(last)).drop_last() == pre.pending.drop_first() by {}
}

/// An endpoint that created a target becomes active under its handle with it, once the selector has
/// taken it. An endpoint that created none waits behind the pending ones, with a fresh query. One
/// that fails to create a target, or that the selector refuses, is dropped, and the failure is
/// passed on.
pub proof fn connection_goes_by_the_target<S, E, TS, D>(
    pre: IOServiceView<S, E, TS, D>,
    handle: Handle,
    endpoint: E,
    now_ns: u64,
    target: Result<Option<S::Target>, io::Error>,
    post: IOServiceView<S, E, TS, D>,
    result: Result<Option<Handle>, IOServiceError>,
) where
    S: Selector + Selects<<S as Selector>::Target, E>,
    E: ConnectionInfoProvider,
    TS: TimeSource,
    D: DnsResolver,

    requires
        pre.nodes.valid(),
        pre.connected(handle, endpoint, now_ns, target, post, result),
    ensures
        ({
            let later_ns = if now_ns + 1_000_000_000 <= u64::MAX {
                now_ns + 1_000_000_000
            } else {
                u64::MAX as int
            };
            match target {
                Err(source) => {
                    &&& result == Err::<Option<Handle>, _>(
                        IOServiceError::Io {
                            handle: Some(handle),
                            operation: IOServiceOperation::CreateTarget,
                            source,
                        },
                    )
                    &&& post == pre
                },
                Ok(None) => {
                    &&& post == (IOServiceView {
                        pending: post.pending,
                        next_create_ns: post.next_create_ns,
                        ..pre
                    })
                    &&& result is Ok ==> post.next_create_ns == later_ns
                    &&& result is Err ==> post.next_create_ns == pre.next_create_ns
                    &&& exists|info: ConnectionInfoView, issue: Result<D::Query, io::Error>| {
                            &&& endpoint.provides(info)
                            &&& #[trigger] pre.dns_resolver.issues(info.host, info.port, issue)
                            &&& match issue {
                                Err(source) => {
                                    &&& result == Err::<Option<Handle>, _>(
                                        IOServiceError::Io {
                                            handle: Some(handle),
                                            operation: IOServiceOperation::Resolve,
                                            source,
                                        },
                                    )
                                    &&& post.pending == pre.pending
                                },
                                Ok(query) => {
                                    &&& result == Ok::<Option<Handle>, IOServiceError>(None)
                                    &&& post.pending.len() == pre.pending.len() + 1
                                    &&& post.pending.drop_last() == pre.pending
                                    &&& post.pending.last().handle == handle
                                    &&& post.pending.last().endpoint == endpoint
                                    &&& post.pending.last().query == query
                                    &&& !post.pending.last().blocked
                                    &&& pre.time_source.shows(post.pending.last().created_ns)
                                },
                            }
                        }
                },
                Ok(Some(stream)) => exists|
                    node: IONode<S::Target, E>,
                    node_post: IONode<S::Target, E>,
                    reply: Result<(), io::Error>,
                | {
                    &&& #[trigger] S::registered(
                        pre.selector,
                        handle.0,
                        node,
                        post.selector,
                        node_post,
                        reply,
                    )
                    &&& node.stream == stream
                    &&& node.endpoint == (handle, endpoint)
                    &&& match pre.auto_disconnect {
                        None => node.ttl@ == u64::MAX && node.disconnect_time_ns == u64::MAX,
                        Some(supplier) => exists|ttl: Duration, active_ns: u64| {
                            &&& #[trigger] supplier.supplies(ttl)
                            &&& #[trigger] pre.time_source.shows(active_ns)
                            &&& ttl@ <= u64::MAX ==> {
                                &&& node.ttl@ == ttl@
                                &&& node.disconnect_time_ns == if active_ns + ttl@ <= u64::MAX {
                                    active_ns + ttl@
                                } else {
                                    u64::MAX as int
                                }
                            }
                            &&& ttl@ > u64::MAX ==> {
                                let kept = ttl@ % 0x1_0000_0000_0000_0000;
                                &&& node.ttl@ == kept
                                &&& node.disconnect_time_ns == if active_ns + kept <= u64::MAX {
                                    active_ns + kept
                                } else {
                                    u64::MAX as int
                                }
                            }
                        },
                    }
                    &&& post.pending == pre.pending
                    &&& match reply {
                        Err(source) => {
                            &&& result == Err::<Option<Handle>, _>(
                                IOServiceError::Io {
                                    handle: Some(handle),
                                    operation: IOServiceOperation::Register,
                                    source,
                                },
                            )
                            &&& post == (IOServiceView { selector: post.selector, ..pre })
                        },
                        Ok(()) => if pre.nodes.node(handle.0) is Some {
                            &&& result matches Err(
                                IOServiceError::InvalidState { handle: h, message },
                            )
                            &&& h == Some(handle)
                            &&& message@ == "endpoint token is already active"@
                            &&& post == (IOServiceView { selector: post.selector, ..pre })
                        } else {
                            ||| {
                                &&& result == Ok::<_, IOServiceError>(Some(handle))
                                &&& post.nodes.node(handle.0) == Some(node_post)
                                &&& post.nodes.cursor == pre.nodes.cursor
                                &&& forall|other: SelectorToken|
                                    other != handle.0 ==> #[trigger] post.nodes.node(other)
                                        == pre.nodes.node(other)
                                &&& post == (IOServiceView {
                                    selector: post.selector,
                                    nodes: post.nodes,
                                    next_create_ns: post.next_create_ns,
                                    ..pre
                                })
                                &&& post.next_create_ns == later_ns
                            }
                            ||| {
                                &&& usize::MAX <= u32::MAX && handle.0 >= 0x8000_0000
                                &&& result matches Err(IOServiceError::InvalidState {
                                    handle: h,
                                    message,
                                })
                                &&& h == Some(handle)
                                &&& message@ == "endpoint token is out of range"@
                                &&& post == (IOServiceView { selector: post.selector, ..pre })
                            }
                        },
                    }
                },
            }
        }),
{
    match target {
        Err(_) => {},
        Ok(None) => {
            assert forall|queued: IOServiceView<S, E, TS, D>, reply: Result<(), IOServiceError>|
                #[trigger]
                pre.scheduled(handle, endpoint, queued, reply) implies queued == (IOServiceView {
                pending: queued.pending,
                ..pre
            }) && (reply is Ok ==> queued.pending.drop_last() == pre.pending) by {
                waiting_endpoint_has_its_query(pre, handle, endpoint, queued, reply);
            }
        },
        Ok(Some(stream)) => {
            if usize::MAX > u32::MAX || handle.0 < 0x8000_0000 {
                crate::service::value_laws::free_token_can_be_taken(pre.nodes, handle.0);
            }
            assert forall|node: IONode<S::Target, E>|
                pre.nodes.admits(handle.0) implies (#[trigger] pre.nodes.inserted(
                handle.0,
                node,
            )).node(handle.0) == Some(node) && forall|other: SelectorToken|
                other != handle.0 ==> #[trigger] pre.nodes.inserted(handle.0, node).node(other)
                    == pre.nodes.node(other) by {
                crate::service::storage_laws::inserted_node_is_found(pre.nodes, handle.0, node);
            }
        },
    }
}

} // verus!
