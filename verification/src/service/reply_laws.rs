//! Laws of polling, over what the endpoints, the selector and the resolver reply:
//! what an endpoint replies decides what is reported and what becomes of the endpoint.

use vstd::prelude::*;

use crate::io;
use crate::net::SocketAddr;
use crate::service::dns::{DnsQuery, DnsResolver};
use crate::service::endpoint::{DisconnectReason, Endpoint};
use crate::service::error::{IOServiceError, IOServiceOperation};
use crate::service::model::{Asked, DueEndpoint, IOServiceView};
use crate::service::node::{IONode, IONodesView};
use crate::service::select::{Selector, SelectorToken, Selects};
use crate::service::time::{Duration, TimeSource};
use crate::service::{Handle, IOServiceEvent};
use crate::stream::ConnectionInfoView;

verus! {

/// What an endpoint replies to its poll decides: data is passed on under its handle, and a failure
/// of any kind queues the endpoint for disconnection with that failure as the cause.
pub proof fn reply_decides<'a, S, E, TS, D>(
    pre: IOServiceView<S, E, TS, D>,
    handle: Handle,
    post: IOServiceView<S, E, TS, D>,
    result: Result<IOServiceEvent<E::Event<'a>>, IOServiceError>,
) where
    S: Selector + Selects<<S as Selector>::Target, E>,
    E: Endpoint<Target = S::Target> + 'a,
    TS: TimeSource,
    D: DnsResolver,

    requires
        pre.nodes.valid(),
        pre.nodes.node(handle.0) is Some,
        pre.disconnects.len() == 0,
        pre.endpoint_polled(handle, post, result),
    ensures
        post == (IOServiceView { nodes: post.nodes, disconnects: post.disconnects, ..pre }),
        post.nodes.schedule() == pre.nodes.schedule(),
        forall|other: SelectorToken|
            other != handle.0 ==> #[trigger] post.nodes.node(other) == pre.nodes.node(other),
        ({
            let node = pre.nodes.node(handle.0)->0;
            exists|endpoint: E, stream: S::Target, reply: Result<Option<E::Event<'a>>, io::Error>| {
                &&& #[trigger] E::polled(node.endpoint.1, node.stream, endpoint, stream, reply)
                &&& post.nodes.node(handle.0) matches Some(polled)
                &&& polled.stream == stream
                &&& polled.endpoint == (node.endpoint.0, endpoint)
                &&& polled.ttl == node.ttl
                &&& polled.disconnect_time_ns == node.disconnect_time_ns
                &&& match reply {
                    Ok(Some(event)) => {
                        &&& result == Ok::<_, IOServiceError>(
                            IOServiceEvent::Data { handle, event },
                        )
                        &&& post.disconnects.len() == 0
                    },
                    Ok(None) => {
                        &&& result == Ok::<_, IOServiceError>(IOServiceEvent::<E::Event<'a>>::Idle)
                        &&& post.disconnects.len() == 0
                    },
                    Err(source) => {
                        &&& result == Ok::<_, IOServiceError>(IOServiceEvent::<E::Event<'a>>::Idle)
                        &&& post.disconnects.len() == 1
                        &&& post.disconnects[0] == (handle, DisconnectReason::IO(source))
                    },
                }
            }
        }),
{
    let node = pre.nodes.node(handle.0)->0;
    assert forall|changed: IONode<S::Target, E>| ({
        let nodes = #[trigger] pre.nodes.with_node(handle.0, changed);
        &&& nodes.node(handle.0) == Some(changed)
        &&& nodes.schedule() == pre.nodes.schedule()
        &&& forall|other: SelectorToken|
            other != handle.0 ==> #[trigger] nodes.node(other) == pre.nodes.node(other)
    }) by {
        crate::service::storage_laws::replacing_keeps_turns(pre.nodes, handle.0, changed);
    }
}

/// An endpoint that has its turn is polled, unless its time has passed and it agrees to be ended.
/// If it does not agree, its time is put off by another time to live and it is polled. If it
/// agrees, its answer on whether it can be recreated decides what becomes of it.
pub proof fn turn_goes_by_the_answers<'a, S, E, TS, D>(
    pre: IOServiceView<S, E, TS, D>,
    handle: Handle,
    asked: Asked<E, ()>,
    post: IOServiceView<S, E, TS, D>,
    result: Result<IOServiceEvent<E::Event<'a>>, IOServiceError>,
) where
    S: Selector + Selects<<S as Selector>::Target, E>,
    E: Endpoint<Target = S::Target> + 'a,
    TS: TimeSource,
    D: DnsResolver,

    requires
        pre.nodes.valid(),
        pre.nodes.node(handle.0) is Some,
        pre.disconnects.len() == 0,
        pre.turn_taken(handle, asked, post, result),
    ensures
        post == (IOServiceView {
            selector: post.selector,
            nodes: post.nodes,
            pending: post.pending,
            disconnects: post.disconnects,
            ..pre
        }),
        forall|other: SelectorToken|
            other != handle.0 ==> #[trigger] post.nodes.node(other) == pre.nodes.node(other),
        result is Ok && (result->Ok_0 is Data || result->Ok_0 is Idle) ==> post.nodes.schedule()
            == pre.nodes.schedule(),
        ({
            let node = pre.nodes.node(handle.0)->0;
            {
                ||| {
                    &&& pre.auto_disconnect is Some ==> exists|now_ns: u64| #[trigger]
                        pre.time_source.shows(now_ns) && now_ns <= node.disconnect_time_ns
                    &&& exists|
                        endpoint: E,
                        stream: S::Target,
                        reply: Result<Option<E::Event<'a>>, io::Error>,
                    | {
                        &&& #[trigger] E::polled(
                            node.endpoint.1,
                            node.stream,
                            endpoint,
                            stream,
                            reply,
                        )
                        &&& post.selector == pre.selector
                        &&& post.pending == pre.pending
                        &&& post.nodes.node(handle.0) matches Some(polled)
                        &&& polled.stream == stream
                        &&& polled.endpoint == (node.endpoint.0, endpoint)
                        &&& polled.ttl == node.ttl
                        &&& polled.disconnect_time_ns == node.disconnect_time_ns
                        &&& match reply {
                            Ok(Some(event)) => {
                                &&& result == Ok::<_, IOServiceError>(
                                    IOServiceEvent::Data { handle, event },
                                )
                                &&& post.disconnects.len() == 0
                            },
                            Ok(None) => {
                                &&& result == Ok::<_, IOServiceError>(
                                    IOServiceEvent::<E::Event<'a>>::Idle,
                                )
                                &&& post.disconnects.len() == 0
                            },
                            Err(source) => {
                                &&& result == Ok::<_, IOServiceError>(
                                    IOServiceEvent::<E::Event<'a>>::Idle,
                                )
                                &&& post.disconnects.len() == 1
                                &&& post.disconnects[0] == (handle, DisconnectReason::IO(source))
                            },
                        }
                    }
                }
                ||| {
                    &&& pre.auto_disconnect matches Some(supplier)
                    &&& exists|now_ns: u64| #[trigger]
                        pre.time_source.shows(now_ns) && now_ns > node.disconnect_time_ns
                    &&& asked.auto_disconnect matches Some(question)
                    &&& question.endpoint == node.endpoint.1
                    &&& if question.answer {
                        &&& asked.recreate matches Some(next)
                        &&& next.endpoint == question.endpoint_post
                        &&& next.reason == DisconnectReason::AutoDisconnect(node.ttl)
                        &&& post.disconnects.len() == 0
                        &&& exists|node_post: IONode<S::Target, E>, reply: Result<(), io::Error>| {
                            &&& #[trigger] S::unregistered(
                                pre.selector,
                                IONode { endpoint: (node.endpoint.0, next.endpoint_post), ..node },
                                post.selector,
                                node_post,
                                reply,
                            )
                            &&& match reply {
                                Err(source) => {
                                    &&& result == Err::<IOServiceEvent<E::Event<'a>>, _>(
                                        IOServiceError::Io {
                                            handle: Some(handle),
                                            operation: IOServiceOperation::Unregister,
                                            source,
                                        },
                                    )
                                    &&& post.nodes.node(handle.0) == Some(node_post)
                                    &&& post.nodes.schedule() == pre.nodes.schedule()
                                    &&& post.pending == pre.pending
                                },
                                Ok(()) => {
                                    &&& post.nodes.node(handle.0) is None
                                    &&& post.nodes.schedule() == pre.nodes.schedule().filter(
                                        crate::service::slots::other_slot(handle.0 as int),
                                    )
                                    &&& if next.answer {
                                        exists|
                                            info: ConnectionInfoView,
                                            issue: Result<D::Query, io::Error>,
                                        | {
                                            &&& node_post.endpoint.1.provides(info)
                                            &&& #[trigger] pre.dns_resolver.issues(
                                                info.host,
                                                info.port,
                                                issue,
                                            )
                                            &&& match issue {
                                                Err(source) => {
                                                    &&& result == Err::<IOServiceEvent<E::Event<'a>>, _>(
                                                        IOServiceError::Io {
                                                            handle: Some(handle),
                                                            operation: IOServiceOperation::Resolve,
                                                            source,
                                                        },
                                                    )
                                                    &&& post.pending == pre.pending
                                                },
                                                Ok(query) => {
                                                    &&& result == Ok::<_, IOServiceError>(
                                                        IOServiceEvent::<E::Event<'a>>::Disconnected {
                                                            handle,
                                                            reason: next.reason,
                                                        },
                                                    )
                                                    &&& post.pending.len() == pre.pending.len() + 1
                                                    &&& post.pending.drop_last() == pre.pending
                                                    &&& post.pending.last().handle == handle
                                                    &&& post.pending.last().endpoint == node_post.endpoint.1
                                                    &&& post.pending.last().query == query
                                                    &&& !post.pending.last().blocked
                                                    &&& pre.time_source.shows(
                                                        post.pending.last().created_ns,
                                                    )
                                                },
                                            }
                                        }
                                    } else {
                                        &&& result == Err::<IOServiceEvent<E::Event<'a>>, _>(
                                            IOServiceError::EndpointNotRecreatable {
                                                handle,
                                                reason: next.reason,
                                            },
                                        )
                                        &&& post.pending == pre.pending
                                    }
                                },
                            }
                        }
                    } else {
                        exists|ttl: Duration| #[trigger] supplier.supplies(ttl) &&
                            exists|
                                endpoint: E,
                                stream: S::Target,
                                reply: Result<Option<E::Event<'a>>, io::Error>,
                            | {
                            &&& #[trigger] E::polled(
                                question.endpoint_post,
                                node.stream,
                                endpoint,
                                stream,
                                reply,
                            )
                            &&& post.selector == pre.selector
                            &&& post.pending == pre.pending
                            &&& post.nodes.node(handle.0) matches Some(polled)
                            &&& polled.stream == stream
                            &&& polled.endpoint == (node.endpoint.0, endpoint)
                            &&& polled.ttl == node.ttl
                            &&& ttl@ <= u64::MAX - node.disconnect_time_ns
                                ==> polled.disconnect_time_ns == node.disconnect_time_ns + ttl@
                            &&& u64::MAX - node.disconnect_time_ns < ttl@ <= u64::MAX
                                ==> polled.disconnect_time_ns == u64::MAX
                            &&& ttl@ > u64::MAX ==> {
                                let kept = ttl@ % 0x1_0000_0000_0000_0000;
                                polled.disconnect_time_ns == if node.disconnect_time_ns + kept
                                    <= u64::MAX {
                                    node.disconnect_time_ns + kept
                                } else {
                                    u64::MAX as int
                                }
                            }
                            &&& match reply {
                                Ok(Some(event)) => {
                                    &&& result == Ok::<_, IOServiceError>(
                                        IOServiceEvent::Data { handle, event },
                                    )
                                    &&& post.disconnects.len() == 0
                                },
                                Ok(None) => {
                                    &&& result == Ok::<_, IOServiceError>(
                                        IOServiceEvent::<E::Event<'a>>::Idle,
                                    )
                                    &&& post.disconnects.len() == 0
                                },
                                Err(source) => {
                                    &&& result == Ok::<_, IOServiceError>(
                                        IOServiceEvent::<E::Event<'a>>::Idle,
                                    )
                                    &&& post.disconnects.len() == 1
                                    &&& post.disconnects[0] == (
                                        handle,
                                        DisconnectReason::IO(source),
                                    )
                                },
                            }
                        }
                    }
                }
            }
        }),
{
    let node = pre.nodes.node(handle.0)->0;
    let early = exists|now_ns: u64| #[trigger]
        pre.time_source.shows(now_ns) && now_ns <= node.disconnect_time_ns;
    if (pre.auto_disconnect is None || early) && pre.endpoint_polled(
        handle,
        post,
        result,
    ) {
        reply_decides(pre, handle, post, result);
    } else {
        let question = asked.auto_disconnect->0;
        if question.answer {
            let next = asked.recreate->0;
            let ready = pre.with_endpoint(handle, next.endpoint_post);
            let changed = node.with_endpoint(next.endpoint_post);
            crate::service::storage_laws::storage_stays_valid(pre.nodes, handle.0, changed);
            crate::service::storage_laws::replacing_keeps_turns(pre.nodes, handle.0, changed);
            crate::service::lifecycle_laws::disconnection_goes_by_the_answer(
                ready,
                handle,
                next.reason,
                next.answer,
                post,
                result,
            );
        } else {
            let ttl = choose|ttl: Duration| #[trigger]
                pre.auto_disconnect->0.supplies(ttl) && pre.with_node(
                    handle,
                    IONode {
                        disconnect_time_ns: crate::service::time::time_after(
                            node.disconnect_time_ns,
                            crate::service::time::low_64_bits(ttl@),
                        ),
                        ..node.with_endpoint(question.endpoint_post)
                    },
                ).endpoint_polled(handle, post, result);
            let changed = IONode {
                disconnect_time_ns: crate::service::time::time_after(
                    node.disconnect_time_ns,
                    crate::service::time::low_64_bits(ttl@),
                ),
                ..node.with_endpoint(question.endpoint_post)
            };
            crate::service::value_laws::nanoseconds_are_kept(ttl@);
            crate::service::storage_laws::storage_stays_valid(pre.nodes, handle.0, changed);
            crate::service::storage_laws::replacing_keeps_turns(pre.nodes, handle.0, changed);
            reply_decides(pre.with_node(handle, changed), handle, post, result);
        }
    }
}

/// Once the selector was polled, the endpoint that is first in turn is served, as its answers and
/// its reply decide, and goes to the end of the turns. Without active endpoints nothing happens,
/// and a failure of the selector is passed on.
pub proof fn next_endpoint_has_its_turn<'a, S, E, TS, D>(
    pre: IOServiceView<S, E, TS, D>,
    asked: Asked<E, ()>,
    post: IOServiceView<S, E, TS, D>,
    result: Result<IOServiceEvent<E::Event<'a>>, IOServiceError>,
) where
    S: Selector + Selects<<S as Selector>::Target, E>,
    E: Endpoint<Target = S::Target> + 'a,
    TS: TimeSource,
    D: DnsResolver,

    requires
        pre.disconnects.len() == 0,
        pre.active_polled(asked, post, result),
    ensures
        exists|selector: S, nodes: IONodesView<S::Target, E>, ready: Result<(), io::Error>| {
            &&& #[trigger] S::polled(pre.selector, pre.nodes, selector, nodes, ready)
            &&& nodes.valid()
            &&& match ready {
                Err(source) => {
                    &&& result == Err::<IOServiceEvent<E::Event<'a>>, _>(
                        IOServiceError::Io {
                            handle: None,
                            operation: IOServiceOperation::PollSelector,
                            source,
                        },
                    )
                    &&& post == (IOServiceView { selector, nodes, ..pre })
                },
                Ok(_) => if nodes.schedule().len() == 0 {
                    &&& result == Ok::<_, IOServiceError>(IOServiceEvent::<E::Event<'a>>::Idle)
                    &&& post == (IOServiceView { selector, nodes, ..pre })
                } else {
                    let handle = Handle(nodes.schedule().first() as SelectorToken);
                    let node = nodes.node(handle.0)->0;
                    let turns = nodes.schedule().drop_first().push(nodes.schedule().first());
                    &&& nodes.node(handle.0) is Some
                    &&& post == (IOServiceView {
                        selector: post.selector,
                        nodes: post.nodes,
                        pending: post.pending,
                        disconnects: post.disconnects,
                        ..pre
                    })
                    &&& forall|other: SelectorToken|
                        other != handle.0 ==> #[trigger] post.nodes.node(other) == nodes.node(other)
                    &&& result is Ok && (result->Ok_0 is Data || result->Ok_0 is Idle)
                        ==> post.nodes.schedule() == turns
                    &&& {
                        ||| {
                            &&& pre.auto_disconnect is Some ==> exists|now_ns: u64| #[trigger]
                                pre.time_source.shows(now_ns) && now_ns <= node.disconnect_time_ns
                            &&& exists|
                                endpoint: E,
                                stream: S::Target,
                                reply: Result<Option<E::Event<'a>>, io::Error>,
                            | {
                                &&& #[trigger] E::polled(
                                    node.endpoint.1,
                                    node.stream,
                                    endpoint,
                                    stream,
                                    reply,
                                )
                                &&& post.selector == selector
                                &&& post.pending == pre.pending
                                &&& post.nodes.node(handle.0) matches Some(polled)
                                &&& polled.stream == stream
                                &&& polled.endpoint == (node.endpoint.0, endpoint)
                                &&& polled.ttl == node.ttl
                                &&& polled.disconnect_time_ns == node.disconnect_time_ns
                                &&& match reply {
                                    Ok(Some(event)) => {
                                        &&& result == Ok::<_, IOServiceError>(
                                            IOServiceEvent::Data { handle, event },
                                        )
                                        &&& post.disconnects.len() == 0
                                    },
                                    Ok(None) => {
                                        &&& result == Ok::<_, IOServiceError>(
                                            IOServiceEvent::<E::Event<'a>>::Idle,
                                        )
                                        &&& post.disconnects.len() == 0
                                    },
                                    Err(source) => {
                                        &&& result == Ok::<_, IOServiceError>(
                                            IOServiceEvent::<E::Event<'a>>::Idle,
                                        )
                                        &&& post.disconnects.len() == 1
                                        &&& post.disconnects[0] == (
                                            handle,
                                            DisconnectReason::IO(source),
                                        )
                                    },
                                }
                            }
                        }
                        ||| {
                            &&& pre.auto_disconnect matches Some(supplier)
                            &&& exists|now_ns: u64| #[trigger]
                                pre.time_source.shows(now_ns) && now_ns > node.disconnect_time_ns
                            &&& asked.auto_disconnect matches Some(question)
                            &&& question.endpoint == node.endpoint.1
                            &&& if question.answer {
                                &&& asked.recreate matches Some(next)
                                &&& next.endpoint == question.endpoint_post
                                &&& next.reason == DisconnectReason::AutoDisconnect(node.ttl)
                                &&& post.disconnects.len() == 0
                                &&& exists|
                                    node_post: IONode<S::Target, E>,
                                    reply: Result<(), io::Error>,
                                | {
                                    &&& #[trigger] S::unregistered(
                                        selector,
                                        IONode { endpoint: (node.endpoint.0, next.endpoint_post), ..node },
                                        post.selector,
                                        node_post,
                                        reply,
                                    )
                                    &&& match reply {
                                        Err(source) => {
                                            &&& result == Err::<IOServiceEvent<E::Event<'a>>, _>(
                                                IOServiceError::Io {
                                                    handle: Some(handle),
                                                    operation: IOServiceOperation::Unregister,
                                                    source,
                                                },
                                            )
                                            &&& post.nodes.node(handle.0) == Some(node_post)
                                            &&& post.nodes.schedule() == turns
                                            &&& post.pending == pre.pending
                                        },
                                        Ok(()) => {
                                            &&& post.nodes.node(handle.0) is None
                                            &&& post.nodes.schedule() == turns.filter(
                                                crate::service::slots::other_slot(handle.0 as int),
                                            )
                                            &&& if next.answer {
                                                exists|
                                                    info: ConnectionInfoView,
                                                    issue: Result<D::Query, io::Error>,
                                                | {
                                                    &&& node_post.endpoint.1.provides(info)
                                                    &&& #[trigger] pre.dns_resolver.issues(
                                                        info.host,
                                                        info.port,
                                                        issue,
                                                    )
                                                    &&& match issue {
                                                        Err(source) => {
                                                            &&& result == Err::<IOServiceEvent<E::Event<'a>>, _>(
                                                                IOServiceError::Io {
                                                                    handle: Some(handle),
                                                                    operation: IOServiceOperation::Resolve,
                                                                    source,
                                                                },
                                                            )
                                                            &&& post.pending == pre.pending
                                                        },
                                                        Ok(query) => {
                                                            &&& result == Ok::<_, IOServiceError>(
                                                                IOServiceEvent::<E::Event<'a>>::Disconnected {
                                                                    handle,
                                                                    reason: next.reason,
                                                                },
                                                            )
                                                            &&& post.pending.len() == pre.pending.len() + 1
                                                            &&& post.pending.drop_last() == pre.pending
                                                            &&& post.pending.last().handle == handle
                                                            &&& post.pending.last().endpoint == node_post.endpoint.1
                                                            &&& post.pending.last().query == query
                                                            &&& !post.pending.last().blocked
                                                            &&& pre.time_source.shows(
                                                                post.pending.last().created_ns,
                                                            )
                                                        },
                                                    }
                                                }
                                            } else {
                                                &&& result == Err::<IOServiceEvent<E::Event<'a>>, _>(
                                                    IOServiceError::EndpointNotRecreatable {
                                                        handle,
                                                        reason: next.reason,
                                                    },
                                                )
                                                &&& post.pending == pre.pending
                                            }
                                        },
                                    }
                                }
                            } else {
                                exists|ttl: Duration| #[trigger] supplier.supplies(ttl) &&
                                    exists|
                                        endpoint: E,
                                        stream: S::Target,
                                        reply: Result<Option<E::Event<'a>>, io::Error>,
                                    | {
                                    &&& #[trigger] E::polled(
                                        question.endpoint_post,
                                        node.stream,
                                        endpoint,
                                        stream,
                                        reply,
                                    )
                                    &&& post.selector == selector
                                    &&& post.pending == pre.pending
                                    &&& post.nodes.node(handle.0) matches Some(polled)
                                    &&& polled.stream == stream
                                    &&& polled.endpoint == (node.endpoint.0, endpoint)
                                    &&& polled.ttl == node.ttl
                                    &&& ttl@ <= u64::MAX - node.disconnect_time_ns
                                        ==> polled.disconnect_time_ns == node.disconnect_time_ns + ttl@
                                    &&& u64::MAX - node.disconnect_time_ns < ttl@ <= u64::MAX
                                        ==> polled.disconnect_time_ns == u64::MAX
                                    &&& ttl@ > u64::MAX ==> {
                                        let kept = ttl@ % 0x1_0000_0000_0000_0000;
                                        polled.disconnect_time_ns == if node.disconnect_time_ns + kept
                                            <= u64::MAX {
                                            node.disconnect_time_ns + kept
                                        } else {
                                            u64::MAX as int
                                        }
                                    }
                                    &&& match reply {
                                        Ok(Some(event)) => {
                                            &&& result == Ok::<_, IOServiceError>(
                                                IOServiceEvent::Data { handle, event },
                                            )
                                            &&& post.disconnects.len() == 0
                                        },
                                        Ok(None) => {
                                            &&& result == Ok::<_, IOServiceError>(
                                                IOServiceEvent::<E::Event<'a>>::Idle,
                                            )
                                            &&& post.disconnects.len() == 0
                                        },
                                        Err(source) => {
                                            &&& result == Ok::<_, IOServiceError>(
                                                IOServiceEvent::<E::Event<'a>>::Idle,
                                            )
                                            &&& post.disconnects.len() == 1
                                            &&& post.disconnects[0] == (
                                                handle,
                                                DisconnectReason::IO(source),
                                            )
                                        },
                                    }
                                }
                            }
                        }
                    }
                },
            }
        },
{
    let (selector, nodes, ready) = choose|
        selector: S,
        nodes: IONodesView<S::Target, E>,
        ready: Result<(), io::Error>,
    |
        {
            let after = IOServiceView { selector, nodes, ..pre };
            &&& nodes.valid()
            &&& #[trigger] S::polled(pre.selector, pre.nodes, selector, nodes, ready)
            &&& match ready {
                Err(source) => {
                    &&& result == Err::<IOServiceEvent<E::Event<'a>>, _>(
                        IOServiceError::Io {
                            handle: None,
                            operation: IOServiceOperation::PollSelector,
                            source,
                        },
                    )
                    &&& post == after
                },
                Ok(()) => if nodes.schedule().len() == 0 {
                    &&& result == Ok::<_, IOServiceError>(IOServiceEvent::<E::Event<'a>>::Idle)
                    &&& post == after
                } else {
                    let token = nodes.schedule().first() as SelectorToken;
                    (IOServiceView { nodes: nodes.advanced(token), ..after }).turn_taken(
                        Handle(token),
                        asked,
                        post,
                        result,
                    )
                },
            }
        };
    if ready is Ok && nodes.schedule().len() > 0 {
        let handle = Handle(nodes.schedule().first() as SelectorToken);
        crate::service::storage_laws::advancing_rotates(nodes);
        let served = IOServiceView { selector, nodes: nodes.advanced(handle.0), ..pre };
        assert(forall|token: SelectorToken| #[trigger]
            served.nodes.node(token) == nodes.node(token));
        turn_goes_by_the_answers(served, handle, asked, post, result);
    }
}

/// A queued failure is the whole of the next poll: the endpoint that failed is asked whether it can
/// be recreated after that failure, and its answer decides whether it waits again or is dropped.
pub proof fn queued_failure_goes_by_the_answer<'a, S, E, TS, D>(
    pre: IOServiceView<S, E, TS, D>,
    asked: Asked<E, ()>,
    post: IOServiceView<S, E, TS, D>,
    result: Result<IOServiceEvent<E::Event<'a>>, IOServiceError>,
) where
    S: Selector + Selects<<S as Selector>::Target, E>,
    E: Endpoint<Target = S::Target> + 'a,
    TS: TimeSource,
    D: DnsResolver,

    requires
        pre.valid(),
        pre.disconnects.len() > 0,
        pre.polled(asked, post, result),
    ensures
        post.disconnects.len() == 0,
        post == (IOServiceView {
            selector: post.selector,
            nodes: post.nodes,
            pending: post.pending,
            disconnects: post.disconnects,
            ..pre
        }),
        ({
            let handle = pre.disconnects[0].0;
            let node = pre.nodes.node(handle.0)->0;
            &&& forall|other: SelectorToken|
                other != handle.0 ==> #[trigger] post.nodes.node(other) == pre.nodes.node(other)
            &&& asked.recreate matches Some(question)
            &&& question.endpoint == node.endpoint.1
            &&& question.reason == pre.disconnects[0].1
            &&& exists|node_post: IONode<S::Target, E>, reply: Result<(), io::Error>| {
                &&& #[trigger] S::unregistered(
                    pre.selector,
                    IONode { endpoint: (node.endpoint.0, question.endpoint_post), ..node },
                    post.selector,
                    node_post,
                    reply,
                )
                &&& match reply {
                    Err(source) => {
                        &&& result == Err::<IOServiceEvent<E::Event<'a>>, _>(
                            IOServiceError::Io {
                                handle: Some(handle),
                                operation: IOServiceOperation::Unregister,
                                source,
                            },
                        )
                        &&& post.nodes.node(handle.0) == Some(node_post)
                        &&& post.nodes.schedule() == pre.nodes.schedule()
                        &&& post.pending == pre.pending
                    },
                    Ok(()) => {
                        &&& post.nodes.node(handle.0) is None
                        &&& post.nodes.schedule() == pre.nodes.schedule().filter(
                            crate::service::slots::other_slot(handle.0 as int),
                        )
                        &&& if question.answer {
                            exists|info: ConnectionInfoView, issue: Result<D::Query, io::Error>| {
                                &&& node_post.endpoint.1.provides(info)
                                &&& #[trigger] pre.dns_resolver.issues(info.host, info.port, issue)
                                &&& match issue {
                                    Err(source) => {
                                        &&& result == Err::<IOServiceEvent<E::Event<'a>>, _>(
                                            IOServiceError::Io {
                                                handle: Some(handle),
                                                operation: IOServiceOperation::Resolve,
                                                source,
                                            },
                                        )
                                        &&& post.pending == pre.pending
                                    },
                                    Ok(query) => {
                                        &&& result == Ok::<_, IOServiceError>(
                                            IOServiceEvent::<E::Event<'a>>::Disconnected {
                                                handle,
                                                reason: question.reason,
                                            },
                                        )
                                        &&& post.pending.len() == pre.pending.len() + 1
                                        &&& post.pending.drop_last() == pre.pending
                                        &&& post.pending.last().handle == handle
                                        &&& post.pending.last().endpoint == node_post.endpoint.1
                                        &&& post.pending.last().query == query
                                        &&& !post.pending.last().blocked
                                        &&& pre.time_source.shows(post.pending.last().created_ns)
                                    },
                                }
                            }
                        } else {
                            &&& result == Err::<IOServiceEvent<E::Event<'a>>, _>(
                                IOServiceError::EndpointNotRecreatable {
                                    handle,
                                    reason: question.reason,
                                },
                            )
                            &&& post.pending == pre.pending
                        }
                    },
                }
            }
        }),
{
    let (handle, reason) = pre.disconnects.first();
    assert(pre.disconnects[0] == (handle, reason));
    let node = pre.nodes.node(handle.0)->0;
    let question = asked.recreate->0;
    let rest = IOServiceView { disconnects: pre.disconnects.drop_first(), ..pre };
    let changed = node.with_endpoint(question.endpoint_post);
    crate::service::storage_laws::storage_stays_valid(pre.nodes, handle.0, changed);
    crate::service::storage_laws::replacing_keeps_turns(pre.nodes, handle.0, changed);
    crate::service::lifecycle_laws::disconnection_goes_by_the_answer(
        rest.with_endpoint(handle, question.endpoint_post),
        handle,
        reason,
        question.answer,
        post,
        result,
    );
}

/// A queued failure of an endpoint that is not active is taken off the queue and reported.
pub proof fn stray_failure_is_reported<'a, S, E, TS, D>(
    pre: IOServiceView<S, E, TS, D>,
    asked: Asked<E, ()>,
    post: IOServiceView<S, E, TS, D>,
    result: Result<IOServiceEvent<E::Event<'a>>, IOServiceError>,
) where
    S: Selector + Selects<<S as Selector>::Target, E>,
    E: Endpoint<Target = S::Target> + 'a,
    TS: TimeSource,
    D: DnsResolver,

    requires
        pre.disconnects.len() > 0,
        pre.nodes.node(pre.disconnects[0].0.0) is None,
        pre.polled(asked, post, result),
    ensures
        post == (IOServiceView { disconnects: post.disconnects, ..pre }),
        post.disconnects == pre.disconnects.drop_first(),
        result matches Err(IOServiceError::InvalidState { handle, message }) && handle == Some(
            pre.disconnects[0].0,
        ) && message@ == "disconnected endpoint is not registered"@,
{
}

/// With no failure queued, a poll attempts to connect the first pending endpoint. Only where that
/// neither connected an endpoint nor failed, an active endpoint has its turn.
pub proof fn poll_connects_before_it_serves<'a, S, E, TS, D>(
    pre: IOServiceView<S, E, TS, D>,
    asked: Asked<E, ()>,
    post: IOServiceView<S, E, TS, D>,
    result: Result<IOServiceEvent<E::Event<'a>>, IOServiceError>,
) where
    S: Selector + Selects<<S as Selector>::Target, E>,
    E: Endpoint<Target = S::Target> + 'a,
    TS: TimeSource,
    D: DnsResolver,

    requires
        pre.disconnects.len() == 0,
        pre.polled(asked, post, result),
    ensures
        if pre.pending.len() == 0 {
            pre.active_polled(asked, post, result)
        } else {
            exists|
                now_ns: u64,
                checked: IOServiceView<S, E, TS, D>,
                due: Result<Option<DueEndpoint<E>>, IOServiceError>,
            | {
                &&& pre.time_source.shows(now_ns)
                &&& #[trigger] pre.pending_checked_at(now_ns, checked, due)
                &&& match due {
                    Err(e) => {
                        &&& result == Err::<IOServiceEvent<E::Event<'a>>, _>(e)
                        &&& post == checked
                    },
                    Ok(None) => checked.active_polled(asked, post, result),
                    Ok(Some(due)) => exists|
                        endpoint: E,
                        target: Result<Option<S::Target>, io::Error>,
                        connected: IOServiceView<S, E, TS, D>,
                        reply: Result<Option<Handle>, IOServiceError>,
                    | {
                        &&& #[trigger] E::created(due.endpoint, due.addr, endpoint, target)
                        &&& #[trigger] checked.connected(
                            due.handle,
                            endpoint,
                            due.now_ns,
                            target,
                            connected,
                            reply,
                        )
                        &&& match reply {
                            Err(e) => {
                                &&& result == Err::<IOServiceEvent<E::Event<'a>>, _>(e)
                                &&& post == connected
                            },
                            Ok(Some(handle)) => {
                                &&& result == Ok::<_, IOServiceError>(
                                    IOServiceEvent::<E::Event<'a>>::Connected { handle },
                                )
                                &&& post == connected
                            },
                            Ok(None) => connected.active_polled(asked, post, result),
                        }
                    },
                }
            }
        },
{
    if pre.pending.len() > 0 {
        let (checked, due) = choose|
            checked: IOServiceView<S, E, TS, D>,
            due: Result<Option<DueEndpoint<E>>, IOServiceError>,
        | {
            &&& #[trigger] pre.pending_checked(checked, due)
            &&& match due {
                Err(e) => {
                    &&& result == Err::<IOServiceEvent<E::Event<'a>>, _>(e)
                    &&& post == checked
                },
                Ok(None) => checked.active_polled(asked, post, result),
                Ok(Some(due)) => checked.due_connected(due, asked, post, result),
            }
        };
        let now_ns = choose|now_ns: u64| #[trigger]
            pre.time_source.shows(now_ns) && pre.pending_checked_at(now_ns, checked, due);
        assert(pre.pending_checked_at(now_ns, checked, due));
    }
}

/// Where an active endpoint has its turn, the attempt to connect a pending one before it changed
/// nothing but the pending endpoints: the first may have gone behind the others.
pub proof fn attempt_leaves_the_rest<'a, S, E, TS, D>(
    pre: IOServiceView<S, E, TS, D>,
    asked: Asked<E, ()>,
    post: IOServiceView<S, E, TS, D>,
    result: Result<IOServiceEvent<E::Event<'a>>, IOServiceError>,
) where
    S: Selector + Selects<<S as Selector>::Target, E>,
    E: Endpoint<Target = S::Target> + 'a,
    TS: TimeSource,
    D: DnsResolver,

    requires
        pre.nodes.valid(),
        pre.disconnects.len() == 0,
        pre.polled(asked, post, result),
        match result {
            Ok(IOServiceEvent::Connected { handle }) => false,
            Ok(_) => true,
            Err(e) => e is EndpointNotRecreatable,
        },
    ensures
        exists|mid: IOServiceView<S, E, TS, D>| {
            &&& #[trigger] mid.active_polled(asked, post, result)
            &&& mid == (IOServiceView {
                pending: mid.pending,
                next_create_ns: mid.next_create_ns,
                ..pre
            })
            &&& mid.pending.len() == pre.pending.len()
            &&& mid.pending == pre.pending || {
                &&& pre.pending.len() > 0
                &&& mid.pending.drop_last() == pre.pending.drop_first()
                &&& mid.pending.last().handle == pre.pending[0].handle
            }
        },
{
    poll_connects_before_it_serves(pre, asked, post, result);
    if pre.pending.len() > 0 {
        let (now_ns, checked, due) = choose|
            now_ns: u64,
            checked: IOServiceView<S, E, TS, D>,
            due: Result<Option<DueEndpoint<E>>, IOServiceError>,
        | {
            &&& pre.time_source.shows(now_ns)
            &&& #[trigger] pre.pending_checked_at(now_ns, checked, due)
            &&& match due {
                Err(e) => {
                    &&& result == Err::<IOServiceEvent<E::Event<'a>>, _>(e)
                    &&& post == checked
                },
                Ok(None) => checked.active_polled(asked, post, result),
                Ok(Some(due)) => exists|
                    endpoint: E,
                    target: Result<Option<S::Target>, io::Error>,
                    connected: IOServiceView<S, E, TS, D>,
                    reply: Result<Option<Handle>, IOServiceError>,
                | {
                    &&& #[trigger] E::created(due.endpoint, due.addr, endpoint, target)
                    &&& #[trigger] checked.connected(
                        due.handle,
                        endpoint,
                        due.now_ns,
                        target,
                        connected,
                        reply,
                    )
                    &&& match reply {
                        Err(e) => {
                            &&& result == Err::<IOServiceEvent<E::Event<'a>>, _>(e)
                            &&& post == connected
                        },
                        Ok(Some(handle)) => {
                            &&& result == Ok::<_, IOServiceError>(
                                IOServiceEvent::<E::Event<'a>>::Connected { handle },
                            )
                            &&& post == connected
                        },
                        Ok(None) => connected.active_polled(asked, post, result),
                    }
                },
            }
        };
        crate::service::lifecycle_laws::attempt_goes_by_the_answer(pre, now_ns, checked, due);
        assert(pre.pending.first() == pre.pending[0]);
        if let Ok(Some(due)) = due {
            let (endpoint, target, connected, reply) = choose|
                endpoint: E,
                target: Result<Option<S::Target>, io::Error>,
                connected: IOServiceView<S, E, TS, D>,
                reply: Result<Option<Handle>, IOServiceError>,
            | {
                &&& #[trigger] E::created(due.endpoint, due.addr, endpoint, target)
                &&& #[trigger] checked.connected(
                    due.handle,
                    endpoint,
                    due.now_ns,
                    target,
                    connected,
                    reply,
                )
                &&& match reply {
                    Err(e) => {
                        &&& result == Err::<IOServiceEvent<E::Event<'a>>, _>(e)
                        &&& post == connected
                    },
                    Ok(Some(handle)) => {
                        &&& result == Ok::<_, IOServiceError>(
                            IOServiceEvent::<E::Event<'a>>::Connected { handle },
                        )
                        &&& post == connected
                    },
                    Ok(None) => connected.active_polled(asked, post, result),
                }
            };
            crate::service::lifecycle_laws::connection_goes_by_the_target(
                checked,
                due.handle,
                endpoint,
                due.now_ns,
                target,
                connected,
                reply,
            );
            assert(reply == Ok::<Option<Handle>, IOServiceError>(None));
            assert(connected.active_polled(asked, post, result));
        } else {
            assert(checked.active_polled(asked, post, result));
        }
    } else {
        assert(pre.active_polled(asked, post, result));
    }
}

/// Of a poll that brings data or nothing: the endpoint that is first in turn was polled, and the
/// service reports what it replied. The poll leaves a failure queued if and only if the reply was
/// one, with this endpoint and this failure. The time of the endpoint is what it was, or, where it
/// had passed and the endpoint declined to be ended, later by a time to live.
pub proof fn reply_is_reported<'a, S, E, TS, D>(
    pre: IOServiceView<S, E, TS, D>,
    asked: Asked<E, ()>,
    post: IOServiceView<S, E, TS, D>,
    result: Result<IOServiceEvent<E::Event<'a>>, IOServiceError>,
) where
    S: Selector + Selects<<S as Selector>::Target, E>,
    E: Endpoint<Target = S::Target> + 'a,
    TS: TimeSource,
    D: DnsResolver,

    requires
        pre.valid(),
        pre.disconnects.len() == 0,
        pre.polled(asked, post, result),
        result is Ok,
        result->Ok_0 is Data || result->Ok_0 is Idle,
    ensures
        exists|selector: S, nodes: IONodesView<S::Target, E>, ready: Result<(), io::Error>| {
            &&& #[trigger] S::polled(pre.selector, pre.nodes, selector, nodes, ready)
            &&& ready is Ok
            &&& nodes.valid()
            &&& post.selector == selector
            &&& if nodes.schedule().len() == 0 {
                &&& result == Ok::<_, IOServiceError>(IOServiceEvent::<E::Event<'a>>::Idle)
                &&& post.nodes == nodes
                &&& post.disconnects.len() == 0
            } else {
                let handle = Handle(nodes.schedule().first() as SelectorToken);
                let node = nodes.node(handle.0)->0;
                &&& nodes.node(handle.0) is Some
                &&& forall|other: SelectorToken|
                    other != handle.0 ==> #[trigger] post.nodes.node(other) == nodes.node(other)
                &&& post.nodes.schedule() == nodes.schedule().drop_first().push(
                    nodes.schedule().first(),
                )
                &&& {
                    ||| {
                        &&& pre.auto_disconnect is Some ==> exists|now_ns: u64| #[trigger]
                            pre.time_source.shows(now_ns) && now_ns <= node.disconnect_time_ns
                        &&& exists|
                            endpoint: E,
                            stream: S::Target,
                            reply: Result<Option<E::Event<'a>>, io::Error>,
                        | {
                            &&& #[trigger] E::polled(
                                node.endpoint.1,
                                node.stream,
                                endpoint,
                                stream,
                                reply,
                            )
                            &&& post.nodes.node(handle.0) matches Some(polled)
                            &&& polled.stream == stream
                            &&& polled.endpoint == (node.endpoint.0, endpoint)
                            &&& polled.ttl == node.ttl
                            &&& polled.disconnect_time_ns == node.disconnect_time_ns
                            &&& match reply {
                                Ok(Some(event)) => {
                                    &&& result == Ok::<_, IOServiceError>(
                                        IOServiceEvent::Data { handle, event },
                                    )
                                    &&& post.disconnects.len() == 0
                                },
                                Ok(None) => {
                                    &&& result == Ok::<_, IOServiceError>(
                                        IOServiceEvent::<E::Event<'a>>::Idle,
                                    )
                                    &&& post.disconnects.len() == 0
                                },
                                Err(source) => {
                                    &&& result == Ok::<_, IOServiceError>(
                                        IOServiceEvent::<E::Event<'a>>::Idle,
                                    )
                                    &&& post.disconnects.len() == 1
                                    &&& post.disconnects[0] == (
                                        handle,
                                        DisconnectReason::IO(source),
                                    )
                                },
                            }
                        }
                    }
                    ||| {
                        &&& pre.auto_disconnect matches Some(supplier)
                        &&& exists|now_ns: u64| #[trigger]
                            pre.time_source.shows(now_ns) && now_ns > node.disconnect_time_ns
                        &&& asked.auto_disconnect matches Some(question)
                        &&& question.endpoint == node.endpoint.1
                        &&& !question.answer
                        &&& exists|ttl: Duration| #[trigger] supplier.supplies(ttl) &&
                            exists|
                                endpoint: E,
                                stream: S::Target,
                                reply: Result<Option<E::Event<'a>>, io::Error>,
                            | {
                            &&& #[trigger] E::polled(
                                question.endpoint_post,
                                node.stream,
                                endpoint,
                                stream,
                                reply,
                            )
                            &&& post.nodes.node(handle.0) matches Some(polled)
                            &&& polled.stream == stream
                            &&& polled.endpoint == (node.endpoint.0, endpoint)
                            &&& polled.ttl == node.ttl
                            &&& ttl@ <= u64::MAX - node.disconnect_time_ns
                                ==> polled.disconnect_time_ns == node.disconnect_time_ns + ttl@
                            &&& u64::MAX - node.disconnect_time_ns < ttl@ <= u64::MAX
                                ==> polled.disconnect_time_ns == u64::MAX
                            &&& ttl@ > u64::MAX ==> {
                                let kept = ttl@ % 0x1_0000_0000_0000_0000;
                                polled.disconnect_time_ns == if node.disconnect_time_ns + kept
                                    <= u64::MAX {
                                    node.disconnect_time_ns + kept
                                } else {
                                    u64::MAX as int
                                }
                            }
                            &&& match reply {
                                Ok(Some(event)) => {
                                    &&& result == Ok::<_, IOServiceError>(
                                        IOServiceEvent::Data { handle, event },
                                    )
                                    &&& post.disconnects.len() == 0
                                },
                                Ok(None) => {
                                    &&& result == Ok::<_, IOServiceError>(
                                        IOServiceEvent::<E::Event<'a>>::Idle,
                                    )
                                    &&& post.disconnects.len() == 0
                                },
                                Err(source) => {
                                    &&& result == Ok::<_, IOServiceError>(
                                        IOServiceEvent::<E::Event<'a>>::Idle,
                                    )
                                    &&& post.disconnects.len() == 1
                                    &&& post.disconnects[0] == (
                                        handle,
                                        DisconnectReason::IO(source),
                                    )
                                },
                            }
                        }
                    }
                }
            }
        },
{
    attempt_leaves_the_rest(pre, asked, post, result);
    let mid = choose|mid: IOServiceView<S, E, TS, D>| {
        &&& #[trigger] mid.active_polled(asked, post, result)
        &&& mid == (IOServiceView {
            pending: mid.pending,
            next_create_ns: mid.next_create_ns,
            ..pre
        })
        &&& mid.pending.len() == pre.pending.len()
        &&& mid.pending == pre.pending || {
            &&& pre.pending.len() > 0
            &&& mid.pending.drop_last() == pre.pending.drop_first()
            &&& mid.pending.last().handle == pre.pending[0].handle
        }
    };
    next_endpoint_has_its_turn(mid, asked, post, result);
}

/// With no failure queued, a poll ends a connection for its age alone: the time of the endpoint
/// that is first in turn has passed, it agreed to be ended, and its answer on whether it can be
/// recreated tells whether it is reported as disconnected or as lost.
pub proof fn ended_for_age_by_consent<'a, S, E, TS, D>(
    pre: IOServiceView<S, E, TS, D>,
    asked: Asked<E, ()>,
    post: IOServiceView<S, E, TS, D>,
    result: Result<IOServiceEvent<E::Event<'a>>, IOServiceError>,
) where
    S: Selector + Selects<<S as Selector>::Target, E>,
    E: Endpoint<Target = S::Target> + 'a,
    TS: TimeSource,
    D: DnsResolver,

    requires
        pre.valid(),
        pre.disconnects.len() == 0,
        pre.polled(asked, post, result),
        match result {
            Ok(event) => event is Disconnected,
            Err(e) => e is EndpointNotRecreatable,
        },
    ensures
        post.disconnects.len() == 0,
        exists|selector: S, nodes: IONodesView<S::Target, E>, ready: Result<(), io::Error>| {
            let handle = Handle(nodes.schedule().first() as SelectorToken);
            let node = nodes.node(handle.0)->0;
            &&& #[trigger] S::polled(pre.selector, pre.nodes, selector, nodes, ready)
            &&& ready is Ok
            &&& nodes.schedule().len() > 0
            &&& nodes.node(handle.0) is Some
            &&& pre.auto_disconnect is Some
            &&& exists|now_ns: u64| #[trigger]
                pre.time_source.shows(now_ns) && now_ns > node.disconnect_time_ns
            &&& asked.auto_disconnect matches Some(question)
            &&& question.endpoint == node.endpoint.1
            &&& question.answer
            &&& asked.recreate matches Some(next)
            &&& next.endpoint == question.endpoint_post
            &&& next.reason == DisconnectReason::AutoDisconnect(node.ttl)
            &&& post.nodes.node(handle.0) is None
            &&& forall|other: SelectorToken|
                other != handle.0 ==> #[trigger] post.nodes.node(other) == nodes.node(other)
            &&& exists|node_post: IONode<S::Target, E>, reply: Result<(), io::Error>| {
                &&& #[trigger] S::unregistered(
                    selector,
                    IONode { endpoint: (node.endpoint.0, next.endpoint_post), ..node },
                    post.selector,
                    node_post,
                    reply,
                )
                &&& reply is Ok
                &&& if next.answer {
                    &&& result == Ok::<_, IOServiceError>(
                        IOServiceEvent::<E::Event<'a>>::Disconnected {
                            handle,
                            reason: next.reason,
                        },
                    )
                    &&& post.pending.len() == pre.pending.len() + 1
                    &&& post.pending.last().handle == handle
                    &&& post.pending.last().endpoint == node_post.endpoint.1
                } else {
                    &&& result == Err::<IOServiceEvent<E::Event<'a>>, _>(
                        IOServiceError::EndpointNotRecreatable { handle, reason: next.reason },
                    )
                    &&& post.pending.len() == pre.pending.len()
                }
            }
        },
{
    attempt_leaves_the_rest(pre, asked, post, result);
    let mid = choose|mid: IOServiceView<S, E, TS, D>| {
        &&& #[trigger] mid.active_polled(asked, post, result)
        &&& mid == (IOServiceView {
            pending: mid.pending,
            next_create_ns: mid.next_create_ns,
            ..pre
        })
        &&& mid.pending.len() == pre.pending.len()
        &&& mid.pending == pre.pending || {
            &&& pre.pending.len() > 0
            &&& mid.pending.drop_last() == pre.pending.drop_first()
            &&& mid.pending.last().handle == pre.pending[0].handle
        }
    };
    next_endpoint_has_its_turn(mid, asked, post, result);
}

/// The answer of an endpoint on whether it can be recreated decides what becomes of it: it is
/// reported as disconnected, and waits again, only if the answer was yes; it is reported as lost,
/// and is neither active nor pending any more, only if the answer was no.
pub proof fn answer_decides_recreation<'a, S, E, TS, D>(
    pre: IOServiceView<S, E, TS, D>,
    asked: Asked<E, ()>,
    post: IOServiceView<S, E, TS, D>,
    result: Result<IOServiceEvent<E::Event<'a>>, IOServiceError>,
) where
    S: Selector + Selects<<S as Selector>::Target, E>,
    E: Endpoint<Target = S::Target> + 'a,
    TS: TimeSource,
    D: DnsResolver,

    requires
        pre.valid(),
        pre.polled(asked, post, result),
    ensures
        result matches Ok(IOServiceEvent::Disconnected { handle, reason }) ==> {
            &&& asked.recreate matches Some(question)
            &&& question.answer
            &&& question.reason == reason
            &&& post.nodes.node(handle.0) is None
            &&& post.pending.len() == pre.pending.len() + 1
            &&& post.pending.last().handle == handle
        },
        result matches Err(IOServiceError::EndpointNotRecreatable { handle, reason }) ==> {
            &&& asked.recreate matches Some(question)
            &&& !question.answer
            &&& question.reason == reason
            &&& post.nodes.node(handle.0) is None
            &&& post.pending.len() == pre.pending.len()
            &&& (forall|i: int|
                0 <= i < pre.pending.len() ==> (#[trigger] pre.pending[i]).handle != handle)
                ==> forall|i: int|
                0 <= i < post.pending.len() ==> (#[trigger] post.pending[i]).handle != handle
        },
{
    if pre.disconnects.len() > 0 {
        queued_failure_goes_by_the_answer(pre, asked, post, result);
    } else if match result {
        Ok(event) => event is Disconnected,
        Err(e) => e is EndpointNotRecreatable,
    } {
        attempt_leaves_the_rest(pre, asked, post, result);
        let mid = choose|mid: IOServiceView<S, E, TS, D>| {
            &&& #[trigger] mid.active_polled(asked, post, result)
            &&& mid == (IOServiceView {
                pending: mid.pending,
                next_create_ns: mid.next_create_ns,
                ..pre
            })
            &&& mid.pending.len() == pre.pending.len()
            &&& mid.pending == pre.pending || {
                &&& pre.pending.len() > 0
                &&& mid.pending.drop_last() == pre.pending.drop_first()
                &&& mid.pending.last().handle == pre.pending[0].handle
            }
        };
        next_endpoint_has_its_turn(mid, asked, post, result);
        if mid.pending != pre.pending {
            assert forall|i: int| 0 <= i < mid.pending.len() implies exists|j: int|
                0 <= j < pre.pending.len() && (#[trigger] pre.pending[j]).handle == (
                #[trigger] mid.pending[i]).handle by {
                if i < mid.pending.len() - 1 {
                    assert(mid.pending.drop_last()[i] == pre.pending.drop_first()[i]);
                    assert(pre.pending[i + 1].handle == mid.pending[i].handle);
                } else {
                    assert(pre.pending[0].handle == mid.pending[i].handle);
                }
            }
        }
    }
}

/// A poll that connects an endpoint connects the one that has waited longest. Its query answered
/// with at least one address, and the target was created with the first of these, whatever it is.
pub proof fn connected_to_first_address<'a, S, E, TS, D>(
    pre: IOServiceView<S, E, TS, D>,
    asked: Asked<E, ()>,
    post: IOServiceView<S, E, TS, D>,
    result: Result<IOServiceEvent<E::Event<'a>>, IOServiceError>,
) where
    S: Selector + Selects<<S as Selector>::Target, E>,
    E: Endpoint<Target = S::Target> + 'a,
    TS: TimeSource,
    D: DnsResolver,

    requires
        pre.valid(),
        pre.polled(asked, post, result),
        result is Ok,
        result->Ok_0 is Connected,
    ensures
        pre.disconnects.len() == 0,
        pre.pending.len() > 0,
        result == Ok::<_, IOServiceError>(
            IOServiceEvent::<E::Event<'a>>::Connected { handle: pre.pending[0].handle },
        ),
        post.pending == pre.pending.drop_first(),
        exists|query: D::Query, answer: Result<Vec<SocketAddr>, io::Error>| {
            &&& #[trigger] D::Query::polled(pre.pending[0].query, query, answer)
            &&& answer matches Ok(addrs)
            &&& addrs@.len() > 0
            &&& exists|endpoint: E, target: Result<Option<S::Target>, io::Error>| {
                &&& #[trigger] E::created(pre.pending[0].endpoint, addrs@[0], endpoint, target)
                &&& target is Ok
                &&& target->Ok_0 is Some

            }
        },
{
    if pre.disconnects.len() > 0 {
        queued_failure_goes_by_the_answer(pre, asked, post, result);
    } else {
        poll_connects_before_it_serves(pre, asked, post, result);
        if pre.pending.len() == 0 {
            next_endpoint_has_its_turn(pre, asked, post, result);
        } else {
            let (now_ns, checked, due) = choose|
                now_ns: u64,
                checked: IOServiceView<S, E, TS, D>,
                due: Result<Option<DueEndpoint<E>>, IOServiceError>,
            | {
                &&& pre.time_source.shows(now_ns)
                &&& #[trigger] pre.pending_checked_at(now_ns, checked, due)
                &&& match due {
                    Err(e) => {
                        &&& result == Err::<IOServiceEvent<E::Event<'a>>, _>(e)
                        &&& post == checked
                    },
                    Ok(None) => checked.active_polled(asked, post, result),
                    Ok(Some(due)) => exists|
                        endpoint: E,
                        target: Result<Option<S::Target>, io::Error>,
                        connected: IOServiceView<S, E, TS, D>,
                        reply: Result<Option<Handle>, IOServiceError>,
                    | {
                        &&& #[trigger] E::created(due.endpoint, due.addr, endpoint, target)
                        &&& #[trigger] checked.connected(
                            due.handle,
                            endpoint,
                            due.now_ns,
                            target,
                            connected,
                            reply,
                        )
                        &&& match reply {
                            Err(e) => {
                                &&& result == Err::<IOServiceEvent<E::Event<'a>>, _>(e)
                                &&& post == connected
                            },
                            Ok(Some(handle)) => {
                                &&& result == Ok::<_, IOServiceError>(
                                    IOServiceEvent::<E::Event<'a>>::Connected { handle },
                                )
                                &&& post == connected
                            },
                            Ok(None) => connected.active_polled(asked, post, result),
                        }
                    },
                }
            };
            crate::service::lifecycle_laws::attempt_goes_by_the_answer(pre, now_ns, checked, due);
            assert(pre.pending.first() == pre.pending[0]);
            if let Ok(Some(due)) = due {
                let (endpoint, target, connected, reply) = choose|
                    endpoint: E,
                    target: Result<Option<S::Target>, io::Error>,
                    connected: IOServiceView<S, E, TS, D>,
                    reply: Result<Option<Handle>, IOServiceError>,
                | {
                    &&& #[trigger] E::created(due.endpoint, due.addr, endpoint, target)
                    &&& #[trigger] checked.connected(
                        due.handle,
                        endpoint,
                        due.now_ns,
                        target,
                        connected,
                        reply,
                    )
                    &&& match reply {
                        Err(e) => {
                            &&& result == Err::<IOServiceEvent<E::Event<'a>>, _>(e)
                            &&& post == connected
                        },
                        Ok(Some(handle)) => {
                            &&& result == Ok::<_, IOServiceError>(
                                IOServiceEvent::<E::Event<'a>>::Connected { handle },
                            )
                            &&& post == connected
                        },
                        Ok(None) => connected.active_polled(asked, post, result),
                    }
                };
                crate::service::lifecycle_laws::connection_goes_by_the_target(
                    checked,
                    due.handle,
                    endpoint,
                    due.now_ns,
                    target,
                    connected,
                    reply,
                );
                if reply == Ok::<Option<Handle>, IOServiceError>(None) {
                    next_endpoint_has_its_turn(connected, asked, post, result);
                }
            } else if due is Ok {
                next_endpoint_has_its_turn(checked, asked, post, result);
            }
        }
    }
}

/// If it is time for an attempt, and the query of the endpoint that has waited longest is not too
/// late and can only answer with addresses, then a poll has this endpoint create a target with the
/// first address of the answer, whatever it is, and ends as that went.
pub proof fn first_address_is_handed_on<'a, S, E, TS, D>(
    pre: IOServiceView<S, E, TS, D>,
    asked: Asked<E, ()>,
    post: IOServiceView<S, E, TS, D>,
    result: Result<IOServiceEvent<E::Event<'a>>, IOServiceError>,
) where
    S: Selector + Selects<<S as Selector>::Target, E>,
    E: Endpoint<Target = S::Target> + 'a,
    TS: TimeSource,
    D: DnsResolver,

    requires
        pre.valid(),
        pre.disconnects.len() == 0,
        pre.pending.len() > 0,
        forall|now_ns: u64| #[trigger]
            pre.time_source.shows(now_ns) ==> {
                &&& now_ns > pre.next_create_ns
                &&& pre.dns_query_timeout_ns matches Some(timeout_ns) ==> now_ns
                    <= pre.pending[0].created_ns + timeout_ns
            },
        forall|query: D::Query, answer: Result<Vec<SocketAddr>, io::Error>| #[trigger]
            D::Query::polled(pre.pending[0].query, query, answer) ==> answer is Ok
                && answer->Ok_0@.len() > 0,
        pre.polled(asked, post, result),
    ensures
        exists|query: D::Query, answer: Result<Vec<SocketAddr>, io::Error>| {
            &&& #[trigger] D::Query::polled(pre.pending[0].query, query, answer)
            &&& exists|endpoint: E, target: Result<Option<S::Target>, io::Error>| {
                &&& #[trigger] E::created(
                    pre.pending[0].endpoint,
                    answer->Ok_0@[0],
                    endpoint,
                    target,
                )
                &&& match target {
                    Err(source) => result == Err::<IOServiceEvent<E::Event<'a>>, _>(
                        IOServiceError::Io {
                            handle: Some(pre.pending[0].handle),
                            operation: IOServiceOperation::CreateTarget,
                            source,
                        },
                    ),
                    Ok(None) => !(result is Ok && result->Ok_0 is Connected),
                    Ok(Some(_)) => match result {
                        Ok(event) => event == IOServiceEvent::<E::Event<'a>>::Connected {
                            handle: pre.pending[0].handle,
                        },
                        Err(IOServiceError::Io { handle, operation, source }) => {
                            &&& handle == Some(pre.pending[0].handle)
                            &&& operation == IOServiceOperation::Register
                        },
                        Err(e) => e is InvalidState,
                    },
                }
            }
        },
{
    poll_connects_before_it_serves(pre, asked, post, result);
    let (now_ns, checked, due) = choose|
        now_ns: u64,
        checked: IOServiceView<S, E, TS, D>,
        due: Result<Option<DueEndpoint<E>>, IOServiceError>,
    | {
        &&& pre.time_source.shows(now_ns)
        &&& #[trigger] pre.pending_checked_at(now_ns, checked, due)
        &&& match due {
            Err(e) => {
                &&& result == Err::<IOServiceEvent<E::Event<'a>>, _>(e)
                &&& post == checked
            },
            Ok(None) => checked.active_polled(asked, post, result),
            Ok(Some(due)) => exists|
                endpoint: E,
                target: Result<Option<S::Target>, io::Error>,
                connected: IOServiceView<S, E, TS, D>,
                reply: Result<Option<Handle>, IOServiceError>,
            | {
                &&& #[trigger] E::created(due.endpoint, due.addr, endpoint, target)
                &&& #[trigger] checked.connected(
                    due.handle,
                    endpoint,
                    due.now_ns,
                    target,
                    connected,
                    reply,
                )
                &&& match reply {
                    Err(e) => {
                        &&& result == Err::<IOServiceEvent<E::Event<'a>>, _>(e)
                        &&& post == connected
                    },
                    Ok(Some(handle)) => {
                        &&& result == Ok::<_, IOServiceError>(
                            IOServiceEvent::<E::Event<'a>>::Connected { handle },
                        )
                        &&& post == connected
                    },
                    Ok(None) => connected.active_polled(asked, post, result),
                }
            },
        }
    };
    crate::service::lifecycle_laws::attempt_goes_by_the_answer(pre, now_ns, checked, due);
    assert(pre.pending.first() == pre.pending[0]);
    let due = due->Ok_0->0;
    let (endpoint, target, connected, reply) = choose|
        endpoint: E,
        target: Result<Option<S::Target>, io::Error>,
        connected: IOServiceView<S, E, TS, D>,
        reply: Result<Option<Handle>, IOServiceError>,
    | {
        &&& #[trigger] E::created(due.endpoint, due.addr, endpoint, target)
        &&& #[trigger] checked.connected(
            due.handle,
            endpoint,
            due.now_ns,
            target,
            connected,
            reply,
        )
        &&& match reply {
            Err(e) => {
                &&& result == Err::<IOServiceEvent<E::Event<'a>>, _>(e)
                &&& post == connected
            },
            Ok(Some(handle)) => {
                &&& result == Ok::<_, IOServiceError>(
                    IOServiceEvent::<E::Event<'a>>::Connected { handle },
                )
                &&& post == connected
            },
            Ok(None) => connected.active_polled(asked, post, result),
        }
    };
    crate::service::lifecycle_laws::connection_goes_by_the_target(
        checked,
        due.handle,
        endpoint,
        due.now_ns,
        target,
        connected,
        reply,
    );
    if reply == Ok::<Option<Handle>, IOServiceError>(None) {
        next_endpoint_has_its_turn(connected, asked, post, result);
    }
}

/// An endpoint that declined to be ended is left alone: in any later turn of it, as long as the
/// time is no later than the time at which it was due and the time to live that was supplied, it is
/// polled and stays active.
pub proof fn put_off_connection_stays<'a, S, E, TS, D>(
    pre: IOServiceView<S, E, TS, D>,
    handle: Handle,
    asked: Asked<E, ()>,
    mid: IOServiceView<S, E, TS, D>,
    result: Result<IOServiceEvent<E::Event<'a>>, IOServiceError>,
    ttl_ns: nat,
    late: IOServiceView<S, E, TS, D>,
    asked_late: Asked<E, ()>,
    post: IOServiceView<S, E, TS, D>,
    result_late: Result<IOServiceEvent<E::Event<'a>>, IOServiceError>,
) where
    S: Selector + Selects<<S as Selector>::Target, E>,
    E: Endpoint<Target = S::Target> + 'a,
    TS: TimeSource,
    D: DnsResolver,

    requires
        pre.nodes.valid(),
        pre.nodes.node(handle.0) is Some,
        pre.disconnects.len() == 0,
        pre.auto_disconnect matches Some(supplier) && forall|ttl: Duration| #[trigger]
            supplier.supplies(ttl) ==> ttl_ns <= ttl@ <= u64::MAX,
        forall|now_ns: u64| #[trigger]
            pre.time_source.shows(now_ns) ==> now_ns > pre.nodes.node(
                handle.0,
            )->0.disconnect_time_ns,
        pre.turn_taken(handle, asked, mid, result),
        asked.auto_disconnect matches Some(question) && !question.answer,
        late.nodes.valid(),
        late.disconnects.len() == 0,
        late.nodes.node(handle.0) == mid.nodes.node(handle.0),
        late.auto_disconnect == pre.auto_disconnect,
        forall|now_ns: u64| #[trigger]
            late.time_source.shows(now_ns) ==> now_ns <= pre.nodes.node(
                handle.0,
            )->0.disconnect_time_ns + ttl_ns,
        late.turn_taken(handle, asked_late, post, result_late),
    ensures
        result_late is Ok,
        result_late->Ok_0 is Data || result_late->Ok_0 is Idle,
        post.nodes.node(handle.0) is Some,
        post.nodes.node(handle.0)->0.disconnect_time_ns == mid.nodes.node(
            handle.0,
        )->0.disconnect_time_ns,
{
    turn_goes_by_the_answers(pre, handle, asked, mid, result);
    turn_goes_by_the_answers(late, handle, asked_late, post, result_late);
}

} // verus!
