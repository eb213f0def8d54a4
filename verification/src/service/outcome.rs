//! What polling the service may end in, whatever the endpoints do.

use vstd::prelude::*;

use crate::io;
use crate::service::dns::DnsResolver;
use crate::service::endpoint::{DisconnectReason, Endpoint, EndpointWithContext};
use crate::service::error::{IOServiceError, IOServiceOperation};
use crate::service::model::{Asked, DueEndpoint, IOServiceView};
use crate::service::node::{IONode, IONodesView};
use crate::service::select::{Selector, SelectorToken, Selects};
use crate::service::time::TimeSource;
use crate::service::{Handle, IOServiceEvent};
use crate::stream::ConnectionInfoProvider;

verus! {

impl<S, E, TS, D> IOServiceView<S, E, TS, D> where
    S: Selector + Selects<<S as Selector>::Target, E>,
    E: ConnectionInfoProvider,
    TS: TimeSource,
    D: DnsResolver,
 {
    /// Polling the active endpoint `handle` may end in `post` and `result`, whatever the endpoint
    /// does.
    pub open spec fn endpoint_outcome<V>(
        self,
        handle: Handle,
        post: Self,
        result: Result<IOServiceEvent<V>, IOServiceError>,
    ) -> bool {
        exists|node: IONode<S::Target, E>|
            {
                let polled = #[trigger] self.with_node(handle, node);
                &&& node.endpoint.0 == self.nodes.node(handle.0)->0.endpoint.0
                &&& match result {
                    Ok(IOServiceEvent::Data { handle: h, event }) => h == handle && post == polled,
                    Ok(IOServiceEvent::Idle) => {
                        ||| post == polled
                        ||| {
                            &&& post.disconnects.len() == self.disconnects.len() + 1
                            &&& post.disconnects.drop_last() == self.disconnects
                            &&& post.disconnects.last().0 == handle
                            &&& post.disconnects.last().1 is IO
                            &&& post == IOServiceView { disconnects: post.disconnects, ..polled }
                        }
                    },
                    _ => false,
                }
            }
    }

    /// The turn of the active endpoint `handle` may end in `post` and `result`, whatever the
    /// endpoint does.
    pub open spec fn turn_outcome<V>(
        self,
        handle: Handle,
        post: Self,
        result: Result<IOServiceEvent<V>, IOServiceError>,
    ) -> bool {
        ||| self.endpoint_outcome(handle, post, result)
        ||| {
            &&& self.auto_disconnect is Some
            &&& exists|now_ns: u64| #[trigger]
                self.time_source.shows(now_ns) && now_ns > self.nodes.node(
                    handle.0,
                )->0.disconnect_time_ns
            &&& exists|endpoint: E, answer: bool| #[trigger]
                self.with_endpoint(handle, endpoint).disconnected(
                    handle,
                    DisconnectReason::AutoDisconnect(self.nodes.node(handle.0)->0.ttl),
                    answer,
                    post,
                    result,
                )
        }
    }

    /// Polling the selector and then the next active endpoint may end in `post` and `result`,
    /// whatever the endpoint does.
    pub open spec fn active_outcome<V>(
        self,
        post: Self,
        result: Result<IOServiceEvent<V>, IOServiceError>,
    ) -> bool {
        exists|selector: S, nodes: IONodesView<S::Target, E>, reply: Result<(), io::Error>|
            {
                let ready = IOServiceView { selector, nodes, ..self };
                &&& nodes.valid()
                &&& #[trigger] S::polled(self.selector, self.nodes, selector, nodes, reply)
                &&& match reply {
                    Err(source) => {
                        &&& result == Err::<IOServiceEvent<V>, _>(
                            IOServiceError::Io {
                                handle: None,
                                operation: IOServiceOperation::PollSelector,
                                source,
                            },
                        )
                        &&& post == ready
                    },
                    Ok(()) => if nodes.schedule().len() == 0 {
                        &&& result == Ok::<_, IOServiceError>(IOServiceEvent::<V>::Idle)
                        &&& post == ready
                    } else {
                        let token = nodes.schedule().first() as SelectorToken;
                        (IOServiceView { nodes: nodes.advanced(token), ..ready }).turn_outcome(
                            Handle(token),
                            post,
                            result,
                        )
                    },
                }
            }
    }

    /// Polling the service may end in `post` and `result`, whatever the endpoints do.
    pub open spec fn poll_outcome<V>(
        self,
        post: Self,
        result: Result<IOServiceEvent<V>, IOServiceError>,
    ) -> bool {
        if self.disconnects.len() > 0 {
            let (handle, reason) = self.disconnects.first();
            let rest = IOServiceView { disconnects: self.disconnects.drop_first(), ..self };
            exists|endpoint: E, answer: bool| #[trigger]
                rest.with_endpoint(handle, endpoint).disconnected(
                    handle,
                    reason,
                    answer,
                    post,
                    result,
                )
        } else if self.pending.len() > 0 {
            exists|checked: Self, due: Result<Option<DueEndpoint<E>>, IOServiceError>|
                {
                    &&& #[trigger] self.pending_checked(checked, due)
                    &&& match due {
                        Err(e) => result == Err::<IOServiceEvent<V>, _>(e) && post == checked,
                        Ok(None) => checked.active_outcome(post, result),
                        Ok(Some(due)) => exists|
                            endpoint: E,
                            target: Result<Option<S::Target>, io::Error>,
                            connected: Self,
                            reply: Result<Option<Handle>, IOServiceError>,
                        |
                            {
                                &&& #[trigger] checked.connected(
                                    due.handle,
                                    endpoint,
                                    due.now_ns,
                                    target,
                                    connected,
                                    reply,
                                )
                                &&& match reply {
                                    Err(e) => {
                                        &&& result == Err::<IOServiceEvent<V>, _>(e)
                                        &&& post == connected
                                    },
                                    Ok(Some(handle)) => {
                                        &&& result == Ok::<_, IOServiceError>(
                                            IOServiceEvent::<V>::Connected { handle },
                                        )
                                        &&& post == connected
                                    },
                                    Ok(None) => connected.active_outcome(post, result),
                                }
                            },
                    }
                }
        } else {
            self.active_outcome(post, result)
        }
    }
}

/// Moving the time at which an endpoint is due makes no difference to what polling it may end in.
proof fn due_time_is_no_matter<S, E, TS, D, V>(
    pre: IOServiceView<S, E, TS, D>,
    handle: Handle,
    node: IONode<S::Target, E>,
    post: IOServiceView<S, E, TS, D>,
    result: Result<IOServiceEvent<V>, IOServiceError>,
) where
    S: Selector + Selects<<S as Selector>::Target, E>,
    E: ConnectionInfoProvider,
    TS: TimeSource,
    D: DnsResolver,

    requires
        pre.nodes.node(handle.0) is Some,
        node.endpoint.0 == pre.nodes.node(handle.0)->0.endpoint.0,
        pre.with_node(handle, node).endpoint_outcome(handle, post, result),
    ensures
        pre.endpoint_outcome(handle, post, result),
{
    let other = pre.with_node(handle, node);
    assert forall|next: IONode<S::Target, E>| #[trigger]
        other.with_node(handle, next) == pre.with_node(handle, next) by {
        assert(other.nodes.slots.update(handle.0 as int, Some(next)) == pre.nodes.slots.update(
            handle.0 as int,
            Some(next),
        ));
    }
}

proof fn endpoint_has_outcome<'a, S, E, TS, D>(
    pre: IOServiceView<S, E, TS, D>,
    handle: Handle,
    post: IOServiceView<S, E, TS, D>,
    result: Result<IOServiceEvent<E::Event<'a>>, IOServiceError>,
) where
    S: Selector + Selects<<S as Selector>::Target, E>,
    E: Endpoint<Target = S::Target> + 'a,
    TS: TimeSource,
    D: DnsResolver,

    requires
        pre.endpoint_polled(handle, post, result),
    ensures
        pre.endpoint_outcome(handle, post, result),
{
    let node = pre.nodes.node(handle.0)->0;
    let (endpoint, stream, reply) = choose|
        endpoint: E,
        stream: S::Target,
        reply: Result<Option<E::Event<'a>>, io::Error>,
    |
        {
            let polled = pre.with_node(handle, IONode { stream, ..node.with_endpoint(endpoint) });
            &&& #[trigger] E::polled(node.endpoint.1, node.stream, endpoint, stream, reply)
            &&& match reply {
                Ok(Some(event)) => {
                    &&& result == Ok::<_, IOServiceError>(IOServiceEvent::Data { handle, event })
                    &&& post == polled
                },
                Ok(None) => {
                    &&& result == Ok::<_, IOServiceError>(IOServiceEvent::<E::Event<'a>>::Idle)
                    &&& post == polled
                },
                Err(source) => {
                    &&& result == Ok::<_, IOServiceError>(IOServiceEvent::<E::Event<'a>>::Idle)
                    &&& post == IOServiceView {
                        disconnects: polled.disconnects.push(
                            (handle, DisconnectReason::IO(source)),
                        ),
                        ..polled
                    }
                },
            }
        };
    let polled = pre.with_node(handle, IONode { stream, ..node.with_endpoint(endpoint) });
    if reply is Err {
        assert(post.disconnects.drop_last() == pre.disconnects);
    }
}

proof fn turn_has_outcome<'a, S, E, TS, D>(
    pre: IOServiceView<S, E, TS, D>,
    handle: Handle,
    asked: Asked<E, ()>,
    post: IOServiceView<S, E, TS, D>,
    result: Result<IOServiceEvent<E::Event<'a>>, IOServiceError>,
) where
    S: Selector + Selects<<S as Selector>::Target, E>,
    E: Endpoint<Target = S::Target> + 'a,
    TS: TimeSource,
    D: DnsResolver,

    requires
        pre.turn_taken(handle, asked, post, result),
        pre.nodes.node(handle.0) is Some,
    ensures
        pre.turn_outcome(handle, post, result),
{
    let node = pre.nodes.node(handle.0)->0;
    if pre.endpoint_polled(handle, post, result) {
        endpoint_has_outcome(pre, handle, post, result);
    } else {
        let question = asked.auto_disconnect->0;
        if !question.answer {
            let ttl = choose|ttl: crate::service::time::Duration| #[trigger]
                pre.auto_disconnect->0.supplies(ttl) && pre.with_node(
                    handle,
                    IONode {
                        disconnect_time_ns: crate::service::time::time_after(
                            node.disconnect_time_ns,
                            crate::service::time::low_64_bits(ttl@),
                        ),
                        ..node.with_endpoint(question.endpoint_post)
                    },
                ).endpoint_polled(handle, post, result);
            let extended = IONode {
                disconnect_time_ns: crate::service::time::time_after(
                    node.disconnect_time_ns,
                    crate::service::time::low_64_bits(ttl@),
                ),
                ..node.with_endpoint(question.endpoint_post)
            };
            endpoint_has_outcome(pre.with_node(handle, extended), handle, post, result);
            due_time_is_no_matter(pre, handle, extended, post, result);
        }
    }
}

proof fn active_has_outcome<'a, S, E, TS, D>(
    pre: IOServiceView<S, E, TS, D>,
    asked: Asked<E, ()>,
    post: IOServiceView<S, E, TS, D>,
    result: Result<IOServiceEvent<E::Event<'a>>, IOServiceError>,
) where
    S: Selector + Selects<<S as Selector>::Target, E>,
    E: Endpoint<Target = S::Target> + 'a,
    TS: TimeSource,
    D: DnsResolver,

    requires
        pre.active_polled(asked, post, result),
    ensures
        pre.active_outcome(post, result),
{
    let (selector, nodes, reply) = choose|
        selector: S,
        nodes: IONodesView<S::Target, E>,
        reply: Result<(), io::Error>,
    |
        {
            let ready = IOServiceView { selector, nodes, ..pre };
            &&& nodes.valid()
            &&& #[trigger] S::polled(pre.selector, pre.nodes, selector, nodes, reply)
            &&& match reply {
                Err(source) => {
                    &&& result == Err::<IOServiceEvent<E::Event<'a>>, _>(
                        IOServiceError::Io {
                            handle: None,
                            operation: IOServiceOperation::PollSelector,
                            source,
                        },
                    )
                    &&& post == ready
                },
                Ok(()) => if nodes.schedule().len() == 0 {
                    &&& result == Ok::<_, IOServiceError>(IOServiceEvent::<E::Event<'a>>::Idle)
                    &&& post == ready
                } else {
                    let token = nodes.schedule().first() as SelectorToken;
                    (IOServiceView { nodes: nodes.advanced(token), ..ready }).turn_taken(
                        Handle(token),
                        asked,
                        post,
                        result,
                    )
                },
            }
        };
    if reply is Ok && nodes.schedule().len() > 0 {
        let token = nodes.schedule().first() as SelectorToken;
        crate::service::storage_laws::advancing_rotates(nodes);
        turn_has_outcome(
            IOServiceView { selector, nodes: nodes.advanced(token), ..pre },
            Handle(token),
            asked,
            post,
            result,
        );
    }
}

/// What a poll does is one of its outcomes.
pub proof fn poll_has_outcome<'a, S, E, TS, D>(
    pre: IOServiceView<S, E, TS, D>,
    asked: Asked<E, ()>,
    post: IOServiceView<S, E, TS, D>,
    result: Result<IOServiceEvent<E::Event<'a>>, IOServiceError>,
) where
    S: Selector + Selects<<S as Selector>::Target, E>,
    E: Endpoint<Target = S::Target> + 'a,
    TS: TimeSource,
    D: DnsResolver,

    requires
        pre.valid(),
        pre.polled(asked, post, result),
    ensures
        pre.poll_outcome(post, result),
{
    assert forall|state: IOServiceView<S, E, TS, D>| #[trigger]
        state.active_polled(asked, post, result) implies state.active_outcome(post, result) by {
        active_has_outcome(state, asked, post, result);
    }
    if pre.disconnects.len() > 0 {
        assert(pre.nodes.node(pre.disconnects[0].0.0) is Some);
    }
}

proof fn endpoint_with_context_has_outcome<'a, S, E, C, TS, D>(
    pre: IOServiceView<S, E, TS, D>,
    handle: Handle,
    context: C,
    post: IOServiceView<S, E, TS, D>,
    context_post: C,
    result: Result<IOServiceEvent<E::Event<'a>>, IOServiceError>,
) where
    S: Selector + Selects<<S as Selector>::Target, E>,
    C: 'a,
    E: EndpointWithContext<C, Target = S::Target> + 'a,
    TS: TimeSource,
    D: DnsResolver,

    requires
        pre.endpoint_polled_with(handle, context, post, context_post, result),
    ensures
        pre.endpoint_outcome(handle, post, result),
{
    let node = pre.nodes.node(handle.0)->0;
    let (endpoint, stream, reply) = choose|
        endpoint: E,
        stream: S::Target,
        reply: Result<Option<E::Event<'a>>, io::Error>,
    |
        {
            let polled = pre.with_node(handle, IONode { stream, ..node.with_endpoint(endpoint) });
            &&& #[trigger] E::polled(
                node.endpoint.1,
                node.stream,
                context,
                endpoint,
                stream,
                context_post,
                reply,
            )
            &&& match reply {
                Ok(Some(event)) => {
                    &&& result == Ok::<_, IOServiceError>(IOServiceEvent::Data { handle, event })
                    &&& post == polled
                },
                Ok(None) => {
                    &&& result == Ok::<_, IOServiceError>(IOServiceEvent::<E::Event<'a>>::Idle)
                    &&& post == polled
                },
                Err(source) => {
                    &&& result == Ok::<_, IOServiceError>(IOServiceEvent::<E::Event<'a>>::Idle)
                    &&& post == IOServiceView {
                        disconnects: polled.disconnects.push(
                            (handle, DisconnectReason::IO(source)),
                        ),
                        ..polled
                    }
                },
            }
        };
    let polled = pre.with_node(handle, IONode { stream, ..node.with_endpoint(endpoint) });
    if reply is Err {
        assert(post.disconnects.drop_last() == pre.disconnects);
    }
}

proof fn turn_with_context_has_outcome<'a, S, E, C, TS, D>(
    pre: IOServiceView<S, E, TS, D>,
    handle: Handle,
    context: C,
    asked: Asked<E, C>,
    post: IOServiceView<S, E, TS, D>,
    context_post: C,
    result: Result<IOServiceEvent<E::Event<'a>>, IOServiceError>,
) where
    S: Selector + Selects<<S as Selector>::Target, E>,
    C: 'a,
    E: EndpointWithContext<C, Target = S::Target> + 'a,
    TS: TimeSource,
    D: DnsResolver,

    requires
        pre.turn_taken_with(handle, context, asked, post, context_post, result),
        pre.nodes.node(handle.0) is Some,
    ensures
        pre.turn_outcome(handle, post, result),
{
    let node = pre.nodes.node(handle.0)->0;
    if pre.endpoint_polled_with(handle, context, post, context_post, result) {
        endpoint_with_context_has_outcome(
            pre,
            handle,
            context,
            post,
            context_post,
            result,
        );
    } else {
        let question = asked.auto_disconnect->0;
        if !question.answer {
            let ttl = choose|ttl: crate::service::time::Duration| #[trigger]
                pre.auto_disconnect->0.supplies(ttl) && pre.with_node(
                    handle,
                    IONode {
                        disconnect_time_ns: crate::service::time::time_after(
                            node.disconnect_time_ns,
                            crate::service::time::low_64_bits(ttl@),
                        ),
                        ..node.with_endpoint(question.endpoint_post)
                    },
                ).endpoint_polled_with(
                    handle,
                    question.context_post,
                    post,
                    context_post,
                    result,
                );
            let extended = IONode {
                disconnect_time_ns: crate::service::time::time_after(
                    node.disconnect_time_ns,
                    crate::service::time::low_64_bits(ttl@),
                ),
                ..node.with_endpoint(question.endpoint_post)
            };
            endpoint_with_context_has_outcome(
                pre.with_node(handle, extended),
                handle,
                question.context_post,
                post,
                context_post,
                result,
            );
            due_time_is_no_matter(pre, handle, extended, post, result);
        }
    }
}

proof fn active_with_context_has_outcome<'a, S, E, C, TS, D>(
    pre: IOServiceView<S, E, TS, D>,
    context: C,
    asked: Asked<E, C>,
    post: IOServiceView<S, E, TS, D>,
    context_post: C,
    result: Result<IOServiceEvent<E::Event<'a>>, IOServiceError>,
) where
    S: Selector + Selects<<S as Selector>::Target, E>,
    C: 'a,
    E: EndpointWithContext<C, Target = S::Target> + 'a,
    TS: TimeSource,
    D: DnsResolver,

    requires
        pre.active_polled_with(context, asked, post, context_post, result),
    ensures
        pre.active_outcome(post, result),
{
    let (selector, nodes, reply) = choose|
        selector: S,
        nodes: IONodesView<S::Target, E>,
        reply: Result<(), io::Error>,
    |
        {
            let ready = IOServiceView { selector, nodes, ..pre };
            &&& nodes.valid()
            &&& #[trigger] S::polled(pre.selector, pre.nodes, selector, nodes, reply)
            &&& match reply {
                Err(source) => {
                    &&& result == Err::<IOServiceEvent<E::Event<'a>>, _>(
                        IOServiceError::Io {
                            handle: None,
                            operation: IOServiceOperation::PollSelector,
                            source,
                        },
                    )
                    &&& post == ready
                    &&& context_post == context
                },
                Ok(()) => if nodes.schedule().len() == 0 {
                    &&& result == Ok::<_, IOServiceError>(IOServiceEvent::<E::Event<'a>>::Idle)
                    &&& post == ready
                    &&& context_post == context
                } else {
                    let token = nodes.schedule().first() as SelectorToken;
                    (IOServiceView { nodes: nodes.advanced(token), ..ready }).turn_taken_with(
                        Handle(token),
                        context,
                        asked,
                        post,
                        context_post,
                        result,
                    )
                },
            }
        };
    if reply is Ok && nodes.schedule().len() > 0 {
        let token = nodes.schedule().first() as SelectorToken;
        crate::service::storage_laws::advancing_rotates(nodes);
        turn_with_context_has_outcome(
            IOServiceView { selector, nodes: nodes.advanced(token), ..pre },
            Handle(token),
            context,
            asked,
            post,
            context_post,
            result,
        );
    }
}

/// What a poll does is one of its outcomes.
pub proof fn poll_with_context_has_outcome<'a, S, E, C, TS, D>(
    pre: IOServiceView<S, E, TS, D>,
    context: C,
    asked: Asked<E, C>,
    post: IOServiceView<S, E, TS, D>,
    context_post: C,
    result: Result<IOServiceEvent<E::Event<'a>>, IOServiceError>,
) where
    S: Selector + Selects<<S as Selector>::Target, E>,
    C: 'a,
    E: EndpointWithContext<C, Target = S::Target> + 'a,
    TS: TimeSource,
    D: DnsResolver,

    requires
        pre.valid(),
        pre.polled_with(context, asked, post, context_post, result),
    ensures
        pre.poll_outcome(post, result),
{
    assert forall|state: IOServiceView<S, E, TS, D>, before: C| #[trigger]
        state.active_polled_with(
            before,
            asked,
            post,
            context_post,
            result,
        ) implies state.active_outcome(post, result) by {
        active_with_context_has_outcome(state, before, asked, post, context_post, result);
    }
    if pre.disconnects.len() > 0 {
        assert(pre.nodes.node(pre.disconnects[0].0.0) is Some);
    }
}

} // verus!
