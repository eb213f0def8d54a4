//! Laws of the time that queries may take: it matters for nothing but queries that have no answer
//! when they are polled.

use vstd::prelude::*;

use crate::io;
use crate::net::SocketAddr;
use crate::service::dns::{DnsQuery, DnsResolver};
use crate::service::endpoint::{DisconnectReason, Endpoint, EndpointWithContext};
use crate::service::error::IOServiceError;
use crate::service::model::{Asked, DueEndpoint, IOServiceView};
use crate::service::node::{IONode, IONodesView};
use crate::service::select::{Selector, SelectorToken, Selects};
use crate::service::time::TimeSource;
use crate::service::{Handle, IOServiceEvent};
use crate::stream::ConnectionInfoProvider;

verus! {

/// Queries of this resolver always have an answer: it is not asynchronous.
pub open spec fn answers_at_once<D: DnsResolver>() -> bool {
    forall|query: D::Query, query_post: D::Query, answer: Result<Vec<SocketAddr>, io::Error>|
        #[trigger]
        D::Query::polled(query, query_post, answer) ==> !crate::service::model::would_block(answer)
}

impl<S: Selector, E, TS, D: DnsResolver> IOServiceView<S, E, TS, D> {
    /// The service with another time that queries may take.
    pub open spec fn timed(self, timeout_ns: Option<u64>) -> Self {
        IOServiceView { dns_query_timeout_ns: timeout_ns, ..self }
    }

    /// No query was polled without an answer yet.
    pub open spec fn unblocked(self) -> bool {
        forall|i: int| 0 <= i < self.pending.len() ==> !(#[trigger] self.pending[i]).blocked
    }
}

/// An asynchronous query that has taken longer than it may is given up without being polled.
pub proof fn late_query_is_given_up<S, E, TS, D>(
    service: IOServiceView<S, E, TS, D>,
    timeout_ns: u64,
    query: D::Query,
    created_ns: u64,
    query_post: D::Query,
    result: Result<Option<SocketAddr>, io::Error>,
) where S: Selector, TS: TimeSource, D: DnsResolver
    requires
        service.dns_query_timeout_ns == Some(timeout_ns),
        service.resolved(query, created_ns, true, query_post, result),
        forall|now_ns: u64| #[trigger]
            service.time_source.shows(now_ns) ==> crate::service::model::query_expired(
                now_ns,
                created_ns,
                timeout_ns,
            ),
    ensures
        query_post == query,
        crate::service::model::timed_out(result),
{
}

/// How long queries may take does not matter to registering an endpoint.
pub proof fn registering_ignores_timeout<S, E, TS, D>(
    pre: IOServiceView<S, E, TS, D>,
    timeout_ns: Option<u64>,
    endpoint: E,
    post: IOServiceView<S, E, TS, D>,
    result: Result<Handle, IOServiceError>,
) where S: Selector, E: ConnectionInfoProvider, TS: TimeSource, D: DnsResolver
    requires
        pre.registered(endpoint, post, result),
    ensures
        pre.timed(timeout_ns).registered(endpoint, post.timed(timeout_ns), result),
        pre.unblocked() ==> post.unblocked(),
{
    let known = IOServiceView { selector: post.selector, ..pre };
    let token = choose|token: SelectorToken| #[trigger]
        S::issued(pre.selector, post.selector, token) && known.enrolled(
            Handle(token),
            endpoint,
            post,
            result,
        );
    let handle = Handle(token);
    assert(S::issued(pre.timed(timeout_ns).selector, post.timed(timeout_ns).selector, token));
    match result {
        Ok(_) => scheduling_ignores_timeout(known, timeout_ns, handle, endpoint, post, Ok(())),
        Err(e) => scheduling_ignores_timeout(known, timeout_ns, handle, endpoint, post, Err(e)),
    }
}

proof fn scheduling_ignores_timeout<S, E, TS, D>(
    pre: IOServiceView<S, E, TS, D>,
    timeout_ns: Option<u64>,
    handle: Handle,
    endpoint: E,
    post: IOServiceView<S, E, TS, D>,
    result: Result<(), IOServiceError>,
) where S: Selector, E: ConnectionInfoProvider, TS: TimeSource, D: DnsResolver
    requires
        pre.scheduled(handle, endpoint, post, result),
    ensures
        pre.timed(timeout_ns).scheduled(handle, endpoint, post.timed(timeout_ns), result),
        pre.unblocked() ==> post.unblocked(),
{
    assert forall|reply: Result<D::Query, io::Error>| #[trigger]
        pre.asked_for_address(endpoint, reply) implies pre.timed(timeout_ns).asked_for_address(
        endpoint,
        reply,
    ) by {}
}

/// How long queries may take does not matter to deregistering an endpoint.
pub proof fn deregistering_ignores_timeout<S, E, TS, D>(
    pre: IOServiceView<S, E, TS, D>,
    timeout_ns: Option<u64>,
    handle: Handle,
    post: IOServiceView<S, E, TS, D>,
    result: Result<Option<E>, IOServiceError>,
) where S: Selector + Selects<<S as Selector>::Target, E>, D: DnsResolver
    requires
        pre.deregistered(handle, post, result),
    ensures
        pre.timed(timeout_ns).deregistered(handle, post.timed(timeout_ns), result),
        pre.unblocked() ==> post.unblocked(),
{
    let quiet = IOServiceView {
        disconnects: crate::service::model::without_handle(pre.disconnects, handle),
        ..pre
    };
    if pre.nodes.node(handle.0) is Some {
        match result {
            Ok(Some(endpoint)) => detaching_ignores_timeout(
                quiet,
                timeout_ns,
                handle,
                post,
                Ok(endpoint),
            ),
            Ok(None) => {},
            Err(e) => detaching_ignores_timeout(quiet, timeout_ns, handle, post, Err(e)),
        }
    }
}

proof fn detaching_ignores_timeout<S, E, TS, D>(
    pre: IOServiceView<S, E, TS, D>,
    timeout_ns: Option<u64>,
    handle: Handle,
    post: IOServiceView<S, E, TS, D>,
    result: Result<E, IOServiceError>,
) where S: Selector + Selects<<S as Selector>::Target, E>, D: DnsResolver
    requires
        pre.detached(handle, post, result),
    ensures
        pre.timed(timeout_ns).detached(handle, post.timed(timeout_ns), result),
        post.pending == pre.pending,
{
    let other = pre.timed(timeout_ns);
    let other_post = post.timed(timeout_ns);
    assert forall|
        node: IONode<S::Target, E>,
        node_post: IONode<S::Target, E>,
        reply: Result<(), io::Error>,
    | #[trigger]
        S::unregistered(
            pre.selector,
            node,
            post.selector,
            node_post,
            reply,
        ) implies S::unregistered(
        other.selector,
        node,
        other_post.selector,
        node_post,
        reply,
    ) by {}
}

proof fn disconnecting_ignores_timeout<S, E, TS, D, V>(
    pre: IOServiceView<S, E, TS, D>,
    timeout_ns: Option<u64>,
    handle: Handle,
    reason: DisconnectReason,
    can_recreate: bool,
    post: IOServiceView<S, E, TS, D>,
    result: Result<IOServiceEvent<V>, IOServiceError>,
) where
    S: Selector + Selects<<S as Selector>::Target, E>,
    E: ConnectionInfoProvider,
    TS: TimeSource,
    D: DnsResolver,

    requires
        pre.disconnected(handle, reason, can_recreate, post, result),
    ensures
        pre.timed(timeout_ns).disconnected(
            handle,
            reason,
            can_recreate,
            post.timed(timeout_ns),
            result,
        ),
        pre.unblocked() ==> post.unblocked(),
{
    assert forall|removed: IOServiceView<S, E, TS, D>, reply: Result<E, IOServiceError>| #[trigger]
        pre.detached(handle, removed, reply) implies pre.timed(timeout_ns).detached(
        handle,
        removed.timed(timeout_ns),
        reply,
    ) && removed.pending == pre.pending by {
        detaching_ignores_timeout(pre, timeout_ns, handle, removed, reply);
    }
    assert forall|
        removed: IOServiceView<S, E, TS, D>,
        endpoint: E,
        scheduling: Result<(), IOServiceError>,
    | #[trigger]
        removed.scheduled(handle, endpoint, post, scheduling) implies removed.timed(
        timeout_ns,
    ).scheduled(handle, endpoint, post.timed(timeout_ns), scheduling) && (removed.unblocked()
        ==> post.unblocked()) by {
        scheduling_ignores_timeout(removed, timeout_ns, handle, endpoint, post, scheduling);
    }
}

proof fn checking_ignores_timeout<S, E, TS, D>(
    pre: IOServiceView<S, E, TS, D>,
    timeout_ns: Option<u64>,
    post: IOServiceView<S, E, TS, D>,
    result: Result<Option<DueEndpoint<E>>, IOServiceError>,
) where S: Selector, TS: TimeSource, D: DnsResolver
    requires
        answers_at_once::<D>(),
        pre.unblocked(),
        pre.pending_checked(post, result),
    ensures
        pre.timed(timeout_ns).pending_checked(post.timed(timeout_ns), result),
        post.unblocked(),
{
    let now_ns = choose|now_ns: u64| #[trigger]
        pre.time_source.shows(now_ns) && pre.pending_checked_at(now_ns, post, result);
    assert(pre.timed(timeout_ns).time_source.shows(now_ns));
    assert forall|
        query: D::Query,
        created_ns: u64,
        query_post: D::Query,
        answer: Result<Option<SocketAddr>, io::Error>,
    | #[trigger]
        pre.resolved(query, created_ns, false, query_post, answer) implies pre.timed(
        timeout_ns,
    ).resolved(query, created_ns, false, query_post, answer) && answer != Ok::<
        Option<SocketAddr>,
        io::Error,
    >(None) by {}
}

proof fn connecting_ignores_timeout<S, E, TS, D>(
    pre: IOServiceView<S, E, TS, D>,
    timeout_ns: Option<u64>,
    handle: Handle,
    endpoint: E,
    now_ns: u64,
    target: Result<Option<S::Target>, io::Error>,
    post: IOServiceView<S, E, TS, D>,
    result: Result<Option<Handle>, IOServiceError>,
) where
    S: Selector + Selects<<S as Selector>::Target, E>,
    E: ConnectionInfoProvider,
    TS: TimeSource,
    D: DnsResolver,

    requires
        pre.connected(handle, endpoint, now_ns, target, post, result),
    ensures
        pre.timed(timeout_ns).connected(
            handle,
            endpoint,
            now_ns,
            target,
            post.timed(timeout_ns),
            result,
        ),
        pre.unblocked() ==> post.unblocked(),
{
    let other = pre.timed(timeout_ns);
    assert forall|queued: IOServiceView<S, E, TS, D>, reply: Result<(), IOServiceError>| #[trigger]
        pre.scheduled(handle, endpoint, queued, reply) implies other.scheduled(
        handle,
        endpoint,
        queued.timed(timeout_ns),
        reply,
    ) && (pre.unblocked() ==> queued.unblocked()) by {
        scheduling_ignores_timeout(pre, timeout_ns, handle, endpoint, queued, reply);
    }
    assert forall|ttl: Option<crate::service::time::Duration>| #[trigger]
        pre.supplies_ttl(ttl) implies other.supplies_ttl(ttl) by {}
    assert forall|node: IONode<S::Target, E>| #[trigger]
        pre.activated(handle, node, now_ns, post, result) implies other.activated(
        handle,
        node,
        now_ns,
        post.timed(timeout_ns),
        result,
    ) && post.pending == pre.pending by {}
}

proof fn endpoint_ignores_timeout<'a, S, E, TS, D>(
    pre: IOServiceView<S, E, TS, D>,
    timeout_ns: Option<u64>,
    handle: Handle,
    post: IOServiceView<S, E, TS, D>,
    result: Result<IOServiceEvent<E::Event<'a>>, IOServiceError>,
) where
    S: Selector + Selects<<S as Selector>::Target, E>,
    E: Endpoint<Target = S::Target> + 'a,
    TS: TimeSource,
    D: DnsResolver,

    requires
        pre.endpoint_polled(handle, post, result),
    ensures
        pre.timed(timeout_ns).endpoint_polled(handle, post.timed(timeout_ns), result),
        post.pending == pre.pending,
{
}

proof fn turn_ignores_timeout<'a, S, E, TS, D>(
    pre: IOServiceView<S, E, TS, D>,
    timeout_ns: Option<u64>,
    handle: Handle,
    asked: Asked<E, ()>,
    post: IOServiceView<S, E, TS, D>,
    result: Result<IOServiceEvent<E::Event<'a>>, IOServiceError>,
) where
    S: Selector + Selects<<S as Selector>::Target, E>,
    E: Endpoint<Target = S::Target> + 'a,
    TS: TimeSource,
    D: DnsResolver,

    requires
        pre.turn_taken(handle, asked, post, result),
    ensures
        pre.timed(timeout_ns).turn_taken(handle, asked, post.timed(timeout_ns), result),
        pre.unblocked() ==> post.unblocked(),
{
    let other = pre.timed(timeout_ns);
    assert forall|state: IOServiceView<S, E, TS, D>| #[trigger]
        state.endpoint_polled(handle, post, result) implies state.timed(timeout_ns).endpoint_polled(
        handle,
        post.timed(timeout_ns),
        result,
    ) && post.pending == state.pending by {
        endpoint_ignores_timeout(state, timeout_ns, handle, post, result);
    }
    assert forall|state: IOServiceView<S, E, TS, D>, reason: DisconnectReason, answer: bool|
        #[trigger]
        state.disconnected(handle, reason, answer, post, result) implies state.timed(
        timeout_ns,
    ).disconnected(handle, reason, answer, post.timed(timeout_ns), result) && (state.unblocked()
        ==> post.unblocked()) by {
        disconnecting_ignores_timeout(state, timeout_ns, handle, reason, answer, post, result);
    }
    assert forall|now_ns: u64| #[trigger]
        pre.time_source.shows(now_ns) implies other.time_source.shows(now_ns) by {}
}

proof fn active_poll_ignores_timeout<'a, S, E, TS, D>(
    pre: IOServiceView<S, E, TS, D>,
    timeout_ns: Option<u64>,
    asked: Asked<E, ()>,
    post: IOServiceView<S, E, TS, D>,
    result: Result<IOServiceEvent<E::Event<'a>>, IOServiceError>,
) where
    S: Selector + Selects<<S as Selector>::Target, E>,
    E: Endpoint<Target = S::Target> + 'a,
    TS: TimeSource,
    D: DnsResolver,

    requires
        pre.active_polled(asked, post, result),
    ensures
        pre.timed(timeout_ns).active_polled(asked, post.timed(timeout_ns), result),
        pre.unblocked() ==> post.unblocked(),
{
    let other = pre.timed(timeout_ns);
    assert forall|state: IOServiceView<S, E, TS, D>, handle: Handle| #[trigger]
        state.turn_taken(handle, asked, post, result) implies state.timed(timeout_ns).turn_taken(
        handle,
        asked,
        post.timed(timeout_ns),
        result,
    ) && (state.unblocked() ==> post.unblocked()) by {
        turn_ignores_timeout(state, timeout_ns, handle, asked, post, result);
    }
    assert forall|
        selector: S,
        nodes: IONodesView<S::Target, E>,
        reply: Result<(), io::Error>,
    | #[trigger]
        S::polled(pre.selector, pre.nodes, selector, nodes, reply) implies S::polled(
        other.selector,
        other.nodes,
        selector,
        nodes,
        reply,
    ) by {}
}

/// How long queries may take does not matter to polling a service whose resolver is not
/// asynchronous. No query is found blocked, and none ever will be.
pub proof fn polling_ignores_timeout<'a, S, E, TS, D>(
    pre: IOServiceView<S, E, TS, D>,
    timeout_ns: Option<u64>,
    asked: Asked<E, ()>,
    post: IOServiceView<S, E, TS, D>,
    result: Result<IOServiceEvent<E::Event<'a>>, IOServiceError>,
) where
    S: Selector + Selects<<S as Selector>::Target, E>,
    E: Endpoint<Target = S::Target> + 'a,
    TS: TimeSource,
    D: DnsResolver,

    requires
        answers_at_once::<D>(),
        pre.unblocked(),
        pre.polled(asked, post, result),
    ensures
        pre.timed(timeout_ns).polled(asked, post.timed(timeout_ns), result),
        post.unblocked(),
{
    assert forall|
        state: IOServiceView<S, E, TS, D>,
        handle: Handle,
        reason: DisconnectReason,
        answer: bool,
    | #[trigger]
        state.disconnected(handle, reason, answer, post, result) implies state.timed(
        timeout_ns,
    ).disconnected(handle, reason, answer, post.timed(timeout_ns), result) && (state.unblocked()
        ==> post.unblocked()) by {
        disconnecting_ignores_timeout(state, timeout_ns, handle, reason, answer, post, result);
    }
    assert forall|state: IOServiceView<S, E, TS, D>| #[trigger]
        state.active_polled(asked, post, result) implies state.timed(timeout_ns).active_polled(
        asked,
        post.timed(timeout_ns),
        result,
    ) && (state.unblocked() ==> post.unblocked()) by {
        active_poll_ignores_timeout(state, timeout_ns, asked, post, result);
    }
    assert forall|
        checked: IOServiceView<S, E, TS, D>,
        due: Result<Option<DueEndpoint<E>>, IOServiceError>,
    | #[trigger]
        pre.pending_checked(checked, due) implies pre.timed(timeout_ns).pending_checked(
        checked.timed(timeout_ns),
        due,
    ) && checked.unblocked() by {
        checking_ignores_timeout(pre, timeout_ns, checked, due);
    }
    assert forall|checked: IOServiceView<S, E, TS, D>, due: DueEndpoint<E>| #[trigger]
        checked.due_connected(due, asked, post, result) implies checked.timed(
        timeout_ns,
    ).due_connected(due, asked, post.timed(timeout_ns), result) && (checked.unblocked()
        ==> post.unblocked()) by {
        due_ignores_timeout(checked, timeout_ns, due, asked, post, result);
    }
}

proof fn due_ignores_timeout<'a, S, E, TS, D>(
    pre: IOServiceView<S, E, TS, D>,
    timeout_ns: Option<u64>,
    due: DueEndpoint<E>,
    asked: Asked<E, ()>,
    post: IOServiceView<S, E, TS, D>,
    result: Result<IOServiceEvent<E::Event<'a>>, IOServiceError>,
) where
    S: Selector + Selects<<S as Selector>::Target, E>,
    E: Endpoint<Target = S::Target> + 'a,
    TS: TimeSource,
    D: DnsResolver,

    requires
        pre.due_connected(due, asked, post, result),
    ensures
        pre.timed(timeout_ns).due_connected(due, asked, post.timed(timeout_ns), result),
        pre.unblocked() ==> post.unblocked(),
{
    assert forall|state: IOServiceView<S, E, TS, D>| #[trigger]
        state.active_polled(asked, post, result) implies state.timed(timeout_ns).active_polled(
        asked,
        post.timed(timeout_ns),
        result,
    ) && (state.unblocked() ==> post.unblocked()) by {
        active_poll_ignores_timeout(state, timeout_ns, asked, post, result);
    }
    assert forall|
        endpoint: E,
        target: Result<Option<S::Target>, io::Error>,
        connected: IOServiceView<S, E, TS, D>,
        reply: Result<Option<Handle>, IOServiceError>,
    | #[trigger]
        pre.connected(due.handle, endpoint, due.now_ns, target, connected, reply) implies pre.timed(
        timeout_ns,
    ).connected(
        due.handle,
        endpoint,
        due.now_ns,
        target,
        connected.timed(timeout_ns),
        reply,
    ) && (pre.unblocked() ==> connected.unblocked()) by {
        connecting_ignores_timeout(
            pre,
            timeout_ns,
            due.handle,
            endpoint,
            due.now_ns,
            target,
            connected,
            reply,
        );
    }
}

proof fn endpoint_with_context_ignores_timeout<'a, S, E, C, TS, D>(
    pre: IOServiceView<S, E, TS, D>,
    timeout_ns: Option<u64>,
    handle: Handle,
    context: C,
    post: IOServiceView<S, E, TS, D>,
    context_post: C,
    result: Result<IOServiceEvent<E::Event<'a>>, IOServiceError>,
) where
    S: Selector + Selects<<S as Selector>::Target, E>,
    C: 'a,
    E: EndpointWithContext<C, Target = S::Target> + 'a,
    TS: TimeSource,
    D: DnsResolver,

    requires
        pre.endpoint_polled_with(handle, context, post, context_post, result),
    ensures
        pre.timed(timeout_ns).endpoint_polled_with(
            handle,
            context,
            post.timed(timeout_ns),
            context_post,
            result,
        ),
        post.pending == pre.pending,
{
}

proof fn turn_with_context_ignores_timeout<'a, S, E, C, TS, D>(
    pre: IOServiceView<S, E, TS, D>,
    timeout_ns: Option<u64>,
    handle: Handle,
    context: C,
    asked: Asked<E, C>,
    post: IOServiceView<S, E, TS, D>,
    context_post: C,
    result: Result<IOServiceEvent<E::Event<'a>>, IOServiceError>,
) where
    S: Selector + Selects<<S as Selector>::Target, E>,
    C: 'a,
    E: EndpointWithContext<C, Target = S::Target> + 'a,
    TS: TimeSource,
    D: DnsResolver,

    requires
        pre.turn_taken_with(handle, context, asked, post, context_post, result),
    ensures
        pre.timed(timeout_ns).turn_taken_with(
            handle,
            context,
            asked,
            post.timed(timeout_ns),
            context_post,
            result,
        ),
        pre.unblocked() ==> post.unblocked(),
{
    let other = pre.timed(timeout_ns);
    assert forall|state: IOServiceView<S, E, TS, D>, before: C| #[trigger]
        state.endpoint_polled_with(handle, before, post, context_post, result) implies state.timed(
        timeout_ns,
    ).endpoint_polled_with(handle, before, post.timed(timeout_ns), context_post, result)
        && post.pending == state.pending by {
        endpoint_with_context_ignores_timeout(
            state,
            timeout_ns,
            handle,
            before,
            post,
            context_post,
            result,
        );
    }
    assert forall|state: IOServiceView<S, E, TS, D>, reason: DisconnectReason, answer: bool|
        #[trigger]
        state.disconnected(handle, reason, answer, post, result) implies state.timed(
        timeout_ns,
    ).disconnected(handle, reason, answer, post.timed(timeout_ns), result) && (state.unblocked()
        ==> post.unblocked()) by {
        disconnecting_ignores_timeout(state, timeout_ns, handle, reason, answer, post, result);
    }
    assert forall|now_ns: u64| #[trigger]
        pre.time_source.shows(now_ns) implies other.time_source.shows(now_ns) by {}
}

proof fn active_poll_with_context_ignores_timeout<'a, S, E, C, TS, D>(
    pre: IOServiceView<S, E, TS, D>,
    timeout_ns: Option<u64>,
    context: C,
    asked: Asked<E, C>,
    post: IOServiceView<S, E, TS, D>,
    context_post: C,
    result: Result<IOServiceEvent<E::Event<'a>>, IOServiceError>,
) where
    S: Selector + Selects<<S as Selector>::Target, E>,
    C: 'a,
    E: EndpointWithContext<C, Target = S::Target> + 'a,
    TS: TimeSource,
    D: DnsResolver,

    requires
        pre.active_polled_with(context, asked, post, context_post, result),
    ensures
        pre.timed(timeout_ns).active_polled_with(
            context,
            asked,
            post.timed(timeout_ns),
            context_post,
            result,
        ),
        pre.unblocked() ==> post.unblocked(),
{
    let other = pre.timed(timeout_ns);
    assert forall|state: IOServiceView<S, E, TS, D>, handle: Handle| #[trigger]
        state.turn_taken_with(
            handle,
            context,
            asked,
            post,
            context_post,
            result,
        ) implies state.timed(timeout_ns).turn_taken_with(
        handle,
        context,
        asked,
        post.timed(timeout_ns),
        context_post,
        result,
    ) && (state.unblocked() ==> post.unblocked()) by {
        turn_with_context_ignores_timeout(
            state,
            timeout_ns,
            handle,
            context,
            asked,
            post,
            context_post,
            result,
        );
    }
    assert forall|
        selector: S,
        nodes: IONodesView<S::Target, E>,
        reply: Result<(), io::Error>,
    | #[trigger]
        S::polled(pre.selector, pre.nodes, selector, nodes, reply) implies S::polled(
        other.selector,
        other.nodes,
        selector,
        nodes,
        reply,
    ) by {}
}

/// How long queries may take does not matter to polling, with a context, a service whose
/// resolver is not asynchronous. No query is found blocked, and none ever will be.
pub proof fn polling_with_context_ignores_timeout<'a, S, E, C, TS, D>(
    pre: IOServiceView<S, E, TS, D>,
    timeout_ns: Option<u64>,
    context: C,
    asked: Asked<E, C>,
    post: IOServiceView<S, E, TS, D>,
    context_post: C,
    result: Result<IOServiceEvent<E::Event<'a>>, IOServiceError>,
) where
    S: Selector + Selects<<S as Selector>::Target, E>,
    C: 'a,
    E: EndpointWithContext<C, Target = S::Target> + 'a,
    TS: TimeSource,
    D: DnsResolver,

    requires
        answers_at_once::<D>(),
        pre.unblocked(),
        pre.polled_with(context, asked, post, context_post, result),
    ensures
        pre.timed(timeout_ns).polled_with(
            context,
            asked,
            post.timed(timeout_ns),
            context_post,
            result,
        ),
        post.unblocked(),
{
    assert forall|
        state: IOServiceView<S, E, TS, D>,
        handle: Handle,
        reason: DisconnectReason,
        answer: bool,
    | #[trigger]
        state.disconnected(handle, reason, answer, post, result) implies state.timed(
        timeout_ns,
    ).disconnected(handle, reason, answer, post.timed(timeout_ns), result) && (state.unblocked()
        ==> post.unblocked()) by {
        disconnecting_ignores_timeout(state, timeout_ns, handle, reason, answer, post, result);
    }
    assert forall|state: IOServiceView<S, E, TS, D>, before: C| #[trigger]
        state.active_polled_with(before, asked, post, context_post, result) implies state.timed(
        timeout_ns,
    ).active_polled_with(before, asked, post.timed(timeout_ns), context_post, result) && (
    state.unblocked() ==> post.unblocked()) by {
        active_poll_with_context_ignores_timeout(
            state,
            timeout_ns,
            before,
            asked,
            post,
            context_post,
            result,
        );
    }
    assert forall|
        checked: IOServiceView<S, E, TS, D>,
        due: Result<Option<DueEndpoint<E>>, IOServiceError>,
    | #[trigger]
        pre.pending_checked(checked, due) implies pre.timed(timeout_ns).pending_checked(
        checked.timed(timeout_ns),
        due,
    ) && checked.unblocked() by {
        checking_ignores_timeout(pre, timeout_ns, checked, due);
    }
    assert forall|checked: IOServiceView<S, E, TS, D>, due: DueEndpoint<E>| #[trigger]
        checked.due_connected_with(
            due,
            context,
            asked,
            post,
            context_post,
            result,
        ) implies checked.timed(timeout_ns).due_connected_with(
        due,
        context,
        asked,
        post.timed(timeout_ns),
        context_post,
        result,
    ) && (checked.unblocked() ==> post.unblocked()) by {
        due_with_context_ignores_timeout(
            checked,
            timeout_ns,
            due,
            context,
            asked,
            post,
            context_post,
            result,
        );
    }
}

proof fn due_with_context_ignores_timeout<'a, S, E, C, TS, D>(
    pre: IOServiceView<S, E, TS, D>,
    timeout_ns: Option<u64>,
    due: DueEndpoint<E>,
    context: C,
    asked: Asked<E, C>,
    post: IOServiceView<S, E, TS, D>,
    context_post: C,
    result: Result<IOServiceEvent<E::Event<'a>>, IOServiceError>,
) where
    S: Selector + Selects<<S as Selector>::Target, E>,
    C: 'a,
    E: EndpointWithContext<C, Target = S::Target> + 'a,
    TS: TimeSource,
    D: DnsResolver,

    requires
        pre.due_connected_with(due, context, asked, post, context_post, result),
    ensures
        pre.timed(timeout_ns).due_connected_with(
            due,
            context,
            asked,
            post.timed(timeout_ns),
            context_post,
            result,
        ),
        pre.unblocked() ==> post.unblocked(),
{
    assert forall|state: IOServiceView<S, E, TS, D>, before: C| #[trigger]
        state.active_polled_with(before, asked, post, context_post, result) implies state.timed(
        timeout_ns,
    ).active_polled_with(before, asked, post.timed(timeout_ns), context_post, result) && (
    state.unblocked() ==> post.unblocked()) by {
        active_poll_with_context_ignores_timeout(
            state,
            timeout_ns,
            before,
            asked,
            post,
            context_post,
            result,
        );
    }
    assert forall|
        endpoint: E,
        target: Result<Option<S::Target>, io::Error>,
        connected: IOServiceView<S, E, TS, D>,
        reply: Result<Option<Handle>, IOServiceError>,
    | #[trigger]
        pre.connected(due.handle, endpoint, due.now_ns, target, connected, reply) implies pre.timed(
        timeout_ns,
    ).connected(
        due.handle,
        endpoint,
        due.now_ns,
        target,
        connected.timed(timeout_ns),
        reply,
    ) && (pre.unblocked() ==> connected.unblocked()) by {
        connecting_ignores_timeout(
            pre,
            timeout_ns,
            due.handle,
            endpoint,
            due.now_ns,
            target,
            connected,
            reply,
        );
    }
}

} // verus!
