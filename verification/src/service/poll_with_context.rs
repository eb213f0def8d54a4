//! Polling of a service whose endpoints take a context.

use vstd::prelude::*;

use crate::io;
use crate::service::dns::DnsResolver;
use crate::service::endpoint::{Context, DisconnectReason, EndpointWithContext};
use crate::service::error::{IOServiceError, IOServiceOperation};
use crate::service::model::{Asked, AutoDisconnectAsked, RecreateAsked};
use crate::service::node::IONode;
use crate::service::select::{Selector, Selects};
use crate::service::time::TimeSource;
use crate::service::{Handle, IOService, IOServiceEvent};

verus! {

impl<S, E, C, TS, D> IOService<S, E, C, TS, D> where
    S: Selector + Selects<<S as Selector>::Target, E>,
    C: Context,
    E: EndpointWithContext<C, Target = S::Target>,
    TS: TimeSource,
    D: DnsResolver,
 {
    /// Polls an active endpoint and queues its disconnection if it fails.
    fn poll_endpoint<'a>(&'a mut self, handle: Handle, ctx: &'a mut C) -> (result: Result<
        IOServiceEvent<E::Event<'a>>,
        IOServiceError,
    >)
        requires
            old(self).wf(),
            old(self)@.disconnects.len() == 0,
            old(self)@.nodes.node(handle.0) is Some,
        ensures
            final(self).wf(),
            old(self)@.endpoint_polled_with(handle, *old(ctx), final(self)@, *final(ctx), result),
    {
        let (io_nodes, pending_disconnects) = (&mut self.io_nodes, &mut self.pending_disconnects);
        let reply = match io_nodes.get_mut(handle.0) {
            None => {
                return Err(
                    IOServiceError::invalid_state(handle, "active endpoint is not registered"),
                );
            },
            Some(node) => {
                let (target, endpoint) = node.as_parts_mut();
                endpoint.1.poll(target, ctx)
            },
        };
        match reply {
            Ok(Some(event)) => Ok(IOServiceEvent::Data { handle, event }),
            Ok(None) => Ok(IOServiceEvent::Idle),
            Err(source) => {
                pending_disconnects.push_back((handle, DisconnectReason::other(source)));
                Ok(IOServiceEvent::Idle)
            },
        }
    }

    /// Gives an active endpoint its turn: it is disconnected for its age, or it is polled.
    fn take_turn<'a>(&'a mut self, handle: Handle, ctx: &'a mut C) -> (result: Result<
        IOServiceEvent<E::Event<'a>>,
        IOServiceError,
    >)
        requires
            old(self).wf(),
            old(self)@.disconnects.len() == 0,
            old(self)@.nodes.node(handle.0) is Some,
        ensures
            final(self).wf(),
            exists|asked: Asked<E, C>|
                {
                    &&& #[trigger] old(self)@.turn_taken_with(
                        handle,
                        *old(ctx),
                        asked,
                        final(self)@,
                        *final(ctx),
                        result,
                    )
                    &&& asked.auto_disconnect matches Some(question) ==> exists|
                        endpoint: &mut E,
                        context: &mut C,
                    |
                        {
                            &&& *endpoint == question.endpoint
                            &&& *final(endpoint) == question.endpoint_post
                            &&& *context == question.context
                            &&& *final(context) == question.context_post
                            &&& #[trigger] call_ensures(
                                E::can_auto_disconnect,
                                (endpoint, context),
                                question.answer,
                            )
                        }
                    &&& asked.recreate matches Some(question) ==> exists|
                        endpoint: &mut E,
                        context: &mut C,
                    |
                        {
                            &&& *endpoint == question.endpoint
                            &&& *final(endpoint) == question.endpoint_post
                            &&& *context == question.context
                            &&& *final(context) == question.context_post
                            &&& #[trigger] call_ensures(
                                E::can_recreate,
                                (endpoint, &question.reason, context),
                                question.answer,
                            )
                        }
                },
    {
        let ghost node = self@.nodes.node(handle.0)->0;
        let ghost mut asked: Asked<E, C> = Asked { recreate: None, auto_disconnect: None };
        let expired = match &self.auto_disconnect {
            None => false,
            Some(_) => {
                let now_ns: u64 = self.time_source.current_time_nanos();
                assert(self@.time_source.shows(now_ns));
                match self.io_nodes.get(handle.0) {
                    Some(node) => now_ns > node.disconnect_time_ns,
                    None => false,
                }
            },
        };
        if expired {
            let can_auto_disconnect = match self.io_nodes.get_mut(handle.0) {
                None => {
                    return Err(
                        IOServiceError::invalid_state(handle, "active endpoint is not registered"),
                    );
                },
                Some(node) => node.as_endpoint_mut().1.can_auto_disconnect(ctx),
            };
            proof {
                asked = Asked {
                    recreate: None,
                    auto_disconnect: Some(
                        AutoDisconnectAsked {
                            endpoint: node.endpoint.1,
                            context: *old(ctx),
                            endpoint_post: self@.nodes.node(handle.0)->0.endpoint.1,
                            context_post: *ctx,
                            answer: can_auto_disconnect,
                        },
                    ),
                };
            }
            if can_auto_disconnect {
                let (reason, can_recreate) = match self.io_nodes.get_mut(handle.0) {
                    None => {
                        return Err(
                            IOServiceError::invalid_state(
                                handle,
                                "active endpoint is not registered",
                            ),
                        );
                    },
                    Some(node) => {
                        let reason = DisconnectReason::auto_disconnect(node.ttl);
                        let can_recreate = node.as_endpoint_mut().1.can_recreate(&reason, ctx);
                        (reason, can_recreate)
                    },
                };
                proof {
                    asked = Asked {
                        recreate: Some(
                            RecreateAsked {
                                endpoint: asked.auto_disconnect->0.endpoint_post,
                                context: asked.auto_disconnect->0.context_post,
                                reason,
                                endpoint_post: self@.nodes.node(handle.0)->0.endpoint.1,
                                context_post: *ctx,
                                answer: can_recreate,
                            },
                        ),
                        ..asked
                    };
                    assert(self@ == old(self)@.with_endpoint(
                        handle,
                        asked.recreate->0.endpoint_post,
                    ));
                }
                let result = self.disconnect_endpoint(handle, reason, can_recreate);
                assert(old(self)@.turn_taken_with(handle, *old(ctx), asked, self@, *ctx, result));
                return result;
            }
            if let Some(supplier) = &self.auto_disconnect {
                let ttl = supplier.ttl();
                assert(old(self)@.auto_disconnect->0.supplies(ttl));
                let extend_ns: u64 = ttl.as_nanos_64();
                if let Some(node) = self.io_nodes.get_mut(handle.0) {
                    node.disconnect_time_ns = node.disconnect_time_ns.saturating_add(extend_ns);
                }
                assert(self@ == old(self)@.with_node(
                    handle,
                    IONode {
                        disconnect_time_ns: crate::service::time::time_after(
                            node.disconnect_time_ns,
                            crate::service::time::low_64_bits(ttl@),
                        ),
                        ..node.with_endpoint(asked.auto_disconnect->0.endpoint_post)
                    },
                ));
            }
        }
        let result = self.poll_endpoint(handle, ctx);
        assert(old(self)@.turn_taken_with(
            handle,
            *old(ctx),
            asked,
            after_borrow(self)@,
            *after_borrow(ctx),
            result,
        ));
        result
    }

    /// Polls the selector and gives the next active endpoint its turn.
    fn poll_active<'a>(&'a mut self, ctx: &'a mut C) -> (result: Result<
        IOServiceEvent<E::Event<'a>>,
        IOServiceError,
    >)
        requires
            old(self).wf(),
            old(self)@.disconnects.len() == 0,
        ensures
            final(self).wf(),
            exists|asked: Asked<E, C>|
                {
                    &&& #[trigger] old(self)@.active_polled_with(
                        *old(ctx),
                        asked,
                        final(self)@,
                        *final(ctx),
                        result,
                    )
                    &&& asked.auto_disconnect matches Some(question) ==> exists|
                        endpoint: &mut E,
                        context: &mut C,
                    |
                        {
                            &&& *endpoint == question.endpoint
                            &&& *final(endpoint) == question.endpoint_post
                            &&& *context == question.context
                            &&& *final(context) == question.context_post
                            &&& #[trigger] call_ensures(
                                E::can_auto_disconnect,
                                (endpoint, context),
                                question.answer,
                            )
                        }
                    &&& asked.recreate matches Some(question) ==> exists|
                        endpoint: &mut E,
                        context: &mut C,
                    |
                        {
                            &&& *endpoint == question.endpoint
                            &&& *final(endpoint) == question.endpoint_post
                            &&& *context == question.context
                            &&& *final(context) == question.context_post
                            &&& #[trigger] call_ensures(
                                E::can_recreate,
                                (endpoint, &question.reason, context),
                                question.answer,
                            )
                        }
                },
    {
        let reply = self.selector.poll(&mut self.io_nodes);
        let ghost ready = self@;
        assert(S::polled(
            old(self)@.selector,
            old(self)@.nodes,
            ready.selector,
            ready.nodes,
            reply,
        ));
        let ghost idle: Asked<E, C> = Asked { recreate: None, auto_disconnect: None };
        match reply {
            Ok(()) => {},
            Err(source) => {
                let result = Err(
                    IOServiceError::io(None, IOServiceOperation::PollSelector, source),
                );
                assert(old(self)@.active_polled_with(*old(ctx), idle, self@, *ctx, result));
                return result;
            },
        }
        match self.next_active_handle() {
            None => {
                let result = Ok(IOServiceEvent::Idle);
                assert(old(self)@.active_polled_with(*old(ctx), idle, self@, *ctx, result));
                result
            },
            Some(handle) => {
                assert(forall|asked: Asked<E, C>, post, context_post, result| #[trigger]
                    self@.turn_taken_with(handle, *ctx, asked, post, context_post, result)
                        ==> old(self)@.active_polled_with(
                        *old(ctx),
                        asked,
                        post,
                        context_post,
                        result,
                    ));
                self.take_turn(handle, ctx)
            },
        }
    }

    /// Advance the service once and return at most one fair unit of endpoint work.
    ///
    /// Active endpoints are selected in persistent round-robin order. The returned event may
    /// borrow its endpoint target or context and therefore must be dropped before polling again.
    pub fn poll<'a>(&'a mut self, ctx: &'a mut C) -> (result: Result<
        IOServiceEvent<E::Event<'a>>,
        IOServiceError,
    >)
        requires
            old(self).wf(),
        ensures
            final(self).wf(),
            old(self)@.poll_outcome(final(self)@, result),
            old(self)@.keeps_promises(final(self)@, result),
            exists|asked: Asked<E, C>|
                {
                    &&& #[trigger] old(self)@.polled_with(
                        *old(ctx),
                        asked,
                        final(self)@,
                        *final(ctx),
                        result,
                    )
                    &&& asked.auto_disconnect matches Some(question) ==> exists|
                        endpoint: &mut E,
                        context: &mut C,
                    |
                        {
                            &&& *endpoint == question.endpoint
                            &&& *final(endpoint) == question.endpoint_post
                            &&& *context == question.context
                            &&& *final(context) == question.context_post
                            &&& #[trigger] call_ensures(
                                E::can_auto_disconnect,
                                (endpoint, context),
                                question.answer,
                            )
                        }
                    &&& asked.recreate matches Some(question) ==> exists|
                        endpoint: &mut E,
                        context: &mut C,
                    |
                        {
                            &&& *endpoint == question.endpoint
                            &&& *final(endpoint) == question.endpoint_post
                            &&& *context == question.context
                            &&& *final(context) == question.context_post
                            &&& #[trigger] call_ensures(
                                E::can_recreate,
                                (endpoint, &question.reason, context),
                                question.answer,
                            )
                        }
                },
    {
        let ghost silent: Asked<E, C> = Asked { recreate: None, auto_disconnect: None };
        assert forall|asked: Asked<E, C>, post, context_post, result| #[trigger]
            old(self)@.polled_with(*old(ctx), asked, post, context_post, result) implies old(
            self,
        )@.poll_outcome(post, result) && old(self)@.keeps_promises(post, result) by {
            crate::service::outcome::poll_with_context_has_outcome(
                old(self)@,
                *old(ctx),
                asked,
                post,
                context_post,
                result,
            );
            crate::service::poll_laws::poll_with_context_keeps_promises(
                old(self)@,
                *old(ctx),
                asked,
                post,
                context_post,
                result,
            );
        }
        if let Some((handle, reason)) = self.pending_disconnects.pop_front() {
            let ghost rest = self@;
            let can_recreate = match self.io_nodes.get_mut(handle.0) {
                None => {
                    let result = Err(
                        IOServiceError::invalid_state(
                            handle,
                            "disconnected endpoint is not registered",
                        ),
                    );
                    assert(old(self)@.polled_with(*old(ctx), silent, self@, *ctx, result));
                    return result;
                },
                Some(node) => node.as_endpoint_mut().1.can_recreate(&reason, ctx),
            };
            let ghost asked = Asked {
                recreate: Some(
                    RecreateAsked {
                        endpoint: rest.nodes.node(handle.0)->0.endpoint.1,
                        context: *old(ctx),
                        reason,
                        endpoint_post: self@.nodes.node(handle.0)->0.endpoint.1,
                        context_post: *ctx,
                        answer: can_recreate,
                    },
                ),
                auto_disconnect: None,
            };
            assert(self@ == rest.with_endpoint(handle, asked.recreate->0.endpoint_post));
            let result = self.disconnect_endpoint(handle, reason, can_recreate);
            assert(old(self)@.polled_with(*old(ctx), asked, self@, *ctx, result));
            return result;
        }
        if self.pending_endpoints.len() > 0 {
            let check = self.check_pending_endpoints();
            let ghost checked = self@;
            assert(old(self)@.pending_checked(checked, check));
            match check {
                Err(e) => {
                    let result = Err(e);
                    assert(old(self)@.polled_with(*old(ctx), silent, self@, *ctx, result));
                    return result;
                },
                Ok(Some(due)) => {
                    let mut endpoint = due.endpoint;
                    let target = endpoint.create_target(due.addr, ctx);
                    assert(E::created(due.endpoint, due.addr, *old(ctx), endpoint, *ctx, target));
                    let connection = self.connect_endpoint(
                        due.handle,
                        endpoint,
                        due.now_ns,
                        target,
                    );
                    assert(checked.connected(
                        due.handle,
                        endpoint,
                        due.now_ns,
                        target,
                        self@,
                        connection,
                    ));
                    match connection {
                        Err(e) => {
                            let result = Err(e);
                            assert(checked.due_connected_with(
                                due,
                                *old(ctx),
                                silent,
                                self@,
                                *ctx,
                                result,
                            ));
                            assert(old(self)@.polled_with(*old(ctx), silent, self@, *ctx, result));
                            return result;
                        },
                        Ok(Some(handle)) => {
                            let result = Ok(IOServiceEvent::Connected { handle });
                            assert(checked.due_connected_with(
                                due,
                                *old(ctx),
                                silent,
                                self@,
                                *ctx,
                                result,
                            ));
                            assert(old(self)@.polled_with(*old(ctx), silent, self@, *ctx, result));
                            return result;
                        },
                        Ok(None) => {
                            assert forall|asked: Asked<E, C>, post, end, result| #[trigger]
                                self@.active_polled_with(*ctx, asked, post, end, result) implies old(
                                self,
                            )@.polled_with(*old(ctx), asked, post, end, result) by {
                                assert(checked.due_connected_with(
                                    due,
                                    *old(ctx),
                                    asked,
                                    post,
                                    end,
                                    result,
                                ));
                            }
                        },
                    }
                },
                Ok(None) => {},
            }
        }
        assert(forall|asked: Asked<E, C>, post, context_post, result| #[trigger]
            self@.active_polled_with(*ctx, asked, post, context_post, result)
                ==> old(self)@.polled_with(*old(ctx), asked, post, context_post, result));
        self.poll_active(ctx)
    }

    /// Dispatch command to an active endpoint using `handle` and provided `action`. If the
    /// endpoint is currently active `Ok(Some(...))` will be returned and the provided `action`
    /// invoked, otherwise this method will return `Ok(None)` and no `action` will be invoked. This
    /// method requires the context to be passed and exposes it to the provided `action`.
    pub fn dispatch<F, T>(&mut self, handle: Handle, ctx: &mut C, mut action: F) -> (result: Result<
        Option<T>,
        io::Error,
    >) where F: FnMut(&mut E::Target, &mut E, &mut C) -> Result<T, io::Error>
        requires
            forall|target: &mut E::Target, endpoint: &mut E, context: &mut C|
                call_requires(action, (target, endpoint, context)),
        ensures
            old(self).wf() ==> final(self).wf(),
            match old(self)@.nodes.node(handle.0) {
                None => {
                    &&& result == Ok::<Option<T>, io::Error>(None)
                    &&& final(self)@ == old(self)@
                    &&& *final(ctx) == *old(ctx)
                },
                Some(node) => exists|
                    target: &mut E::Target,
                    endpoint: &mut E,
                    context: &mut C,
                    reply: Result<T, io::Error>,
                |
                    {
                        &&& #[trigger] call_ensures(action, (target, endpoint, context), reply)
                        &&& *target == node.stream
                        &&& *endpoint == node.endpoint.1
                        &&& *context == *old(ctx)
                        &&& *final(context) == *final(ctx)
                        &&& final(self)@ == old(self)@.with_node(
                            handle,
                            IONode {
                                stream: *final(target),
                                ..node.with_endpoint(*final(endpoint))
                            },
                        )
                        &&& result == match reply {
                            Ok(value) => Ok(Some(value)),
                            Err(e) => Err(e),
                        }
                    },
            },
    {
        match self.io_nodes.get_mut(handle.0) {
            Some(io_node) => {
                let (stream, endpoint) = io_node.as_parts_mut();
                match action(stream, &mut endpoint.1, ctx) {
                    Ok(value) => Ok(Some(value)),
                    Err(e) => Err(e),
                }
            },
            None => Ok(None),
        }
    }
}

} // verus!
