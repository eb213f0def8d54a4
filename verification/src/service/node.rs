//! Active endpoints together with their streams.

use vstd::prelude::*;

use crate::service::select::SelectorToken;
use crate::service::slots::MIN_IO_NODE_SLOTS;
use crate::service::time::{Duration, TimeSource};
use crate::service::Handle;

verus! {

/// An active endpoint: its stream, its handle, and when it is due to be disconnected.
pub struct IONode<S, E> {
    /// Stream of the endpoint.
    pub stream: S,
    /// Handle of the endpoint and the endpoint.
    pub endpoint: (Handle, E),
    /// Time to live of the connection.
    pub ttl: Duration,
    /// Time after which the connection is disconnected.
    pub disconnect_time_ns: u64,
}

/// Token-indexed storage for active I/O nodes.
pub struct IONodes<S, E> {
    slots: Vec<Option<IONode<S, E>>>,
    next_poll_index: usize,
    active_count: usize,
}

/// Model of [`IONodes`].
#[verifier::ext_equal]
pub struct IONodesView<S, E> {
    /// The node that each token stands for.
    pub slots: Seq<Option<IONode<S, E>>>,
    /// The slot from which the next active token is searched.
    pub cursor: int,
}

impl<S, E> View for IONodes<S, E> {
    type V = IONodesView<S, E>;

    closed spec fn view(&self) -> IONodesView<S, E> {
        IONodesView { slots: self.slots@, cursor: self.next_poll_index as int }
    }
}

impl<S, E> IONodesView<S, E> {
    /// The storage without any node.
    pub open spec fn empty() -> Self {
        IONodesView { slots: Seq::new(MIN_IO_NODE_SLOTS as nat, |i: int| None), cursor: 0 }
    }

    /// The slots are a power of two in number, no more than the nodes need, tokens reach all of
    /// them, and the cursor stands on one of them.
    pub open spec fn valid(self) -> bool {
        &&& vstd::arithmetic::power2::is_pow2(self.slots.len() as int)
        &&& self.slots.len() == crate::service::slots::storage_len(
            crate::service::slots::occupied_len(self.slots),
        )
        &&& MIN_IO_NODE_SLOTS <= self.slots.len() <= SelectorToken::MAX + 1
        &&& 0 <= self.cursor < self.slots.len()
    }

    /// The node of a token.
    pub open spec fn node(self, token: SelectorToken) -> Option<IONode<S, E>> {
        if token < self.slots.len() {
            self.slots[token as int]
        } else {
            None
        }
    }

    /// Every node carries the handle of the token that it is stored under.
    pub open spec fn named(self) -> bool {
        forall|token: SelectorToken|
            (#[trigger] self.node(token)) matches Some(node) ==> node.endpoint.0 == Handle(token)
    }

    /// The active tokens, in the order in which they are polled from now on.
    pub open spec fn schedule(self) -> Seq<int> {
        crate::service::slots::walk(self.slots, self.cursor)
    }

    /// The storage with another node in place of the one of `token`.
    pub open spec fn with_node(self, token: SelectorToken, node: IONode<S, E>) -> Self {
        IONodesView { slots: self.slots.update(token as int, Some(node)), ..self }
    }

    /// A node can be put under `token`.
    pub open spec fn admits(self, token: SelectorToken) -> bool {
        self.node(token) is None && (token < self.slots.len() || addressable(token))
    }

    /// The storage after a node was put under the free `token`.
    pub open spec fn inserted(self, token: SelectorToken, node: IONode<S, E>) -> Self {
        let len = if token < self.slots.len() {
            self.slots.len()
        } else {
            crate::service::slots::storage_len(token as nat + 1)
        };
        IONodesView {
            slots: crate::service::slots::padded(self.slots, len).update(token as int, Some(node)),
            ..self
        }
    }

    /// The storage after the node of `token` was taken out. A cursor beyond the slots that are kept
    /// starts over.
    pub open spec fn removed(self, token: SelectorToken) -> Self {
        let slots = self.slots.update(token as int, None);
        let len = crate::service::slots::storage_len(crate::service::slots::occupied_len(slots));
        IONodesView {
            slots: slots.take(len as int),
            cursor: if self.cursor < len {
                self.cursor
            } else {
                0
            },
        }
    }

    /// The storage after `token` was handed out for polling.
    pub open spec fn advanced(self, token: SelectorToken) -> Self {
        IONodesView { cursor: (token + 1) % self.slots.len() as int, ..self }
    }
}

/// The storage that a token needs fits into memory. This is so for every token where `usize` has
/// 64 bits.
pub open spec fn addressable(token: SelectorToken) -> bool {
    crate::service::slots::storage_len(token as nat + 1) <= usize::MAX
}

/// The smallest power of two that is not below `n`, if it fits.
fn checked_next_power_of_two(n: usize) -> (power: Option<usize>)
    ensures
        match power {
            Some(p) => p == crate::service::slots::next_pow2(n as nat),
            None => crate::service::slots::next_pow2(n as nat) > usize::MAX,
        },
{
    let mut p: usize = 1;
    assert(vstd::arithmetic::power2::is_pow2(1)) by {
        reveal(vstd::arithmetic::power2::is_pow2);
    }
    while p < n
        invariant
            vstd::arithmetic::power2::is_pow2(p as int),
            p == 1 || p / 2 < n,
            0 < p,
        decreases usize::MAX - p,
    {
        proof {
            reveal(vstd::arithmetic::power2::is_pow2);
            if p > usize::MAX / 2 {
                crate::service::slots::next_pow2_is_least(n as nat);
                crate::service::slots::pow2_gap(
                    p as nat,
                    crate::service::slots::next_pow2(n as nat),
                );
            }
        }
        if p > usize::MAX / 2 {
            return None;
        }
        p = p * 2;
    }
    proof {
        crate::service::slots::next_pow2_unique(n as nat, p as nat);
    }
    Some(p)
}

impl<S, E> Default for IONodes<S, E> {
    fn default() -> (nodes: Self)
        ensures
            nodes.wf(),
            nodes@ == IONodesView::<S, E>::empty(),
    {
        let mut slots: Vec<Option<IONode<S, E>>> = Vec::new();
        while slots.len() < MIN_IO_NODE_SLOTS
            invariant
                slots@.len() <= MIN_IO_NODE_SLOTS,
                slots@ == Seq::new(slots@.len(), |i: int| None::<IONode<S, E>>),
            decreases MIN_IO_NODE_SLOTS - slots@.len(),
        {
            slots.push(None);
        }
        let nodes = IONodes { slots, next_poll_index: 0, active_count: 0 };
        proof {
            crate::service::slots::storage_len_fits(0);
            assert(crate::service::slots::storage_len(0) == MIN_IO_NODE_SLOTS);
            crate::service::slots::taken_ignores_free_tail(nodes@.slots, 0);
            crate::service::slots::occupied_len_unique(nodes@.slots, 0);
        }
        nodes
    }
}

impl<S, E> IONodes<S, E> {
    /// The number of active nodes is kept.
    pub closed spec fn counted(&self) -> bool {
        self.active_count == crate::service::slots::taken(self@.slots).len()
    }

    /// The storage is well formed.
    pub open spec fn wf(&self) -> bool {
        self@.valid() && self.counted()
    }

    /// Puts a node under a token, or gives it back if the token is taken. A node whose token is
    /// not [`addressable`] is given back too.
    pub fn insert(&mut self, token: SelectorToken, node: IONode<S, E>) -> (result: Result<
        (),
        IONode<S, E>,
    >)
        requires
            old(self).wf(),
        ensures
            final(self).wf(),
            result is Ok <==> old(self)@.admits(token),
            match result {
                Ok(()) => final(self)@ == old(self)@.inserted(token, node),
                Err(back) => back == node && final(self)@ == old(self)@,
            },
    {
        let index: usize = token as usize;
        if index >= self.slots.len() {
            if index == usize::MAX {
                proof {
                    crate::service::slots::storage_len_fits(token as nat + 1);
                }
                return Err(node);
            }
            let required = checked_next_power_of_two(index + 1);
            let new_len: usize = match required {
                None => return Err(node),
                Some(len) => if len < MIN_IO_NODE_SLOTS {
                    MIN_IO_NODE_SLOTS
                } else {
                    len
                },
            };
            proof {
                crate::service::slots::storage_len_fits(token as nat + 1);
                crate::service::slots::token_storage_bound(token);
            }
            let ghost before = self@.slots;
            assert(before == crate::service::slots::padded(before, before.len()));
            while self.slots.len() < new_len
                invariant
                    before.len() <= self.slots@.len() <= new_len,
                    self.slots@ == crate::service::slots::padded(before, self.slots@.len()),
                    self.next_poll_index == old(self).next_poll_index,
                    self.active_count == old(self).active_count,
                decreases new_len - self.slots@.len(),
            {
                self.slots.push(None);
            }
            proof {
                assert(self.slots@.take(before.len() as int) == before);
                crate::service::slots::taken_ignores_free_tail(self.slots@, before.len() as int);
            }
        }
        assert(self.slots@ == crate::service::slots::padded(old(self)@.slots, self.slots@.len()));
        if self.slots[index].is_some() {
            return Err(node);
        }
        proof {
            if index < old(self)@.slots.len() {
                crate::service::slots::taking_keeps_tight(self.slots@, index as int, node);
            } else {
                crate::service::slots::extending_keeps_tight(
                    old(self)@.slots,
                    index as int,
                    node,
                );
            }
            crate::service::slots::taking_adds_one(self.slots@, index as int, node);
            crate::service::slots::taken_between_is_ascending(
                self.slots@.update(index as int, Some(node)),
                0,
                self.slots@.len() as int,
            );
        }
        self.slots[index] = Some(node);
        self.active_count = self.active_count + 1;
        Ok(())
    }

    /// Number of slots that are kept, taken or free.
    pub fn slot_count(&self) -> (count: usize)
        ensures
            count == self@.slots.len(),
    {
        self.slots.len()
    }

    /// The node of a token.
    pub fn get(&self, token: SelectorToken) -> (node: Option<&IONode<S, E>>)
        ensures
            match node {
                Some(n) => self@.node(token) == Some(*n),
                None => self@.node(token) is None,
            },
    {
        let index: usize = token as usize;
        if index < self.slots.len() {
            self.slots[index].as_ref()
        } else {
            None
        }
    }

    /// The node of a token, for changing it in place.
    pub fn get_mut(&mut self, token: SelectorToken) -> (node: Option<&mut IONode<S, E>>)
        ensures
            old(self).wf() ==> final(self).wf(),
            match node {
                Some(n) => {
                    &&& old(self)@.node(token) == Some(*n)
                    &&& final(self)@ == old(self)@.with_node(token, *final(n))
                },
                None => {
                    &&& old(self)@.node(token) is None
                    &&& final(self)@ == old(self)@
                },
            },
    {
        let index: usize = token as usize;
        if index < self.slots.len() {
            proof {
                crate::service::slots::replacing_keeps_taken(self.slots@, index as int);
            }
            match &mut self.slots[index] {
                Some(node) => Some(node),
                None => None,
            }
        } else {
            None
        }
    }

    /// Takes the node of a token out. The storage shrinks to what the remaining nodes need.
    pub fn remove(&mut self, token: SelectorToken) -> (node: Option<IONode<S, E>>)
        requires
            old(self).wf(),
        ensures
            final(self).wf(),
            node == old(self)@.node(token),
            final(self)@ == if node is Some {
                old(self)@.removed(token)
            } else {
                old(self)@
            },
    {
        let index: usize = token as usize;
        if index >= self.slots.len() {
            return None;
        }
        if self.slots[index].is_none() {
            return None;
        }
        proof {
            crate::service::slots::freeing_takes_out(self.slots@, index as int);
        }
        let node = self.slots[index].take();
        self.active_count = self.active_count - 1;
        let ghost slots = self.slots@;
        assert(slots == old(self)@.slots.update(index as int, None));
        let mut required_len: usize = self.slots.len();
        while required_len > 0 && self.slots[required_len - 1].is_none()
            invariant
                required_len <= self.slots@.len(),
                self.slots@ == slots,
                forall|i: int| required_len <= i < slots.len() ==> #[trigger] slots[i] is None,
            decreases required_len,
        {
            required_len = required_len - 1;
        }
        proof {
            crate::service::slots::occupied_len_unique(slots, required_len as int);
            crate::service::slots::storage_len_fits(required_len as nat);
            assert(vstd::arithmetic::power2::is_pow2(slots.len() as nat as int));
        }
        let power: usize = checked_next_power_of_two(required_len).unwrap();
        let new_len: usize = if power < MIN_IO_NODE_SLOTS {
            MIN_IO_NODE_SLOTS
        } else {
            power
        };
        proof {
            crate::service::slots::taken_ignores_free_tail(slots, new_len as int);
            crate::service::slots::occupied_len_ignores_free_tail(slots, new_len as int);
            assert(slots.take(slots.len() as int) == slots);
        }
        if new_len < self.slots.len() {
            self.slots.truncate(new_len);
        }
        assert(self.slots@ == slots.take(new_len as int));
        if self.next_poll_index >= self.slots.len() {
            self.next_poll_index = 0;
        }
        node
    }

    /// The next active token in round-robin order, if any node is active.
    pub fn next_active_token(&mut self) -> (token: Option<SelectorToken>)
        requires
            old(self).wf(),
        ensures
            final(self).wf(),
            token is Some <==> old(self)@.schedule().len() > 0,
            match token {
                Some(t) => {
                    &&& t == old(self)@.schedule().first()
                    &&& old(self)@.node(t) is Some
                    &&& final(self)@ == old(self)@.advanced(t)
                    &&& final(self)@.schedule() == old(self)@.schedule().drop_first().push(t as int)
                },
                None => final(self)@ == old(self)@,
            },
    {
        proof {
            crate::service::slots::walk_counts_all(self@.slots, self@.cursor);
        }
        if self.active_count == 0 {
            return None;
        }
        let ghost pre = self@;
        let len: usize = self.slots.len();
        let mut visited: usize = 0;
        proof {
            vstd::arithmetic::div_mod::lemma_small_mod(pre.cursor as nat, len as nat);
        }
        while visited < len
            invariant
                visited <= len,
                len == self.slots@.len(),
                self.slots@ == pre.slots,
                self.active_count == old(self).active_count,
                old(self).wf(),
                old(self)@ == pre,
                self@.cursor == (pre.cursor + visited) % len as int,
                0 <= self@.cursor < len,
                self@.schedule() == pre.schedule(),
                forall|j: int|
                    0 <= j < visited ==> pre.slots[#[trigger] ((pre.cursor + j)
                        % len as int)] is None,
            decreases len - visited,
        {
            let index: usize = self.next_poll_index;
            proof {
                crate::service::slots::mask_is_remainder((index + 1) as usize, len);
            }
            self.next_poll_index = (index + 1) & (self.slots.len() - 1);
            if self.slots[index].is_some() {
                proof {
                    crate::service::slots::walk_visits_taken(pre.slots, index as int);
                }
                return Some(index as SelectorToken);
            }
            proof {
                crate::service::slots::walk_passes_free(pre.slots, index as int);
                vstd::arithmetic::div_mod::lemma_add_mod_noop_right(
                    1,
                    pre.cursor + visited,
                    len as int,
                );
            }
            visited = visited + 1;
        }
        proof {
            let first = pre.schedule().first();
            crate::service::slots::walk_reaches_taken(pre.slots, pre.cursor);
            let j = (first - pre.cursor) % len as int;
            vstd::arithmetic::div_mod::lemma_add_mod_noop_right(
                pre.cursor,
                first - pre.cursor,
                len as int,
            );
            vstd::arithmetic::div_mod::lemma_small_mod(first as nat, len as nat);
            assert(pre.slots[(pre.cursor + j) % len as int] is None);
            assert(false);
        }
        None
    }

    /// All active nodes, by ascending token.
    pub fn values(&self) -> (nodes: Vec<&IONode<S, E>>)
        ensures
            nodes@.len() == crate::service::slots::taken(self@.slots).len(),
            forall|k: int|
                0 <= k < nodes@.len() ==> Some(*#[trigger] nodes@[k])
                    == self@.slots[crate::service::slots::taken(self@.slots)[k]],
    {
        let mut nodes: Vec<&IONode<S, E>> = Vec::new();
        let mut index: usize = 0;
        while index < self.slots.len()
            invariant
                index <= self.slots@.len(),
                nodes@.len() == crate::service::slots::taken_between(
                    self@.slots,
                    0,
                    index as int,
                ).len(),
                forall|k: int|
                    0 <= k < nodes@.len() ==> Some(*#[trigger] nodes@[k])
                        == self@.slots[crate::service::slots::taken_between(
                        self@.slots,
                        0,
                        index as int,
                    )[k]],
            decreases self.slots@.len() - index,
        {
            if let Some(node) = &self.slots[index] {
                nodes.push(node);
            }
            index = index + 1;
        }
        nodes
    }

    /// All active nodes, by ascending token, for changing them in place.
    pub fn values_mut(&mut self) -> (nodes: Vec<&mut IONode<S, E>>)
        ensures
            old(self).wf() ==> final(self).wf(),
            final(self)@.cursor == old(self)@.cursor,
            final(self)@.slots.len() == old(self)@.slots.len(),
            nodes@.len() == crate::service::slots::taken(old(self)@.slots).len(),
            forall|k: int| #![trigger nodes@[k]]
                0 <= k < nodes@.len() ==> {
                    let index = crate::service::slots::taken(old(self)@.slots)[k];
                    &&& Some(*nodes@[k]) == old(self)@.slots[index]
                    &&& Some(*final(nodes@[k])) == final(self)@.slots[index]
                },
            forall|i: int|
                0 <= i < old(self)@.slots.len() ==> (#[trigger] final(self)@.slots[i] is Some
                    <==> old(self)@.slots[i] is Some),
    {
        let mut nodes: Vec<&mut IONode<S, E>> = Vec::new();
        let mut rest: &mut [Option<IONode<S, E>>] = self.slots.as_mut_slice();
        let ghost slots = rest@;
        let ghost len = rest@.len() as int;
        let ghost mut index: int = 0;
        while rest.len() > 0
            invariant
                0 <= index <= len,
                len == slots.len(),
                rest@ == slots.subrange(index, len),
                after_borrow(self).slots@.len() == index + final(rest)@.len(),
                forall|i: int|
                    index <= i < after_borrow(self).slots@.len()
                        ==> #[trigger] after_borrow(self).slots@[i] == final(rest)@[i - index],
                forall|i: int|
                    0 <= i < index ==> (#[trigger] after_borrow(self).slots@[i] is Some
                        <==> slots[i] is Some),
                nodes@.len() == crate::service::slots::taken_between(slots, 0, index).len(),
                forall|k: int| #![trigger nodes@[k]]
                    0 <= k < nodes@.len() ==> {
                        let i = crate::service::slots::taken_between(slots, 0, index)[k];
                        &&& Some(*nodes@[k]) == slots[i]
                        &&& Some(*final(nodes@[k])) == after_borrow(self).slots@[i]
                    },
            decreases rest@.len(),
        {
            let (head, tail) = rest.split_at_mut(1);
            if let Some(node) = &mut head[0] {
                nodes.push(node);
            }
            proof {
                crate::service::slots::taken_between_is_ascending(slots, 0, index);
                index = index + 1;
            }
            rest = tail;
        }
        proof {
            crate::service::slots::taken_between_same(slots, after_borrow(self).slots@, 0, len);
            crate::service::slots::occupied_len_same(slots, after_borrow(self).slots@);
        }
        nodes
    }
}

/// Time to live in nanoseconds of a node that is made with `ttl`: without one, as long as 64 bits
/// hold.
pub open spec fn ttl_nanos(ttl: Option<Duration>) -> nat {
    match ttl {
        Some(span) => crate::service::time::low_64_bits(span@),
        None => u64::MAX as nat,
    }
}

impl<S, E> IONode<S, E> {
    /// This is the node of an endpoint that became active at `now_ns`.
    pub open spec fn made_at(
        self,
        stream: S,
        handle: Handle,
        endpoint: E,
        ttl: Option<Duration>,
        now_ns: u64,
    ) -> bool {
        &&& self.stream == stream
        &&& self.endpoint == (handle, endpoint)
        &&& self.ttl@ == ttl_nanos(ttl)
        &&& self.disconnect_time_ns == crate::service::time::time_after(now_ns, ttl_nanos(ttl))
    }

    /// This node with another endpoint in it.
    pub open spec fn with_endpoint(self, endpoint: E) -> Self {
        IONode { endpoint: (self.endpoint.0, endpoint), ..self }
    }

    /// Creates the node of an endpoint that becomes active now. It is due to be disconnected when
    /// `ttl` has passed, and never without one.
    pub fn new<TS>(stream: S, handle: Handle, endpoint: E, ttl: Option<Duration>, ts: &TS) -> (node:
        IONode<S, E>) where TS: TimeSource
        ensures
            exists|now_ns: u64| #[trigger]
                ts.shows(now_ns) && node.made_at(stream, handle, endpoint, ttl, now_ns),
    {
        let ttl_ns: u64 = match ttl {
            Some(span) => span.as_nanos_64(),
            None => u64::MAX,
        };
        let now_ns: u64 = ts.current_time_nanos();
        IONode {
            stream,
            endpoint: (handle, endpoint),
            ttl: Duration::from_nanos(ttl_ns),
            disconnect_time_ns: now_ns.saturating_add(ttl_ns),
        }
    }

    /// The stream, and the handle with the endpoint.
    pub fn as_parts(&self) -> (parts: (&S, &(Handle, E)))
        ensures
            *parts.0 == self.stream,
            *parts.1 == self.endpoint,
    {
        (&self.stream, &self.endpoint)
    }

    /// The stream, and the handle with the endpoint, for changing them in place.
    pub fn as_parts_mut(&mut self) -> (parts: (&mut S, &mut (Handle, E)))
        ensures
            *parts.0 == old(self).stream,
            *parts.1 == old(self).endpoint,
            *final(self) == (IONode {
                stream: *final(parts.0),
                endpoint: *final(parts.1),
                ..*old(self)
            }),
    {
        (&mut self.stream, &mut self.endpoint)
    }

    /// The stream.
    pub fn as_stream(&self) -> (stream: &S)
        ensures
            *stream == self.stream,
    {
        &self.stream
    }

    /// The stream, for changing it in place.
    pub fn as_stream_mut(&mut self) -> (stream: &mut S)
        ensures
            *stream == old(self).stream,
            *final(self) == (IONode { stream: *final(stream), ..*old(self) }),
    {
        &mut self.stream
    }

    /// The handle with the endpoint.
    pub fn as_endpoint(&self) -> (endpoint: &(Handle, E))
        ensures
            *endpoint == self.endpoint,
    {
        &self.endpoint
    }

    /// The handle with the endpoint, for changing them in place.
    pub fn as_endpoint_mut(&mut self) -> (endpoint: &mut (Handle, E))
        ensures
            *endpoint == old(self).endpoint,
            *final(self) == (IONode { endpoint: *final(endpoint), ..*old(self) }),
    {
        &mut self.endpoint
    }

    /// Gives up the stream and keeps the handle with the endpoint.
    pub fn into_endpoint(self) -> (endpoint: (Handle, E))
        ensures
            endpoint == self.endpoint,
    {
        self.endpoint
    }
}

} // verus!
