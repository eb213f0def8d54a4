//! Token-indexed slots: which of them are taken, in what order they are visited, and how many of
//! them are kept.

use vstd::prelude::*;

verus! {

/// Fewest slots that are ever kept.
pub const MIN_IO_NODE_SLOTS: usize = 4;

/// The taken slots at `lo` and above, below `hi`, in ascending order.
pub open spec fn taken_between<N>(slots: Seq<Option<N>>, lo: int, hi: int) -> Seq<int>
    decreases hi - lo,
{
    if hi <= lo {
        Seq::empty()
    } else if slots[hi - 1] is Some {
        taken_between(slots, lo, hi - 1).push(hi - 1)
    } else {
        taken_between(slots, lo, hi - 1)
    }
}

/// All taken slots, in ascending order.
pub open spec fn taken<N>(slots: Seq<Option<N>>) -> Seq<int> {
    taken_between(slots, 0, slots.len() as int)
}

/// All taken slots, in the order in which a walk that starts at `cursor` and wraps around at the
/// end reaches them.
pub open spec fn walk<N>(slots: Seq<Option<N>>, cursor: int) -> Seq<int> {
    taken_between(slots, cursor, slots.len() as int) + taken_between(slots, 0, cursor)
}

/// Tells the other slots from the slot `index`.
pub open spec fn other_slot(index: int) -> spec_fn(int) -> bool {
    |slot: int| slot != index
}

/// Number of slots up to and including the last taken one.
pub open spec fn occupied_len<N>(slots: Seq<Option<N>>) -> nat
    decreases slots.len(),
{
    if slots.len() == 0 {
        0
    } else if slots.last() is Some {
        slots.len()
    } else {
        occupied_len(slots.drop_last())
    }
}

/// The smallest power of two that is not below `n`.
pub open spec fn next_pow2(n: nat) -> nat
    decreases n,
{
    if n <= 1 {
        1
    } else {
        2 * next_pow2(((n + 1) / 2) as nat)
    }
}

/// Number of slots that are kept when `required` of them are needed.
pub open spec fn storage_len(required: nat) -> nat {
    if next_pow2(required) < MIN_IO_NODE_SLOTS {
        MIN_IO_NODE_SLOTS as nat
    } else {
        next_pow2(required)
    }
}

/// The first slots of `slots`, extended by free ones to `len`.
pub open spec fn padded<N>(slots: Seq<Option<N>>, len: nat) -> Seq<Option<N>> {
    Seq::new(
        len,
        |i: int|
            if i < slots.len() {
                slots[i]
            } else {
                None
            },
    )
}

/// `next_pow2(n)` is a power of two, it is not below `n`, and no smaller power of two is.
pub proof fn next_pow2_is_least(n: nat)
    ensures
        vstd::arithmetic::power2::is_pow2(next_pow2(n) as int),
        n <= next_pow2(n),
        forall|p: nat|
            #[trigger] vstd::arithmetic::power2::is_pow2(p as int) && n <= p ==> next_pow2(n) <= p,
    decreases n,
{
    reveal(vstd::arithmetic::power2::is_pow2);
    if n > 1 {
        let half = ((n + 1) / 2) as nat;
        next_pow2_is_least(half);
        assert forall|p: nat| #[trigger]
            vstd::arithmetic::power2::is_pow2(p as int) && n <= p implies next_pow2(n) <= p by {
            assert(vstd::arithmetic::power2::is_pow2((p / 2) as nat as int));
        }
    }
}

/// Between a power of two and its double there is no other.
pub proof fn pow2_gap(p: nat, q: nat)
    requires
        vstd::arithmetic::power2::is_pow2(p as int),
        vstd::arithmetic::power2::is_pow2(q as int),
        p < q,
    ensures
        2 * p <= q,
    decreases q,
{
    reveal(vstd::arithmetic::power2::is_pow2);
    if p > 1 {
        pow2_gap(p / 2, q / 2);
    }
}

/// No token needs more slots than there are tokens.
pub proof fn token_storage_bound(token: u32)
    ensures
        storage_len(token as nat + 1) <= u32::MAX + 1,
{
    storage_len_fits(token as nat + 1);
    assert(vstd::arithmetic::power2::is_pow2(0x1_0000_0000)) by {
        reveal_with_fuel(vstd::arithmetic::power2::is_pow2, 33);
    }
    assert(vstd::arithmetic::power2::is_pow2(0x1_0000_0000nat as int));
}

/// A power of two that is not below `n`, while its half is, is `next_pow2(n)`.
pub proof fn next_pow2_unique(n: nat, p: nat)
    requires
        vstd::arithmetic::power2::is_pow2(p as int),
        n <= p,
        p == 1 || p / 2 < n,
    ensures
        p == next_pow2(n),
    decreases n,
{
    reveal(vstd::arithmetic::power2::is_pow2);
    if n > 1 {
        next_pow2_unique(((n + 1) / 2) as nat, p / 2);
    }
}

/// The kept slots are a power of two in number and suffice.
pub proof fn storage_len_fits(required: nat)
    ensures
        vstd::arithmetic::power2::is_pow2(storage_len(required) as int),
        required <= storage_len(required),
        MIN_IO_NODE_SLOTS <= storage_len(required),
        forall|p: nat|
            #[trigger] vstd::arithmetic::power2::is_pow2(p as int) && required <= p
                && MIN_IO_NODE_SLOTS <= p ==> storage_len(required) <= p,
{
    next_pow2_is_least(required);
    assert(vstd::arithmetic::power2::is_pow2(4)) by {
        reveal_with_fuel(vstd::arithmetic::power2::is_pow2, 3);
    }
}

/// Masking with one less than a power of two gives the remainder of the division by it.
pub proof fn mask_is_remainder(x: usize, len: usize)
    requires
        vstd::arithmetic::power2::is_pow2(len as int),
    ensures
        0 < len,
        x & (len - 1) as usize == x % len,
{
    reveal(vstd::arithmetic::power2::is_pow2);
    vstd::arithmetic::power2::is_pow2_equiv(len as int);
    let e: nat = choose|e: nat| vstd::arithmetic::power::pow(2, e) == len;
    vstd::arithmetic::power2::lemma_pow2(e);
    if e >= usize::BITS {
        vstd::arithmetic::power2::lemma2_to64();
        if e > usize::BITS {
            vstd::arithmetic::power2::lemma_pow2_strictly_increases(usize::BITS as nat, e);
        }
        assert(false);
    }
    vstd::bits::lemma_usize_low_bits_mask_is_mod(x, e);
}

/// The taken slots of a range are those of its two parts, one after the other.
pub proof fn taken_between_splits<N>(slots: Seq<Option<N>>, lo: int, mid: int, hi: int)
    requires
        lo <= mid <= hi,
    ensures
        taken_between(slots, lo, hi) == taken_between(slots, lo, mid) + taken_between(
            slots,
            mid,
            hi,
        ),
    decreases hi - mid,
{
    if mid < hi {
        taken_between_splits(slots, lo, mid, hi - 1);
    }
}

/// The taken slots of a range depend on nothing but which of its slots are taken.
pub proof fn taken_between_same<N, M>(a: Seq<Option<N>>, b: Seq<Option<M>>, lo: int, hi: int)
    requires
        forall|i: int| lo <= i < hi ==> (#[trigger] a[i] is Some <==> b[i] is Some),
    ensures
        taken_between(a, lo, hi) == taken_between(b, lo, hi),
    decreases hi - lo,
{
    if lo < hi {
        taken_between_same(a, b, lo, hi - 1);
        assert(a[hi - 1] is Some <==> b[hi - 1] is Some);
    }
}

/// The taken slots of a range are all there, each once, in ascending order.
pub proof fn taken_between_is_ascending<N>(slots: Seq<Option<N>>, lo: int, hi: int)
    ensures
        forall|k: int|
            0 <= k < taken_between(slots, lo, hi).len() ==> lo <= #[trigger] taken_between(
                slots,
                lo,
                hi,
            )[k] < hi && slots[taken_between(slots, lo, hi)[k]] is Some,
        forall|j: int, k: int|
            0 <= j < k < taken_between(slots, lo, hi).len() ==> #[trigger] taken_between(
                slots,
                lo,
                hi,
            )[j] < #[trigger] taken_between(slots, lo, hi)[k],
        forall|i: int|
            lo <= i < hi && #[trigger] slots[i] is Some ==> taken_between(slots, lo, hi).contains(
                i,
            ),
        taken_between(slots, lo, hi).len() <= if lo < hi {
            hi - lo
        } else {
            0
        },
    decreases hi - lo,
{
    if lo < hi {
        taken_between_is_ascending(slots, lo, hi - 1);
        let before = taken_between(slots, lo, hi - 1);
        assert forall|i: int| lo <= i < hi && #[trigger] slots[i] is Some implies taken_between(
            slots,
            lo,
            hi,
        ).contains(i) by {
            if i < hi - 1 {
                let k = choose|k: int| 0 <= k < before.len() && before[k] == i;
                assert(taken_between(slots, lo, hi)[k] == i);
            } else {
                assert(taken_between(slots, lo, hi).last() == i);
            }
        }
    }
}

/// Another node in a taken slot leaves the taken slots as they are.
pub proof fn replacing_keeps_taken<N>(slots: Seq<Option<N>>, index: int)
    requires
        0 <= index < slots.len(),
    ensures
        slots.update(index, slots[index]) == slots,
        slots[index] is Some ==> forall|node: N|
            occupied_len(#[trigger] slots.update(index, Some(node))) == occupied_len(slots),
        slots[index] is Some ==> forall|node: N|
            taken(#[trigger] slots.update(index, Some(node))) == taken(slots),
        slots[index] is Some ==> forall|node: N, cursor: int|
            0 <= cursor <= slots.len() ==> #[trigger] walk(
                slots.update(index, Some(node)),
                cursor,
            ) == walk(slots, cursor),
{
    if slots[index] is Some {
        assert forall|node: N|
            occupied_len(#[trigger] slots.update(index, Some(node))) == occupied_len(slots) by {
            occupied_len_same(slots, slots.update(index, Some(node)));
        }
        assert forall|node: N|
            taken(#[trigger] slots.update(index, Some(node))) == taken(slots) by {
            taken_between_same(slots, slots.update(index, Some(node)), 0, slots.len() as int);
        }
        assert forall|node: N, cursor: int| 0 <= cursor <= slots.len() implies #[trigger] walk(
            slots.update(index, Some(node)),
            cursor,
        ) == walk(slots, cursor) by {
            taken_between_same(slots, slots.update(index, Some(node)), 0, cursor);
            taken_between_same(slots, slots.update(index, Some(node)), cursor, slots.len() as int);
        }
    }
}

/// Taking one more slot adds one to their number.
pub proof fn taking_adds_one<N>(slots: Seq<Option<N>>, index: int, node: N)
    requires
        0 <= index < slots.len(),
        slots[index] is None,
    ensures
        taken(slots.update(index, Some(node))).len() == taken(slots).len() + 1,
{
    let after = slots.update(index, Some(node));
    let len = slots.len() as int;
    taken_between_splits(slots, 0, index, len);
    taken_between_splits(slots, index, index + 1, len);
    taken_between_splits(after, 0, index, len);
    taken_between_splits(after, index, index + 1, len);
    taken_between_same(slots, after, 0, index);
    taken_between_same(slots, after, index + 1, len);
    assert(taken_between(slots, index, index).len() == 0);
    assert(taken_between(after, index, index).len() == 0);
}

/// Freeing a slot takes it out of the taken ones and leaves the others as they are.
pub proof fn freeing_takes_out<N>(slots: Seq<Option<N>>, index: int)
    requires
        0 <= index < slots.len(),
        slots[index] is Some,
    ensures
        ({
            let after = slots.update(index, None);
            let len = slots.len() as int;
            &&& taken(slots) == taken_between(slots, 0, index) + seq![index] + taken_between(
                slots,
                index + 1,
                len,
            )
            &&& taken(after) == taken_between(slots, 0, index) + taken_between(
                slots,
                index + 1,
                len,
            )
        }),
{
    let after = slots.update(index, None);
    let len = slots.len() as int;
    taken_between_splits(slots, 0, index, len);
    taken_between_splits(slots, index, index + 1, len);
    taken_between_splits(after, 0, index, len);
    taken_between_splits(after, index, index + 1, len);
    taken_between_same(slots, after, 0, index);
    taken_between_same(slots, after, index + 1, len);
    assert(taken_between(slots, index, index).len() == 0);
    assert(taken_between(slots, index, index + 1) == seq![index]);
    assert(taken_between(after, index, index) == Seq::<int>::empty());
    assert(taken_between(after, index, index + 1) == Seq::<int>::empty());
}

/// Free slots at the end do not count.
pub proof fn taken_ignores_free_tail<N>(slots: Seq<Option<N>>, len: int)
    requires
        0 <= len <= slots.len(),
        forall|i: int| len <= i < slots.len() ==> #[trigger] slots[i] is None,
    ensures
        taken(slots) == taken_between(slots, 0, len),
        taken(slots.take(len)) == taken(slots),
    decreases slots.len() - len,
{
    taken_between_splits(slots, 0, len, slots.len() as int);
    taken_between_is_ascending(slots, len, slots.len() as int);
    assert(taken_between(slots, len, slots.len() as int).len() == 0) by {
        let tail = taken_between(slots, len, slots.len() as int);
        if tail.len() > 0 {
            assert(slots[tail[0]] is Some);
        }
    }
    taken_between_same(slots, slots.take(len), 0, len);
}

/// The last taken slot is the last of the occupied ones.
pub proof fn occupied_len_is_least<N>(slots: Seq<Option<N>>)
    ensures
        occupied_len(slots) <= slots.len(),
        occupied_len(slots) > 0 ==> slots[occupied_len(slots) - 1] is Some,
        forall|i: int| occupied_len(slots) <= i < slots.len() ==> #[trigger] slots[i] is None,
    decreases slots.len(),
{
    if slots.len() > 0 && slots.last() is None {
        let front = slots.drop_last();
        occupied_len_is_least(front);
        assert forall|i: int|
            occupied_len(slots) <= i < slots.len() implies #[trigger] slots[i] is None by {
            if i < front.len() {
                assert(front[i] is None);
            }
        }
    }
}

/// The occupied slots end where nothing but free slots follows.
pub proof fn occupied_len_unique<N>(slots: Seq<Option<N>>, len: int)
    requires
        0 <= len <= slots.len(),
        len > 0 ==> slots[len - 1] is Some,
        forall|i: int| len <= i < slots.len() ==> #[trigger] slots[i] is None,
    ensures
        occupied_len(slots) == len,
{
    occupied_len_is_least(slots);
}

/// Where the occupied slots end depends on nothing but which slots are taken.
pub proof fn occupied_len_same<N, M>(a: Seq<Option<N>>, b: Seq<Option<M>>)
    requires
        a.len() == b.len(),
        forall|i: int| 0 <= i < a.len() ==> (#[trigger] a[i] is Some <==> b[i] is Some),
    ensures
        occupied_len(a) == occupied_len(b),
{
    occupied_len_is_least(a);
    let len = occupied_len(a) as int;
    assert forall|i: int| len <= i < b.len() implies #[trigger] b[i] is None by {
        assert(a[i] is None);
    }
    occupied_len_unique(b, len);
}

/// Taking a slot of a storage that is as small as it can be leaves it so.
pub proof fn taking_keeps_tight<N>(slots: Seq<Option<N>>, index: int, node: N)
    requires
        0 <= index < slots.len(),
        slots.len() == storage_len(occupied_len(slots)),
    ensures
        slots.len() == storage_len(occupied_len(slots.update(index, Some(node)))),
{
    let after = slots.update(index, Some(node));
    occupied_len_is_least(slots);
    occupied_len_is_least(after);
    if occupied_len(after) < occupied_len(slots) {
        assert(after[occupied_len(slots) - 1] is None);
    }
    storage_len_fits(occupied_len(slots));
    storage_len_fits(occupied_len(after));
    assert(vstd::arithmetic::power2::is_pow2(storage_len(occupied_len(slots)) as int));
    assert(vstd::arithmetic::power2::is_pow2(storage_len(occupied_len(after)) as int));
}

/// A storage that was extended for its last taken slot is as small as it can be.
pub proof fn extending_keeps_tight<N>(slots: Seq<Option<N>>, index: int, node: N)
    requires
        slots.len() <= index,
    ensures
        ({
            let len = storage_len((index + 1) as nat);
            len == storage_len(occupied_len(padded(slots, len).update(index, Some(node))))
        }),
{
    let len = storage_len((index + 1) as nat);
    storage_len_fits((index + 1) as nat);
    occupied_len_unique(padded(slots, len).update(index, Some(node)), index + 1);
}

/// Dropping free slots at the end does not move the end of the occupied ones.
pub proof fn occupied_len_ignores_free_tail<N>(slots: Seq<Option<N>>, len: int)
    requires
        occupied_len(slots) <= len <= slots.len(),
    ensures
        occupied_len(slots.take(len)) == occupied_len(slots),
{
    occupied_len_is_least(slots);
    assert forall|i: int| occupied_len(slots) <= i < len implies #[trigger] slots.take(
        len,
    )[i] is None by {
        assert(slots[i] is None);
    }
    occupied_len_unique(slots.take(len), occupied_len(slots) as int);
}

/// The walk is made of all taken slots.
pub proof fn walk_counts_all<N>(slots: Seq<Option<N>>, cursor: int)
    requires
        0 <= cursor <= slots.len(),
    ensures
        walk(slots, cursor).len() == taken(slots).len(),
{
    taken_between_splits(slots, 0, cursor, slots.len() as int);
}

/// The walk reaches taken slots only.
pub proof fn walk_reaches_taken<N>(slots: Seq<Option<N>>, cursor: int)
    requires
        0 <= cursor <= slots.len(),
    ensures
        forall|k: int|
            0 <= k < walk(slots, cursor).len() ==> 0 <= #[trigger] walk(slots, cursor)[k]
                < slots.len() && slots[walk(slots, cursor)[k]] is Some,
{
    taken_between_is_ascending(slots, 0, cursor);
    taken_between_is_ascending(slots, cursor, slots.len() as int);
}

/// A walk that starts at a free slot is the walk that starts at the slot after it.
pub proof fn walk_passes_free<N>(slots: Seq<Option<N>>, cursor: int)
    requires
        0 <= cursor < slots.len(),
        slots[cursor] is None,
    ensures
        walk(slots, cursor) == walk(slots, (cursor + 1) % slots.len() as int),
{
    let len = slots.len() as int;
    taken_between_splits(slots, cursor, cursor + 1, len);
    assert(taken_between(slots, cursor, cursor) == Seq::<int>::empty());
    if cursor + 1 == len {
        assert(taken_between(slots, len, len) == Seq::<int>::empty());
        assert(taken_between(slots, 0, 0) == Seq::<int>::empty());
        assert((cursor + 1) % len == 0);
    } else {
        vstd::arithmetic::div_mod::lemma_small_mod((cursor + 1) as nat, len as nat);
    }
}

/// A walk that starts at a taken slot visits it first, and the walk that starts after it visits it
/// last.
pub proof fn walk_visits_taken<N>(slots: Seq<Option<N>>, cursor: int)
    requires
        0 <= cursor < slots.len(),
        slots[cursor] is Some,
    ensures
        walk(slots, cursor).len() > 0,
        walk(slots, cursor).first() == cursor,
        walk(slots, (cursor + 1) % slots.len() as int) == walk(slots, cursor).drop_first().push(
            cursor,
        ),
{
    let len = slots.len() as int;
    taken_between_splits(slots, cursor, cursor + 1, len);
    assert(taken_between(slots, cursor, cursor) == Seq::<int>::empty());
    assert(taken_between(slots, cursor, cursor + 1) == seq![cursor]);
    if cursor + 1 == len {
        assert(taken_between(slots, len, len) == Seq::<int>::empty());
        assert(taken_between(slots, 0, 0) == Seq::<int>::empty());
        assert((cursor + 1) % len == 0);
    } else {
        vstd::arithmetic::div_mod::lemma_small_mod((cursor + 1) as nat, len as nat);
    }
}

/// A walk may start at the first slot that it visits.
pub proof fn walk_starts_at_first<N>(slots: Seq<Option<N>>, cursor: int)
    requires
        0 <= cursor < slots.len(),
        walk(slots, cursor).len() > 0,
    ensures
        walk(slots, walk(slots, cursor).first()) == walk(slots, cursor),
{
    let len = slots.len() as int;
    let first = walk(slots, cursor).first();
    taken_between_is_ascending(slots, cursor, len);
    taken_between_is_ascending(slots, 0, cursor);
    let late = taken_between(slots, cursor, len);
    if late.len() > 0 {
        taken_between_splits(slots, cursor, first, len);
        taken_between_splits(slots, 0, cursor, first);
        assert forall|i: int| cursor <= i < first implies #[trigger] slots[i] is None by {
            if slots[i] is Some {
                let k = choose|k: int| 0 <= k < late.len() && late[k] == i;
                assert(late[0] <= late[k]);
            }
        }
        taken_between_free(slots, cursor, first);
    } else {
        let early = taken_between(slots, 0, cursor);
        taken_between_splits(slots, 0, first, cursor);
        taken_between_splits(slots, first, cursor, len);
        assert forall|i: int| 0 <= i < first implies #[trigger] slots[i] is None by {
            if slots[i] is Some {
                let k = choose|k: int| 0 <= k < early.len() && early[k] == i;
                assert(early[0] <= early[k]);
            }
        }
        taken_between_free(slots, 0, first);
    }
}

/// A range of free slots has no taken one.
pub proof fn taken_between_free<N>(slots: Seq<Option<N>>, lo: int, hi: int)
    requires
        forall|i: int| lo <= i < hi ==> #[trigger] slots[i] is None,
    ensures
        taken_between(slots, lo, hi) == Seq::<int>::empty(),
{
    taken_between_is_ascending(slots, lo, hi);
    if taken_between(slots, lo, hi).len() > 0 {
        assert(slots[taken_between(slots, lo, hi)[0]] is Some);
    }
}

/// Leaving one slot out of the taken ones is the same as freeing it.
pub proof fn filtering_one_out<N>(slots: Seq<Option<N>>, index: int, lo: int, hi: int)
    requires
        0 <= index < slots.len(),
        0 <= lo,
        hi <= slots.len(),
    ensures
        taken_between(slots, lo, hi).filter(other_slot(index)) == taken_between(
            slots.update(index, None),
            lo,
            hi,
        ),
    decreases hi - lo,
{
    reveal(Seq::filter);
    if lo < hi {
        filtering_one_out(slots, index, lo, hi - 1);
        let before = taken_between(slots, lo, hi - 1);
        assert(before.push(hi - 1).drop_last() == before);
        assert(before.push(hi - 1).last() == hi - 1);
    }
}

} // verus!
