//! The collector: marks what the roots reach, overwrites the rest with
//! tombstones, and cuts the tombstones off the end of the heap.
//!
//! Marking goes one level deep: a root is marked, and so is every address
//! that the list or object at a root holds directly. What a marked container
//! holds is not followed further.

use std::collections::BTreeSet;
use vstd::prelude::*;
use crate::error::VmError;
use crate::heap::{Heap, HeapValue, UnsizedValue};
use crate::stack::Stack;
use crate::store::Store;
use crate::value::{SizedValue, addresses_among, addresses_of};

verus! {

/// The roots: every address on the operand stack and every address in a
/// variable slot.
pub open spec fn roots(stack: Seq<SizedValue>, store: Seq<SizedValue>) -> Set<usize> {
    addresses_among(stack).union(addresses_among(store))
}

/// Whether every root addresses a slot of the heap.
pub open spec fn resolved(roots: Set<usize>, heap: Seq<HeapValue>) -> bool {
    forall|root: usize| roots.contains(root) ==> root < heap.len()
}

/// The marked addresses: the roots, and what the values at the roots hold
/// directly.
pub open spec fn marked(roots: Set<usize>, heap: Seq<HeapValue>) -> Set<usize> {
    Set::new(
        |address: usize|
            roots.contains(address) || exists|root: usize|
                roots.contains(root) && root < heap.len() && #[trigger] heap[root as int].references().contains(
                    address,
                ),
    )
}

/// The heap with a tombstone in every slot that is not marked.
pub open spec fn swept(heap: Seq<HeapValue>, marked: Set<usize>) -> Seq<HeapValue> {
    Seq::new(
        heap.len(),
        |i: int|
            if marked.contains(i as usize) {
                heap[i]
            } else {
                HeapValue::Empty
            },
    )
}

/// The length of the heap without the tombstones at its end.
pub open spec fn live_len(heap: Seq<HeapValue>) -> nat
    decreases heap.len(),
{
    if heap.len() > 0 && heap.last() is Empty {
        live_len(heap.drop_last())
    } else {
        heap.len()
    }
}

/// The heap without the tombstones at its end. Tombstones before a live
/// value stay.
pub open spec fn trimmed(heap: Seq<HeapValue>) -> Seq<HeapValue> {
    heap.take(live_len(heap) as int)
}

/// The heap after one collection with these roots.
pub open spec fn collected(roots: Set<usize>, heap: Seq<HeapValue>) -> Seq<HeapValue> {
    trimmed(swept(heap, marked(roots, heap)))
}

/// The addresses marked from the first `count` of `roots`.
spec fn marked_from(roots: Seq<usize>, count: int, heap: Seq<HeapValue>) -> Set<usize> {
    Set::new(
        |address: usize|
            exists|j: int|
                0 <= j < count && (#[trigger] roots[j] == address || heap[roots[j] as int].references().contains(
                    address,
                )),
    )
}

/// Adds `address` to the marked set.
fn mark_address(set: &mut BTreeSet<usize>, address: usize)
    ensures
        final(set)@ == old(set)@.insert(address),
{
    broadcast use vstd::std_specs::btree::group_btree_axioms;
    broadcast use vstd::laws_cmp::group_laws_cmp;

    set.insert(address);
}

/// Whether `address` is in the marked set.
fn is_marked(set: &BTreeSet<usize>, address: usize) -> (found: bool)
    ensures
        found == set@.contains(address),
{
    broadcast use vstd::std_specs::btree::group_btree_axioms;
    broadcast use vstd::laws_cmp::group_laws_cmp;

    set.contains(&address)
}

/// Marking from one more root adds the root and what the value there holds.
proof fn lemma_marked_step(roots: Seq<usize>, count: int, heap: Seq<HeapValue>)
    requires
        0 <= count < roots.len(),
    ensures
        marked_from(roots, count + 1, heap) == marked_from(roots, count, heap).insert(roots[count]).union(
            heap[roots[count] as int].references(),
        ),
{
    let next = marked_from(roots, count + 1, heap);
    let sum = marked_from(roots, count, heap).insert(roots[count]).union(
        heap[roots[count] as int].references(),
    );
    assert forall|a: usize| next.contains(a) <==> sum.contains(a) by {
        if next.contains(a) {
            let j = choose|j: int|
                0 <= j < count + 1 && (#[trigger] roots[j] == a || heap[roots[j] as int].references().contains(
                    a,
                ));
            if j < count {
                assert(marked_from(roots, count, heap).contains(a));
            }
        }
        if marked_from(roots, count, heap).contains(a) {
            let j = choose|j: int|
                0 <= j < count && (#[trigger] roots[j] == a || heap[roots[j] as int].references().contains(
                    a,
                ));
            assert(roots[j] == a || heap[roots[j] as int].references().contains(a));
        }
        if a == roots[count] || heap[roots[count] as int].references().contains(a) {
            assert(roots[count] == a || heap[roots[count] as int].references().contains(a));
        }
    }
    assert(next =~= sum);
}

/// Marking from every root of a sequence marks what [`marked`] says of the
/// set of them.
proof fn lemma_marked_all(roots: Seq<usize>, heap: Seq<HeapValue>)
    requires
        forall|j: int| 0 <= j < roots.len() ==> roots[j] < heap.len(),
    ensures
        resolved(roots.to_set(), heap),
        marked_from(roots, roots.len() as int, heap) == marked(roots.to_set(), heap),
{
    let all = roots.to_set();
    let set = marked_from(roots, roots.len() as int, heap);
    assert forall|root: usize| all.contains(root) implies root < heap.len() by {
        let j = choose|j: int| 0 <= j < roots.len() && roots[j] == root;
        assert(roots[j] < heap.len());
    }
    assert forall|a: usize| set.contains(a) <==> marked(all, heap).contains(a) by {
        if set.contains(a) {
            let j = choose|j: int|
                0 <= j < roots.len() && (#[trigger] roots[j] == a || heap[roots[j] as int].references().contains(
                    a,
                ));
            assert(all.contains(roots[j]));
            if roots[j] != a {
                assert(heap[roots[j] as int].references().contains(a));
            }
        }
        if marked(all, heap).contains(a) {
            if all.contains(a) {
                let j = choose|j: int| 0 <= j < roots.len() && roots[j] == a;
                assert(roots[j] == a);
            } else {
                let root = choose|root: usize|
                    all.contains(root) && root < heap.len() && #[trigger] heap[root as int].references().contains(
                        a,
                    );
                let j = choose|j: int| 0 <= j < roots.len() && roots[j] == root;
                assert(roots[j] == root || heap[roots[j] as int].references().contains(a));
            }
        }
    }
    assert(set =~= marked(all, heap));
}

/// The mark phase. A root that addresses no slot is not passed over: it is
/// an error, and nothing is marked.
pub fn mark(roots: &Vec<usize>, heap: &Heap) -> (result: Result<BTreeSet<usize>, VmError>)
    ensures
        match result {
            Ok(set) => resolved(roots@.to_set(), heap@) && set@ == marked(roots@.to_set(), heap@),
            Err(e) => e == VmError::UnresolvedAddress && !resolved(roots@.to_set(), heap@),
        },
{
    let mut set: BTreeSet<usize> = BTreeSet::new();
    let mut i: usize = 0;
    assert(set@ =~= marked_from(roots@, 0, heap@));
    while i < roots.len()
        invariant
            i <= roots.len(),
            forall|j: int| 0 <= j < i ==> roots@[j] < heap@.len(),
            set@ == marked_from(roots@, i as int, heap@),
        decreases roots.len() - i,
    {
        let root = roots[i];
        if root >= heap.len() {
            proof {
                assert(roots@.to_set().contains(root));
            }
            return Err(VmError::UnresolvedAddress);
        }
        mark_address(&mut set, root);
        let held = heap.values[root].references();
        let ghost base = set@;
        let mut k: usize = 0;
        assert(set@ =~= base.union(held@.take(0).to_set()));
        while k < held.len()
            invariant
                k <= held.len(),
                set@ == base.union(held@.take(k as int).to_set()),
            decreases held.len() - k,
        {
            mark_address(&mut set, held[k]);
            proof {
                held@.take(k as int).lemma_push_to_set_commute(held@[k as int]);
                assert(held@.take(k + 1) =~= held@.take(k as int).push(held@[k as int]));
                assert(set@ =~= base.union(held@.take(k + 1).to_set()));
            }
            k = k + 1;
        }
        proof {
            assert(held@.take(held@.len() as int) =~= held@);
            lemma_marked_step(roots@, i as int, heap@);
        }
        i = i + 1;
    }
    proof {
        lemma_marked_all(roots@, heap@);
    }
    Ok(set)
}

/// The sweep phase: a tombstone goes into every slot whose address is not
/// in `marked`.
pub fn sweep(heap: &mut Heap, marked: &BTreeSet<usize>)
    ensures
        final(heap)@ == swept(old(heap)@, marked@),
{
    let mut index: usize = 0;
    while index < heap.values.len()
        invariant
            index <= heap@.len(),
            heap@.len() == old(heap)@.len(),
            forall|k: int|
                0 <= k < heap@.len() ==> #[trigger] heap@[k] == if k < index {
                    swept(old(heap)@, marked@)[k]
                } else {
                    old(heap)@[k]
                },
        decreases heap@.len() - index,
    {
        let ghost before = heap@;
        if !is_marked(marked, index) {
            heap.values.set(index, UnsizedValue::Empty);
            assert(heap@ =~= before.update(index as int, HeapValue::Empty));
        }
        assert(heap@[index as int] == swept(old(heap)@, marked@)[index as int]);
        index = index + 1;
    }
    assert(heap@ =~= swept(old(heap)@, marked@));
}

/// The trim phase: the tombstones at the end of the heap are cut off.
pub fn trim(heap: &mut Heap)
    ensures
        final(heap)@ == trimmed(old(heap)@),
{
    let mut len: usize = heap.values.len();
    assert(heap@.take(len as int) =~= heap@);
    while len > 0 && matches!(heap.values[len - 1], UnsizedValue::Empty)
        invariant
            len <= heap@.len(),
            heap@ == old(heap)@,
            live_len(heap@) == live_len(heap@.take(len as int)),
        decreases len,
    {
        proof {
            assert(heap@.take(len as int).drop_last() =~= heap@.take(len - 1));
        }
        len = len - 1;
    }
    heap.truncate(len);
}

/// How long the collector waits before it collects again, in nanoseconds:
/// a hundred times as long as the last instruction took, as far as that can
/// be counted.
pub fn pause_nanos(last_instruction_nanos: u64) -> (pause: u64)
    ensures
        pause == if 100 * last_instruction_nanos <= u64::MAX {
            100 * last_instruction_nanos
        } else {
            u64::MAX as int
        },
{
    if last_instruction_nanos <= u64::MAX / 100 {
        100 * last_instruction_nanos
    } else {
        u64::MAX
    }
}

/// One collection: mark from the roots on the stack and in the store, sweep,
/// trim. The stack and the store are only read.
///
/// A root that addresses no slot is an error, and the heap is then left as
/// it was.
pub fn gc(stack: &mut Stack, heap: &mut Heap, store: &mut Store) -> (result: Result<(), VmError>)
    ensures
        final(stack)@ == old(stack)@,
        final(store)@ == old(store)@,
        match result {
            Ok(()) => resolved(roots(old(stack)@, old(store)@), old(heap)@) && final(heap)@ == collected(
                roots(old(stack)@, old(store)@),
                old(heap)@,
            ),
            Err(e) => e == VmError::UnresolvedAddress && !resolved(
                roots(old(stack)@, old(store)@),
                old(heap)@,
            ) && final(heap)@ == old(heap)@,
        },
{
    let mut all = addresses_of(&stack.values);
    let mut variables = store.addresses();
    let ghost on_stack = all@;
    let ghost in_store = variables@;
    all.append(&mut variables);
    proof {
        assert forall|a: usize| all@.to_set().contains(a) <==> roots(stack@, store@).contains(a) by {
            if all@.contains(a) {
                let n = choose|n: int| 0 <= n < all@.len() && all@[n] == a;
                if n < on_stack.len() {
                    assert(on_stack[n] == a);
                    assert(on_stack.to_set().contains(a));
                } else {
                    assert(in_store[n - on_stack.len()] == a);
                    assert(in_store.to_set().contains(a));
                }
            }
            if on_stack.to_set().contains(a) {
                let n = choose|n: int| 0 <= n < on_stack.len() && on_stack[n] == a;
                assert(all@[n] == a);
            }
            if in_store.to_set().contains(a) {
                let n = choose|n: int| 0 <= n < in_store.len() && in_store[n] == a;
                assert(all@[on_stack.len() + n] == a);
            }
        }
        assert(all@.to_set() =~= roots(stack@, store@));
    }
    match mark(&all, heap) {
        Ok(set) => {
            sweep(heap, &set);
            trim(heap);
            Ok(())
        },
        Err(e) => Err(e),
    }
}

} // verus!
