//! What holds of the collector and of programs, whatever the state they
//! start from.

use vstd::prelude::*;
use crate::effect::{Memory, effect};
use crate::gc::{collected, live_len, marked, roots, swept, trimmed};
use crate::heap::HeapValue;
use crate::opcodes::OpView;
use crate::value::{Builtin, SizedValue, addresses_among, wrap64};
use crate::vm::{InvocationView, Status, VmState, collection, cycles, entered, landing, step, steps};

verus! {

/// Trimming cuts off tombstones and nothing else, and as many as there are
/// at the end.
pub proof fn law_trim_cuts_the_tombstones_at_the_end(heap: Seq<HeapValue>)
    ensures
        live_len(heap) <= heap.len(),
        forall|i: int| live_len(heap) <= i < heap.len() ==> heap[i] is Empty,
        live_len(heap) > 0 ==> !(heap[live_len(heap) - 1] is Empty),
        trimmed(heap).len() == live_len(heap),
        forall|i: int| 0 <= i < live_len(heap) ==> trimmed(heap)[i] == heap[i],
    decreases heap.len(),
{
    if heap.len() > 0 && heap.last() is Empty {
        let front = heap.drop_last();
        law_trim_cuts_the_tombstones_at_the_end(front);
        assert forall|i: int| live_len(heap) <= i < heap.len() implies heap[i] is Empty by {
            if i < front.len() {
                assert(front[i] is Empty);
            }
        }
        assert(trimmed(heap) =~= trimmed(front));
    }
}

/// A collection moves no value: what is left of the heap holds, at every
/// address, the value that was there or a tombstone. The heap shrinks only
/// at its end, by the tombstones there, and by all of them.
pub proof fn law_collection_keeps_addresses(roots: Set<usize>, heap: Seq<HeapValue>)
    ensures
        collected(roots, heap).len() <= heap.len(),
        forall|i: int|
            0 <= i < collected(roots, heap).len() ==> #[trigger] collected(roots, heap)[i] == if marked(
                roots,
                heap,
            ).contains(i as usize) {
                heap[i]
            } else {
                HeapValue::Empty
            },
        forall|i: int|
            collected(roots, heap).len() <= i < heap.len() ==> !marked(roots, heap).contains(i as usize)
                || #[trigger] heap[i] is Empty,
        collected(roots, heap).len() > 0 ==> !(collected(roots, heap).last() is Empty),
{
    let after = swept(heap, marked(roots, heap));
    law_trim_cuts_the_tombstones_at_the_end(after);
    assert forall|i: int| collected(roots, heap).len() <= i < heap.len() implies !marked(
        roots,
        heap,
    ).contains(i as usize) || #[trigger] heap[i] is Empty by {
        assert(after[i] is Empty);
    }
}

/// A marked value that is no tombstone stays where it is.
pub proof fn law_marked_values_survive(roots: Set<usize>, heap: Seq<HeapValue>, address: usize)
    requires
        marked(roots, heap).contains(address),
        address < heap.len(),
        !(heap[address as int] is Empty),
    ensures
        address < collected(roots, heap).len(),
        collected(roots, heap)[address as int] == heap[address as int],
{
    let after = swept(heap, marked(roots, heap));
    law_trim_cuts_the_tombstones_at_the_end(after);
    assert(after[address as int] == heap[address as int]);
}

/// A value whose address is on the operand stack survives a collection.
pub proof fn law_stack_roots_survive(
    stack: Seq<SizedValue>,
    store: Seq<SizedValue>,
    heap: Seq<HeapValue>,
    i: int,
    address: usize,
)
    requires
        0 <= i < stack.len(),
        stack[i] == SizedValue::Address(address),
        address < heap.len(),
        !(heap[address as int] is Empty),
    ensures
        address < collected(roots(stack, store), heap).len(),
        collected(roots(stack, store), heap)[address as int] == heap[address as int],
{
    assert(addresses_among(stack).contains(address));
    law_marked_values_survive(roots(stack, store), heap, address);
}

/// A value whose address is in a variable slot survives a collection,
/// whether or not the address is on the stack as well.
pub proof fn law_store_roots_survive(
    stack: Seq<SizedValue>,
    store: Seq<SizedValue>,
    heap: Seq<HeapValue>,
    slot: int,
    address: usize,
)
    requires
        0 <= slot < store.len(),
        store[slot] == SizedValue::Address(address),
        address < heap.len(),
        !(heap[address as int] is Empty),
    ensures
        address < collected(roots(stack, store), heap).len(),
        collected(roots(stack, store), heap)[address as int] == heap[address as int],
{
    assert(addresses_among(store).contains(address));
    law_marked_values_survive(roots(stack, store), heap, address);
}

/// A value whose address a list or object at a root holds survives a
/// collection.
pub proof fn law_values_held_by_roots_survive(
    roots: Set<usize>,
    heap: Seq<HeapValue>,
    root: usize,
    address: usize,
)
    requires
        roots.contains(root),
        root < heap.len(),
        heap[root as int].references().contains(address),
        address < heap.len(),
        !(heap[address as int] is Empty),
    ensures
        address < collected(roots, heap).len(),
        collected(roots, heap)[address as int] == heap[address as int],
{
    law_marked_values_survive(roots, heap, address);
}

/// What is neither a root nor held by the value at a root is reclaimed: if
/// its slot is still there after the collection, the slot holds a tombstone.
pub proof fn law_unmarked_values_are_reclaimed(roots: Set<usize>, heap: Seq<HeapValue>, address: usize)
    requires
        !roots.contains(address),
        forall|root: usize|
            roots.contains(root) && root < heap.len() ==> !(#[trigger] heap[root as int].references().contains(
                address,
            )),
        address < collected(roots, heap).len(),
    ensures
        collected(roots, heap)[address as int] is Empty,
{
    law_collection_keeps_addresses(roots, heap);
}

/// With no root at all, a collection empties the heap.
pub proof fn law_without_roots_nothing_survives(heap: Seq<HeapValue>)
    ensures
        collected(Set::<usize>::empty(), heap).len() == 0,
{
    law_collection_keeps_addresses(Set::<usize>::empty(), heap);
}

/// No instruction takes a value off the heap or changes one, and none
/// changes the number of variable slots: after an instruction the heap
/// begins with what it held before, and the store is as long as it was.
pub proof fn law_instructions_only_append(op: OpView, m: Memory)
    ensures
        effect(op, m) matches Ok((after, _)) ==> after.store.len() == m.store.len() && m.heap.len()
            <= after.heap.len() && after.heap.take(m.heap.len() as int) == m.heap,
{
    if let Ok((after, _)) = effect(op, m) {
        assert(after.heap.take(m.heap.len() as int) =~= m.heap);
    }
}

/// A native capability takes off the stack itself and as many operands as
/// it declares, puts on it as many results as it declares, and leaves what
/// lies below alone.
pub proof fn law_natives_keep_their_arity(m: Memory, native: Builtin)
    requires
        m.stack.len() > 0,
        m.stack.last() == SizedValue::NativeCapability(native),
    ensures
        effect(OpView::Call, m) matches Ok((after, _)) ==> {
            let below = m.stack.len() - 1 - native.arguments();
            &&& below >= 0
            &&& after.stack.len() == below + native.results()
            &&& after.stack.take(below) == m.stack.take(below)
            &&& after.heap == m.heap
            &&& after.store == m.store
        },
{
    if let Ok((after, _)) = effect(OpView::Call, m) {
        let below = m.stack.len() - 1 - native.arguments();
        assert(after.stack.take(below) =~= m.stack.take(below));
    }
}

/// A step of the machine leaves the heap it found at the front of the heap
/// and the store at its length; a step that faults changes nothing at all.
pub proof fn law_steps_only_append(s: VmState, fuel: nat)
    ensures
        step(s).1 is Fault ==> step(s).0 == s,
        steps(s, fuel).0.memory.store.len() == s.memory.store.len(),
        s.memory.heap.len() <= steps(s, fuel).0.memory.heap.len(),
        steps(s, fuel).0.memory.heap.take(s.memory.heap.len() as int) == s.memory.heap,
    decreases fuel,
{
    let heap = s.memory.heap;
    assert(heap.take(heap.len() as int) =~= heap);
    if s.calls.len() > 0 {
        let next = step(s).0;
        match s.calls.last() {
            InvocationView::Code { code, pc } => {
                if pc < code.len() {
                    law_instructions_only_append(code[pc as int], s.memory);
                }
            },
            InvocationView::Each { .. } => {},
        }
        assert(next.memory.store.len() == s.memory.store.len());
        assert(next.memory.heap.take(heap.len() as int) == heap);
        if fuel > 0 && !(step(s).1 is Fault) {
            law_steps_only_append(next, (fuel - 1) as nat);
            let last = steps(s, fuel).0.memory.heap;
            assert(last.take(heap.len() as int) =~= last.take(next.memory.heap.len() as int).take(
                heap.len() as int,
            ));
        }
    }
}

/// The number of variable slots never changes, whatever the machine
/// executes and however often the collector runs.
pub proof fn law_slots_are_fixed(s: VmState, fuel: nat, interval: nat)
    ensures
        cycles(s, fuel, interval).0.memory.store.len() == s.memory.store.len(),
    decreases fuel,
{
    if interval == 0 || fuel <= interval {
        law_steps_only_append(s, fuel);
    } else {
        law_steps_only_append(s, interval);
        if steps(s, interval).1 is Running {
            if let Ok(clean) = collection(steps(s, interval).0) {
                law_slots_are_fixed(clean, (fuel - interval) as nat, interval);
            }
        }
    }
}

/// Running on after `done` steps that ended in no fault is the same as
/// running all the steps at once.
pub proof fn law_steps_add_up(s: VmState, done: nat, more: nat)
    requires
        !(steps(s, done).1 is Fault),
    ensures
        steps(s, done + more) == steps(steps(s, done).0, more),
    decreases done,
{
    if s.calls.len() == 0 {
        assert(steps(s, done + more) == (s, Status::Halted));
        assert(steps(steps(s, done).0, more) == (s, Status::Halted));
    } else if done == 0 {
    } else {
        assert(!(step(s).1 is Fault));
        law_steps_add_up(step(s).0, (done - 1) as nat, more);
        assert(steps(s, done + more) == steps(step(s).0, (done + more - 1) as nat));
    }
}

/// The state in which the current invocation stands at `pc` in `code`, and
/// everything else is as in `s`.
pub open spec fn at(s: VmState, code: Seq<OpView>, pc: usize, memory: Memory) -> VmState {
    VmState { memory, calls: s.calls.push(InvocationView::Code { code, pc }) }
}

/// The memory with `value` pushed on its stack.
pub open spec fn with_top(m: Memory, value: SizedValue) -> Memory {
    Memory { stack: m.stack.push(value), ..m }
}

/// The status of a machine that has gone through its steps without a fault.
pub open spec fn standing(s: VmState) -> Status {
    if s.calls.len() == 0 {
        Status::Halted
    } else {
        Status::Running
    }
}

/// [`steps`], kept folded while a proof walks through a program.
#[verifier::opaque]
spec fn walk(s: VmState, fuel: nat) -> (VmState, Status) {
    steps(s, fuel)
}

/// A step that ends in no fault uses up one unit of fuel.
proof fn lemma_walk(s: VmState, next: VmState, fuel: nat)
    requires
        s.calls.len() > 0,
        step(s) == (next, Status::Running),
    ensures
        walk(s, fuel + 1) == walk(next, fuel),
{
    reveal(walk);
}

/// With no fuel left the machine stands where it is.
proof fn lemma_walk_stands(s: VmState)
    ensures
        walk(s, 0) == (s, standing(s)),
{
    reveal(walk);
}

/// What lies under the current invocation of [`at`].
proof fn lemma_at(s: VmState, code: Seq<OpView>, pc: usize, memory: Memory)
    ensures
        at(s, code, pc, memory).calls.drop_last() == s.calls,
        at(s, code, pc, memory).calls.last() == (InvocationView::Code { code, pc }),
        at(s, code, pc, memory).calls.len() > 0,
{
    assert(at(s, code, pc, memory).calls.drop_last() =~= s.calls);
}

/// A step through `PushInt`.
proof fn lemma_push_int(s: VmState, code: Seq<OpView>, pc: usize, m: Memory, value: i64, fuel: nat)
    requires
        pc < code.len(),
        pc < usize::MAX,
        code[pc as int] == OpView::PushInt(value),
    ensures
        walk(at(s, code, pc, m), fuel + 1) == walk(
            at(s, code, (pc + 1) as usize, with_top(m, SizedValue::Int64(value))),
            fuel,
        ),
{
    lemma_at(s, code, pc, m);
    assert(m.stack.take(m.stack.len() as int) =~= m.stack);
    lemma_walk(
        at(s, code, pc, m),
        at(s, code, (pc + 1) as usize, with_top(m, SizedValue::Int64(value))),
        fuel,
    );
}

/// A step through `Load`.
proof fn lemma_load(s: VmState, code: Seq<OpView>, pc: usize, m: Memory, slot: usize, fuel: nat)
    requires
        pc < code.len(),
        pc < usize::MAX,
        code[pc as int] == OpView::Load(slot),
        slot < m.store.len(),
    ensures
        walk(at(s, code, pc, m), fuel + 1) == walk(
            at(s, code, (pc + 1) as usize, with_top(m, m.store[slot as int])),
            fuel,
        ),
{
    lemma_at(s, code, pc, m);
    assert(m.stack.take(m.stack.len() as int) =~= m.stack);
    lemma_walk(at(s, code, pc, m), at(s, code, (pc + 1) as usize, with_top(m, m.store[slot as int])), fuel);
}

/// A step through `Store`.
proof fn lemma_store(
    s: VmState,
    code: Seq<OpView>,
    pc: usize,
    m: Memory,
    slot: usize,
    value: SizedValue,
    fuel: nat,
)
    requires
        pc < code.len(),
        pc < usize::MAX,
        code[pc as int] == OpView::Store(slot),
        slot < m.store.len(),
    ensures
        walk(at(s, code, pc, with_top(m, value)), fuel + 1) == walk(
            at(s, code, (pc + 1) as usize, Memory { store: m.store.update(slot as int, value), ..m }),
            fuel,
        ),
{
    let full = with_top(m, value);
    lemma_at(s, code, pc, full);
    assert(full.stack.take(full.stack.len() - 1) =~= m.stack);
    lemma_walk(
        at(s, code, pc, full),
        at(s, code, (pc + 1) as usize, Memory { store: m.store.update(slot as int, value), ..m }),
        fuel,
    );
}

/// A step through `Add`, `Sub` or `Lt` on two integers.
proof fn lemma_binary(
    s: VmState,
    code: Seq<OpView>,
    pc: usize,
    m: Memory,
    a: i64,
    b: i64,
    fuel: nat,
)
    requires
        pc < code.len(),
        pc < usize::MAX,
        code[pc as int] is Add || code[pc as int] is Sub || code[pc as int] is Lt,
    ensures
        walk(
            at(s, code, pc, with_top(with_top(m, SizedValue::Int64(a)), SizedValue::Int64(b))),
            fuel + 1,
        ) == walk(
            at(
                s,
                code,
                (pc + 1) as usize,
                with_top(
                    m,
                    if code[pc as int] is Add {
                        SizedValue::Int64(wrap64(a + b))
                    } else if code[pc as int] is Sub {
                        SizedValue::Int64(wrap64(a - b))
                    } else {
                        SizedValue::Bool(a < b)
                    },
                ),
            ),
            fuel,
        ),
{
    let full = with_top(with_top(m, SizedValue::Int64(a)), SizedValue::Int64(b));
    let value = if code[pc as int] is Add {
        SizedValue::Int64(wrap64(a + b))
    } else if code[pc as int] is Sub {
        SizedValue::Int64(wrap64(a - b))
    } else {
        SizedValue::Bool(a < b)
    };
    lemma_at(s, code, pc, full);
    assert(full.stack.take(full.stack.len() - 2) =~= m.stack);
    lemma_walk(at(s, code, pc, full), at(s, code, (pc + 1) as usize, with_top(m, value)), fuel);
}

/// A step through `JumpIfFalse` that lands at `target` where the condition
/// is `false`.
proof fn lemma_branch(
    s: VmState,
    code: Seq<OpView>,
    pc: usize,
    m: Memory,
    offset: i64,
    flag: bool,
    target: usize,
    fuel: nat,
)
    requires
        pc < code.len(),
        pc < usize::MAX,
        code[pc as int] == OpView::JumpIfFalse(offset),
        landing(pc, offset, code.len()) == Some(target),
    ensures
        walk(at(s, code, pc, with_top(m, SizedValue::Bool(flag))), fuel + 1) == walk(
            at(
                s,
                code,
                if flag {
                    (pc + 1) as usize
                } else {
                    target
                },
                m,
            ),
            fuel,
        ),
{
    let full = with_top(m, SizedValue::Bool(flag));
    lemma_at(s, code, pc, full);
    assert(full.stack.take(full.stack.len() - 1) =~= m.stack);
    lemma_walk(
        at(s, code, pc, full),
        at(
            s,
            code,
            if flag {
                (pc + 1) as usize
            } else {
                target
            },
            m,
        ),
        fuel,
    );
}

/// A step through `Jump` that lands at `target`.
proof fn lemma_jump(
    s: VmState,
    code: Seq<OpView>,
    pc: usize,
    m: Memory,
    offset: i64,
    target: usize,
    fuel: nat,
)
    requires
        pc < code.len(),
        code[pc as int] == OpView::Jump(offset),
        landing(pc, offset, code.len()) == Some(target),
    ensures
        walk(at(s, code, pc, m), fuel + 1) == walk(at(s, code, target, m), fuel),
{
    lemma_at(s, code, pc, m);
    lemma_walk(at(s, code, pc, m), at(s, code, target, m), fuel);
}

/// The step that ends an invocation with no instruction left.
proof fn lemma_end(s: VmState, code: Seq<OpView>, pc: usize, m: Memory, fuel: nat)
    requires
        pc >= code.len(),
    ensures
        walk(at(s, code, pc, m), fuel + 1) == walk(VmState { memory: m, calls: s.calls }, fuel),
{
    lemma_at(s, code, pc, m);
    lemma_walk(at(s, code, pc, m), VmState { memory: m, calls: s.calls }, fuel);
}

/// Three steps through `PushInt a, PushInt b` and `Add` or `Sub`.
proof fn lemma_binary_of_literals(s: VmState, a: i64, b: i64, op: OpView)
    requires
        op is Add || op is Sub,
    ensures
        steps(entered(s, seq![OpView::PushInt(a), OpView::PushInt(b), op]), 3) == (
            at(
                s,
                seq![OpView::PushInt(a), OpView::PushInt(b), op],
                3,
                with_top(
                    s.memory,
                    SizedValue::Int64(
                        if op is Add {
                            wrap64(a + b)
                        } else {
                            wrap64(a - b)
                        },
                    ),
                ),
            ),
            Status::Running,
        ),
{
    let code = seq![OpView::PushInt(a), OpView::PushInt(b), op];
    let m = s.memory;
    let value = SizedValue::Int64(
        if op is Add {
            wrap64(a + b)
        } else {
            wrap64(a - b)
        },
    );
    lemma_push_int(s, code, 0, m, a, 2);
    lemma_push_int(s, code, 1, with_top(m, SizedValue::Int64(a)), b, 1);
    lemma_binary(s, code, 2, m, a, b, 0);
    lemma_walk_stands(at(s, code, 3, with_top(m, value)));
    lemma_at(s, code, 3, with_top(m, value));
    assert(walk(entered(s, code), 3) == steps(entered(s, code), 3)) by {
        reveal(walk);
    }
}

/// `PushInt a, PushInt b, Add` leaves the sum of `a` and `b` on top of the
/// stack, and `PushInt a, PushInt b, Sub` their difference `a - b`: each is
/// the integer itself where it fits 64 bits, and what is left of it in
/// two's complement where it does not. Nothing else changes.
pub proof fn law_add_and_sub_of_literals(s: VmState, a: i64, b: i64)
    ensures
        steps(entered(s, seq![OpView::PushInt(a), OpView::PushInt(b), OpView::Add]), 3) == (
            at(
                s,
                seq![OpView::PushInt(a), OpView::PushInt(b), OpView::Add],
                3,
                with_top(s.memory, SizedValue::Int64(wrap64(a + b))),
            ),
            Status::Running,
        ),
        steps(entered(s, seq![OpView::PushInt(a), OpView::PushInt(b), OpView::Sub]), 3) == (
            at(
                s,
                seq![OpView::PushInt(a), OpView::PushInt(b), OpView::Sub],
                3,
                with_top(s.memory, SizedValue::Int64(wrap64(a - b))),
            ),
            Status::Running,
        ),
        i64::MIN <= a + b <= i64::MAX ==> wrap64(a + b) == a + b,
        i64::MIN <= a - b <= i64::MAX ==> wrap64(a - b) == a - b,
{
    lemma_binary_of_literals(s, a, b, OpView::Add);
    lemma_binary_of_literals(s, a, b, OpView::Sub);
}

/// `Store(slot)` followed by `Load(slot)` pushes the value that was stored,
/// whatever its variant: after the two instructions the stack is as it was
/// before them and the slot holds its top value.
pub proof fn law_store_then_load(s: VmState, slot: usize, value: SizedValue)
    requires
        slot < s.memory.store.len(),
    ensures
        steps(
            entered(
                VmState { memory: with_top(s.memory, value), ..s },
                seq![OpView::Store(slot), OpView::Load(slot)],
            ),
            2,
        ) == (
            at(
                s,
                seq![OpView::Store(slot), OpView::Load(slot)],
                2,
                with_top(Memory { store: s.memory.store.update(slot as int, value), ..s.memory }, value),
            ),
            Status::Running,
        ),
{
    let code = seq![OpView::Store(slot), OpView::Load(slot)];
    let m = s.memory;
    let stored = Memory { store: m.store.update(slot as int, value), ..m };
    let start = entered(VmState { memory: with_top(m, value), ..s }, code);
    lemma_store(s, code, 0, m, slot, value, 1);
    lemma_load(s, code, 1, stored, slot, 0);
    lemma_walk_stands(at(s, code, 2, with_top(stored, value)));
    lemma_at(s, code, 2, with_top(stored, value));
    assert(walk(start, 2) == steps(start, 2)) by {
        reveal(walk);
    }
}

/// A loop that counts a variable slot up from 0 while it is less than `n`.
pub open spec fn counting_loop(slot: usize, n: i64) -> Seq<OpView> {
    seq![
        OpView::PushInt(0),
        OpView::Store(slot),
        OpView::Load(slot),
        OpView::PushInt(n),
        OpView::Lt,
        OpView::JumpIfFalse(5),
        OpView::Load(slot),
        OpView::PushInt(1),
        OpView::Add,
        OpView::Store(slot),
        OpView::Jump(-9i64),
    ]
}

/// The memory of `s` with the slot at `i`.
spec fn counting(s: VmState, slot: usize, i: int) -> Memory {
    Memory { store: s.memory.store.update(slot as int, SizedValue::Int64(i as i64)), ..s.memory }
}

/// One round of the counting loop takes nine steps and counts the slot up
/// by one.
proof fn lemma_counting_round(s: VmState, slot: usize, n: i64, i: int, fuel: nat)
    requires
        slot < s.memory.store.len(),
        0 <= i < n,
    ensures
        walk(at(s, counting_loop(slot, n), 2, counting(s, slot, i)), fuel + 9) == walk(
            at(s, counting_loop(slot, n), 2, counting(s, slot, i + 1)),
            fuel,
        ),
{
    let code = counting_loop(slot, n);
    let m = counting(s, slot, i);
    let count = SizedValue::Int64(i as i64);
    lemma_load(s, code, 2, m, slot, fuel + 8);
    lemma_push_int(s, code, 3, with_top(m, count), n, fuel + 7);
    lemma_binary(s, code, 4, m, i as i64, n, fuel + 6);
    lemma_branch(s, code, 5, m, 5, true, 11, fuel + 5);
    lemma_load(s, code, 6, m, slot, fuel + 4);
    lemma_push_int(s, code, 7, with_top(m, count), 1, fuel + 3);
    lemma_binary(s, code, 8, m, i as i64, 1, fuel + 2);
    lemma_store(s, code, 9, m, slot, SizedValue::Int64((i + 1) as i64), fuel + 1);
    assert(m.store.update(slot as int, SizedValue::Int64((i + 1) as i64)) =~= counting(
        s,
        slot,
        i + 1,
    ).store);
    lemma_jump(s, code, 10, counting(s, slot, i + 1), -9i64, 2, fuel);
}

/// From the head of the counting loop with the slot at `i`, the loop ends
/// with the slot at `n`.
proof fn lemma_counting_from(s: VmState, slot: usize, n: i64, i: int)
    requires
        slot < s.memory.store.len(),
        0 <= i <= n,
    ensures
        walk(at(s, counting_loop(slot, n), 2, counting(s, slot, i)), (9 * (n - i) + 5) as nat) == (
            VmState { memory: counting(s, slot, n as int), calls: s.calls },
            standing(s),
        ),
    decreases n - i,
{
    let code = counting_loop(slot, n);
    if i == n {
        let m = counting(s, slot, i);
        let count = SizedValue::Int64(n);
        lemma_load(s, code, 2, m, slot, 4);
        lemma_push_int(s, code, 3, with_top(m, count), n, 3);
        lemma_binary(s, code, 4, m, n, n, 2);
        lemma_branch(s, code, 5, m, 5, false, 11, 1);
        lemma_end(s, code, 11, m, 0);
        lemma_walk_stands(VmState { memory: m, calls: s.calls });
    } else {
        lemma_counting_round(s, slot, n, i, (9 * (n - i - 1) + 5) as nat);
        lemma_counting_from(s, slot, n, i + 1);
    }
}

/// The counting loop terminates and leaves the slot equal to `n`: from any
/// state, after `9 * n + 7` steps its invocation has ended, the slot holds
/// `n`, and the stack, the heap and the other slots are as they were.
pub proof fn law_counting_loop_terminates(s: VmState, slot: usize, n: i64)
    requires
        slot < s.memory.store.len(),
        0 <= n,
    ensures
        steps(entered(s, counting_loop(slot, n)), (9 * n + 7) as nat) == (
            VmState {
                memory: Memory {
                    store: s.memory.store.update(slot as int, SizedValue::Int64(n)),
                    ..s.memory
                },
                calls: s.calls,
            },
            standing(s),
        ),
{
    let code = counting_loop(slot, n);
    lemma_push_int(s, code, 0, s.memory, 0, (9 * n + 6) as nat);
    lemma_store(s, code, 1, s.memory, slot, SizedValue::Int64(0), (9 * n + 5) as nat);
    lemma_counting_from(s, slot, n, 0);
    assert(walk(entered(s, code), (9 * n + 7) as nat) == steps(entered(s, code), (9 * n + 7) as nat)) by {
        reveal(walk);
    }
}

} // verus!
