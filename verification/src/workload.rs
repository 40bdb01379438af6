//! An allocation workload for the collector. Every round allocates a string
//! and an object that refers to the first slot of the heap, roots the second
//! slot on the stack, and then lets the object in the second slot go of what
//! it refers to. Every 20000th round empties the stack.
//!
//! A round has two halves, so that a collector that runs beside the workload
//! can take its turn between them.

use vstd::prelude::*;
use crate::effect::Memory;
use crate::error::VmError;
use crate::fields::Fields;
use crate::heap::{HeapValue, UnsizedValue};
use crate::value::SizedValue;
use crate::vm::{Vm, VmState};

verus! {

/// The number of rounds after which the stack is emptied.
pub const ROUNDS_PER_CLEAR: u64 = 20000;

/// The object that a round allocates.
pub open spec fn fresh_object() -> HeapValue {
    HeapValue::Object(
        Map::<Seq<char>, SizedValue>::empty().insert("foo"@, SizedValue::Int64(42)).insert(
            "bar"@,
            SizedValue::Int64(1337),
        ).insert("refers_to_string"@, SizedValue::Address(0)),
    )
}

/// The state after the first half of a round.
pub open spec fn produced(s: VmState) -> VmState {
    VmState {
        memory: Memory {
            stack: s.memory.stack.push(SizedValue::Address(1)),
            heap: s.memory.heap.push(HeapValue::String("Hello, World!"@)).push(fresh_object()),
            ..s.memory
        },
        ..s
    }
}

/// A heap value without what the workload made it refer to: an object
/// loses its field `refers_to_string`, any other value stays as it is.
pub open spec fn let_go(value: HeapValue) -> HeapValue {
    match value {
        HeapValue::Object(fields) => HeapValue::Object(fields.remove("refers_to_string"@)),
        _ => value,
    }
}

/// The state after the second half of round number `round`, counted from
/// zero; an error where the heap has no second slot.
pub open spec fn released(s: VmState, round: u64) -> Result<VmState, VmError> {
    if s.memory.heap.len() < 2 {
        Err(VmError::IndexOutOfRange)
    } else {
        Ok(
            VmState {
                memory: Memory {
                    stack: if (round + 1) % (ROUNDS_PER_CLEAR as int) == 0 {
                        Seq::empty()
                    } else {
                        s.memory.stack
                    },
                    heap: s.memory.heap.update(1, let_go(s.memory.heap[1])),
                    ..s.memory
                },
                ..s
            },
        )
    }
}

/// The first half of a round.
pub fn produce(vm: &mut Vm)
    ensures
        final(vm)@ == produced(old(vm)@),
{
    vm.heap.push(UnsizedValue::String("Hello, World!".to_string()));
    vm.stack.push(SizedValue::Address(1));

    let mut object = Fields::new();
    object.insert("foo".to_string(), SizedValue::Int64(42));
    object.insert("bar".to_string(), SizedValue::Int64(1337));
    object.insert("refers_to_string".to_string(), SizedValue::Address(0));
    vm.heap.push(UnsizedValue::Object(object));
}

/// The second half of round number `round`. Where the heap has no second
/// slot nothing changes.
pub fn release(vm: &mut Vm, round: u64) -> (result: Result<(), VmError>)
    ensures
        match result {
            Ok(()) => released(old(vm)@, round) == Ok::<VmState, VmError>(final(vm)@),
            Err(error) => released(old(vm)@, round) == Err::<VmState, VmError>(error) && final(vm)@
                == old(vm)@,
        },
{
    let taken = match vm.heap.replace(1, UnsizedValue::Empty) {
        Ok(taken) => taken,
        Err(error) => {
            return Err(error);
        },
    };
    let kept = match taken {
        UnsizedValue::Object(fields) => {
            let mut fields = fields;
            fields.remove(&"refers_to_string".to_string());
            UnsizedValue::Object(fields)
        },
        other => other,
    };
    let _ = vm.heap.replace(1, kept);
    assert(vm.heap@ =~= old(vm).heap@.update(1, let_go(old(vm).heap@[1])));
    if round % ROUNDS_PER_CLEAR == ROUNDS_PER_CLEAR - 1 {
        vm.stack.clear();
    }
    Ok(())
}

} // verus!
