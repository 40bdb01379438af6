//! What one instruction does to the operand stack, the heap and the variable
//! store, and where it sends control.
//!
//! An instruction either takes effect as a whole or faults and changes
//! nothing.

use vstd::prelude::*;
use vstd::utf8::encode_utf8;
use crate::error::{Fault, ValueKind, VmError};
use crate::fields::Fields;
use crate::heap::{Heap, HeapValue, UnsizedValue, duplicate_values, list_methods};
use crate::opcodes::{OpCode, OpView, code_view, duplicate_code};
use crate::stack::Stack;
use crate::store::Store;
use crate::value::{
    Builtin,
    Relation,
    SizedValue,
    address_of,
    bool_of,
    conjunction_of,
    difference_of,
    disjunction_of,
    index_of,
    inversion_of,
    negation_of,
    product_of,
    quotient_of,
    related,
    remainder_of,
    sum_of,
    wrap64,
};

verus! {

/// The three pieces of state that every invocation shares.
pub struct Memory {
    /// The operand stack, its top last.
    pub stack: Seq<SizedValue>,
    /// The heap, slot by slot.
    pub heap: Seq<HeapValue>,
    /// The variable slots.
    pub store: Seq<SizedValue>,
}

/// Where control goes after an instruction.
#[derive(Debug)]
pub enum Flow {
    /// To the next instruction.
    Next,
    /// To the instruction this many instructions after the next one.
    Jump(i64),
    /// Out of the current invocation.
    Return,
    /// Into a function with this body, then to the next instruction.
    Enter(Vec<OpCode>),
    /// Into the function that the value addresses, once for each of the
    /// elements, then to the next instruction.
    Each(Vec<SizedValue>, SizedValue),
}

/// A flow as contracts see it.
pub enum FlowView {
    Next,
    Jump(i64),
    Return,
    Enter(Seq<OpView>),
    Each(Seq<SizedValue>, SizedValue),
}

impl View for Flow {
    type V = FlowView;

    open spec fn view(&self) -> FlowView {
        match self {
            Flow::Next => FlowView::Next,
            Flow::Jump(offset) => FlowView::Jump(*offset),
            Flow::Return => FlowView::Return,
            Flow::Enter(body) => FlowView::Enter(code_view(body@)),
            Flow::Each(items, callee) => FlowView::Each(items@, *callee),
        }
    }
}

/// The memory made of a stack, a heap and a store.
pub open spec fn memory(stack: Seq<SizedValue>, heap: Seq<HeapValue>, store: Seq<SizedValue>) -> Memory {
    Memory { stack, heap, store }
}

/// The operand `depth` places below the top of the stack; there is none
/// where the stack is too short.
pub open spec fn operand_at(stack: Seq<SizedValue>, depth: int) -> Result<SizedValue, Fault> {
    if 0 <= depth < stack.len() {
        Ok(stack[stack.len() - 1 - depth])
    } else {
        Err(Fault::bare(VmError::StackUnderflow))
    }
}

/// The heap value at an address; an address at or beyond the length of the
/// heap is out of range.
pub open spec fn value_at(heap: Seq<HeapValue>, address: usize) -> Result<HeapValue, Fault> {
    if address < heap.len() {
        Ok(heap[address as int])
    } else {
        Err(Fault::on(VmError::IndexOutOfRange, ValueKind::Address))
    }
}

/// The memory with its `count` top operands replaced by `value`.
pub open spec fn replaced(m: Memory, count: int, value: SizedValue) -> Memory {
    Memory { stack: m.stack.take(m.stack.len() - count).push(value), ..m }
}

/// The memory with its `count` top operands taken off.
pub open spec fn dropped(m: Memory, count: int) -> Memory {
    Memory { stack: m.stack.take(m.stack.len() - count), ..m }
}

/// The memory with `value` appended to the heap and its address pushed.
pub open spec fn allocated(m: Memory, value: HeapValue) -> Memory {
    Memory {
        stack: m.stack.push(SizedValue::Address(m.heap.len() as usize)),
        heap: m.heap.push(value),
        ..m
    }
}

/// What a binary instruction makes of its operands.
pub open spec fn binary_result(op: OpView, lhs: SizedValue, rhs: SizedValue) -> Result<
    SizedValue,
    Fault,
> {
    match op {
        OpView::Add => sum_of(lhs, rhs),
        OpView::Sub => difference_of(lhs, rhs),
        OpView::Mul => product_of(lhs, rhs),
        OpView::Div => quotient_of(lhs, rhs),
        OpView::Mod => remainder_of(lhs, rhs),
        OpView::And => conjunction_of(lhs, rhs),
        OpView::Or => disjunction_of(lhs, rhs),
        OpView::Eq => related(Relation::Eq, lhs, rhs),
        OpView::Neq => related(Relation::Neq, lhs, rhs),
        OpView::Lt => related(Relation::Lt, lhs, rhs),
        OpView::Gt => related(Relation::Gt, lhs, rhs),
        OpView::Lte => related(Relation::Lte, lhs, rhs),
        OpView::Gte => related(Relation::Gte, lhs, rhs),
        _ => Err(Fault::bare(VmError::TypeMismatch)),
    }
}

/// A binary instruction: the top operand is the right one, the one below it
/// the left one; the result takes their place.
pub open spec fn binary_effect(op: OpView, m: Memory) -> Result<(Memory, FlowView), Fault> {
    match operand_at(m.stack, 1) {
        Err(fault) => Err(fault),
        Ok(lhs) => match binary_result(op, lhs, m.stack.last()) {
            Err(fault) => Err(fault),
            Ok(value) => Ok((replaced(m, 2, value), FlowView::Next)),
        },
    }
}

/// A unary instruction: the result takes the place of the top operand.
pub open spec fn unary_effect(op: OpView, m: Memory) -> Result<(Memory, FlowView), Fault> {
    match operand_at(m.stack, 0) {
        Err(fault) => Err(fault),
        Ok(operand) => match (if op is Neg {
            negation_of(operand)
        } else {
            inversion_of(operand)
        }) {
            Err(fault) => Err(fault),
            Ok(value) => Ok((replaced(m, 1, value), FlowView::Next)),
        },
    }
}

/// `Store`: the top operand goes into the slot.
pub open spec fn store_effect(slot: usize, m: Memory) -> Result<(Memory, FlowView), Fault> {
    match operand_at(m.stack, 0) {
        Err(fault) => Err(fault),
        Ok(value) => if slot < m.store.len() {
            Ok((Memory { store: m.store.update(slot as int, value), ..dropped(m, 1) }, FlowView::Next))
        } else {
            Err(Fault::bare(VmError::InvalidSlot))
        },
    }
}

/// `Load`: a copy of the slot's value is pushed.
pub open spec fn load_effect(slot: usize, m: Memory) -> Result<(Memory, FlowView), Fault> {
    if slot < m.store.len() {
        Ok((replaced(m, 0, m.store[slot as int]), FlowView::Next))
    } else {
        Err(Fault::bare(VmError::InvalidSlot))
    }
}

/// `JumpIfFalse`: the top operand, a boolean, is taken off; control jumps
/// where it is `false`.
pub open spec fn branch_effect(offset: i64, m: Memory) -> Result<(Memory, FlowView), Fault> {
    match operand_at(m.stack, 0) {
        Err(fault) => Err(fault),
        Ok(condition) => match bool_of(condition) {
            Err(fault) => Err(fault),
            Ok(flag) => Ok(
                (
                    dropped(m, 1),
                    if flag {
                        FlowView::Next
                    } else {
                        FlowView::Jump(offset)
                    },
                ),
            ),
        },
    }
}

/// The number of bytes that the UTF-8 encoding of a text takes, as an
/// index of this machine.
pub open spec fn byte_len(text: Seq<char>) -> usize {
    encode_utf8(text).len() as usize
}

/// The length that the `Length` capability reports: the bytes of a string's
/// UTF-8 encoding, the elements of a list.
pub open spec fn length_of(value: HeapValue) -> Result<SizedValue, Fault> {
    match value {
        HeapValue::String(text) => Ok(SizedValue::Int64(wrap64(byte_len(text) as int))),
        HeapValue::List(items, _) => Ok(SizedValue::Int64(wrap64(items.len() as int))),
        _ => Err(Fault::on(VmError::TypeMismatch, value.kind())),
    }
}

/// `Call` on the `Length` capability: below the capability lies the address
/// of a string or list; its length takes the place of both.
pub open spec fn length_effect(m: Memory) -> Result<(Memory, FlowView), Fault> {
    match operand_at(m.stack, 1) {
        Err(fault) => Err(fault),
        Ok(subject) => match address_of(subject) {
            Err(fault) => Err(fault),
            Ok(address) => match value_at(m.heap, address) {
                Err(fault) => Err(fault),
                Ok(value) => match length_of(value) {
                    Err(fault) => Err(fault),
                    Ok(length) => Ok((replaced(m, 2, length), FlowView::Next)),
                },
            },
        },
    }
}

/// `Call` on the `ForEach` capability: below the capability lies the
/// address of a list, and below that the value to call. All three are taken
/// off, and control goes through the elements as the list holds them now.
/// What is to be called is looked at only when it is called.
pub open spec fn for_each_effect(m: Memory) -> Result<(Memory, FlowView), Fault> {
    match operand_at(m.stack, 1) {
        Err(fault) => Err(fault),
        Ok(subject) => match address_of(subject) {
            Err(fault) => Err(fault),
            Ok(address) => match value_at(m.heap, address) {
                Err(fault) => Err(fault),
                Ok(value) => match operand_at(m.stack, 2) {
                    Err(fault) => Err(fault),
                    Ok(callee) => match value {
                        HeapValue::List(items, _) => Ok((dropped(m, 3), FlowView::Each(items, callee))),
                        _ => Err(Fault::on(VmError::TypeMismatch, value.kind())),
                    },
                },
            },
        },
    }
}

/// `Call`: the top operand is taken off and invoked. An address must be
/// that of a function; a native capability does its work on the memory.
pub open spec fn call_effect(m: Memory) -> Result<(Memory, FlowView), Fault> {
    match operand_at(m.stack, 0) {
        Err(fault) => Err(fault),
        Ok(target) => match target {
            SizedValue::Address(address) => match value_at(m.heap, address) {
                Err(fault) => Err(fault),
                Ok(value) => match value {
                    HeapValue::Function(body) => Ok((dropped(m, 1), FlowView::Enter(body))),
                    _ => Err(Fault::on(VmError::TypeMismatch, value.kind())),
                },
            },
            SizedValue::NativeCapability(Builtin::Length) => length_effect(m),
            SizedValue::NativeCapability(Builtin::ForEach) => for_each_effect(m),
            _ => Err(Fault::on(VmError::TypeMismatch, target.spec_kind())),
        },
    }
}

/// The element of a list at an index.
pub open spec fn element_of(value: HeapValue, index: usize) -> Result<SizedValue, Fault> {
    match value {
        HeapValue::List(items, _) => if index < items.len() {
            Ok(items[index as int])
        } else {
            Err(Fault::on(VmError::IndexOutOfRange, ValueKind::Int64))
        },
        _ => Err(Fault::on(VmError::TypeMismatch, value.kind())),
    }
}

/// `ListAccess`: the top operand is the index, the one below it the address
/// of the list; the element takes their place.
pub open spec fn list_access_effect(m: Memory) -> Result<(Memory, FlowView), Fault> {
    match operand_at(m.stack, 1) {
        Err(fault) => Err(fault),
        Ok(subject) => match index_of(m.stack.last()) {
            Err(fault) => Err(fault),
            Ok(index) => match address_of(subject) {
                Err(fault) => Err(fault),
                Ok(address) => match value_at(m.heap, address) {
                    Err(fault) => Err(fault),
                    Ok(value) => match element_of(value, index) {
                        Err(fault) => Err(fault),
                        Ok(element) => Ok((replaced(m, 2, element), FlowView::Next)),
                    },
                },
            },
        },
    }
}

/// The text of a string on the heap.
pub open spec fn text_of(value: HeapValue) -> Result<Seq<char>, Fault> {
    match value {
        HeapValue::String(text) => Ok(text),
        _ => Err(Fault::on(VmError::TypeMismatch, value.kind())),
    }
}

/// The builtin method of a heap value under a name. Lists carry methods;
/// no other value has any.
pub open spec fn method_of(value: HeapValue, name: Seq<char>) -> Result<SizedValue, Fault> {
    match value {
        HeapValue::List(_, methods) => if methods.dom().contains(name) {
            Ok(methods[name])
        } else {
            Err(Fault::on(VmError::UnknownProperty, ValueKind::List))
        },
        _ => Err(Fault::on(VmError::UnknownProperty, value.kind())),
    }
}

/// `PropertyLoad`: the top operand is the address of the name, a string,
/// the one below it the address of the receiver; the method takes their
/// place.
pub open spec fn property_effect(m: Memory) -> Result<(Memory, FlowView), Fault> {
    match operand_at(m.stack, 1) {
        Err(fault) => Err(fault),
        Ok(receiver) => match address_of(m.stack.last()) {
            Err(fault) => Err(fault),
            Ok(name_address) => match value_at(m.heap, name_address) {
                Err(fault) => Err(fault),
                Ok(name_value) => match text_of(name_value) {
                    Err(fault) => Err(fault),
                    Ok(name) => match address_of(receiver) {
                        Err(fault) => Err(fault),
                        Ok(address) => match value_at(m.heap, address) {
                            Err(fault) => Err(fault),
                            Ok(value) => match method_of(value, name) {
                                Err(fault) => Err(fault),
                                Ok(method) => Ok((replaced(m, 2, method), FlowView::Next)),
                            },
                        },
                    },
                },
            },
        },
    }
}

/// `Dup`: the top operand is pushed once more.
pub open spec fn dup_effect(m: Memory) -> Result<(Memory, FlowView), Fault> {
    match operand_at(m.stack, 0) {
        Err(fault) => Err(fault),
        Ok(value) => Ok((replaced(m, 0, value), FlowView::Next)),
    }
}

/// What the instruction does to the memory and where it sends control, or
/// the fault with which it leaves the memory as it was.
pub open spec fn effect(op: OpView, m: Memory) -> Result<(Memory, FlowView), Fault> {
    match op {
        OpView::Add => binary_effect(op, m),
        OpView::Sub => binary_effect(op, m),
        OpView::Mul => binary_effect(op, m),
        OpView::Div => binary_effect(op, m),
        OpView::Mod => binary_effect(op, m),
        OpView::Neg => unary_effect(op, m),
        OpView::Not => unary_effect(op, m),
        OpView::And => binary_effect(op, m),
        OpView::Or => binary_effect(op, m),
        OpView::Eq => binary_effect(op, m),
        OpView::Neq => binary_effect(op, m),
        OpView::Lt => binary_effect(op, m),
        OpView::Gt => binary_effect(op, m),
        OpView::Lte => binary_effect(op, m),
        OpView::Gte => binary_effect(op, m),
        OpView::PushInt(value) => Ok((replaced(m, 0, SizedValue::Int64(value)), FlowView::Next)),
        OpView::PushFloat(bits) => Ok((replaced(m, 0, SizedValue::Float64(bits)), FlowView::Next)),
        OpView::PushString(text) => Ok((allocated(m, HeapValue::String(text)), FlowView::Next)),
        OpView::PushBool(flag) => Ok((replaced(m, 0, SizedValue::Bool(flag)), FlowView::Next)),
        OpView::PushObject => Ok(
            (allocated(m, HeapValue::Object(Map::<Seq<char>, SizedValue>::empty())), FlowView::Next),
        ),
        OpView::PushList => Ok(
            (allocated(m, HeapValue::List(Seq::<SizedValue>::empty(), list_methods())), FlowView::Next),
        ),
        OpView::Function(body) => Ok((allocated(m, HeapValue::Function(body)), FlowView::Next)),
        OpView::Store(slot) => store_effect(slot, m),
        OpView::Load(slot) => load_effect(slot, m),
        OpView::Jump(offset) => Ok((m, FlowView::Jump(offset))),
        OpView::JumpIfFalse(offset) => branch_effect(offset, m),
        OpView::Call => call_effect(m),
        OpView::Return => Ok((m, FlowView::Return)),
        OpView::ListAccess => list_access_effect(m),
        OpView::PropertyLoad => property_effect(m),
        OpView::Dup => dup_effect(m),
    }
}

/// The operand `depth` places below the top of the stack.
fn operand(stack: &Stack, depth: usize) -> (result: Result<SizedValue, Fault>)
    ensures
        result == operand_at(stack@, depth as int),
{
    match stack.peek(depth) {
        Ok(value) => Ok(value),
        Err(error) => Err(Fault { error, offending: None }),
    }
}

/// The heap value at an address.
fn fetch(heap: &Heap, address: usize) -> (result: Result<&UnsizedValue, Fault>)
    ensures
        match result {
            Ok(value) => value_at(heap@, address) == Ok::<HeapValue, Fault>(value@) && address
                < heap@.len() && *value == heap.values@[address as int],
            Err(fault) => value_at(heap@, address) == Err::<HeapValue, Fault>(fault),
        },
{
    match heap.get(address) {
        Ok(value) => Ok(value),
        Err(error) => Err(Fault { error, offending: Some(ValueKind::Address) }),
    }
}

/// Puts `value` in the place of the `count` top operands.
fn replace_top(stack: &mut Stack, count: usize, value: SizedValue)
    requires
        count <= old(stack)@.len(),
    ensures
        final(stack)@ == old(stack)@.take(old(stack)@.len() - count).push(value),
{
    let mut left: usize = count;
    assert(stack@.take(stack@.len() as int) =~= stack@);
    while left > 0
        invariant
            left <= count <= old(stack)@.len(),
            stack@ == old(stack)@.take(old(stack)@.len() - count + left),
        decreases left,
    {
        let _ = stack.pop();
        left = left - 1;
        assert(stack@ =~= old(stack)@.take(old(stack)@.len() - count + left));
    }
    stack.push(value);
}

/// Takes the `count` top operands off.
fn drop_top(stack: &mut Stack, count: usize)
    requires
        count <= old(stack)@.len(),
    ensures
        final(stack)@ == old(stack)@.take(old(stack)@.len() - count),
{
    let mut left: usize = count;
    assert(stack@.take(stack@.len() as int) =~= stack@);
    while left > 0
        invariant
            left <= count <= old(stack)@.len(),
            stack@ == old(stack)@.take(old(stack)@.len() - count + left),
        decreases left,
    {
        let _ = stack.pop();
        left = left - 1;
        assert(stack@ =~= old(stack)@.take(old(stack)@.len() - count + left));
    }
}

/// Appends `value` to the heap and pushes its address.
fn allocate(stack: &mut Stack, heap: &mut Heap, value: UnsizedValue)
    ensures
        memory(final(stack)@, final(heap)@, Seq::empty()) == allocated(
            memory(old(stack)@, old(heap)@, Seq::empty()),
            value@,
        ),
{
    let address = heap.allocate(value);
    stack.push(SizedValue::Address(address));
}

/// What a binary instruction makes of its operands.
fn binary(op: &OpCode, lhs: &SizedValue, rhs: &SizedValue) -> (result: Result<SizedValue, Fault>)
    ensures
        result == binary_result(op@, *lhs, *rhs),
{
    match op {
        OpCode::Add => lhs.sum(rhs),
        OpCode::Sub => lhs.difference(rhs),
        OpCode::Mul => lhs.product(rhs),
        OpCode::Div => lhs.quotient(rhs),
        OpCode::Mod => lhs.remainder(rhs),
        OpCode::And => lhs.conjunction(rhs),
        OpCode::Or => lhs.disjunction(rhs),
        OpCode::Eq => lhs.relation(Relation::Eq, rhs),
        OpCode::Neq => lhs.relation(Relation::Neq, rhs),
        OpCode::Lt => lhs.relation(Relation::Lt, rhs),
        OpCode::Gt => lhs.relation(Relation::Gt, rhs),
        OpCode::Lte => lhs.relation(Relation::Lte, rhs),
        OpCode::Gte => lhs.relation(Relation::Gte, rhs),
        _ => Err(Fault { error: VmError::TypeMismatch, offending: None }),
    }
}

/// A length as the integer that the machine reports.
fn length_value(len: usize) -> (value: SizedValue)
    ensures
        value == SizedValue::Int64(wrap64(len as int)),
{
    if len as u64 <= 0x7fff_ffff_ffff_ffff {
        SizedValue::Int64(len as i64)
    } else {
        let low: u64 = len as u64 - 0x8000_0000_0000_0000;
        SizedValue::Int64((low as i64) + i64::MIN)
    }
}

/// The length that the `Length` capability reports.
fn length(value: &UnsizedValue) -> (result: Result<SizedValue, Fault>)
    ensures
        result == length_of(value@),
{
    match value {
        UnsizedValue::String(text) => Ok(length_value(text.as_str().len())),
        UnsizedValue::List(items, _) => Ok(length_value(items.len())),
        _ => Err(Fault { error: VmError::TypeMismatch, offending: Some(value.kind()) }),
    }
}

/// The element of a list at an index.
fn element(value: &UnsizedValue, index: usize) -> (result: Result<SizedValue, Fault>)
    ensures
        result == element_of(value@, index),
{
    match value {
        UnsizedValue::List(items, _) => {
            if index < items.len() {
                Ok(items[index])
            } else {
                Err(Fault { error: VmError::IndexOutOfRange, offending: Some(ValueKind::Int64) })
            }
        },
        _ => Err(Fault { error: VmError::TypeMismatch, offending: Some(value.kind()) }),
    }
}

/// The builtin method of a heap value under a name.
fn method(value: &UnsizedValue, name: &String) -> (result: Result<SizedValue, Fault>)
    ensures
        result == method_of(value@, name@),
{
    match value {
        UnsizedValue::List(_, methods) => match methods.get(name) {
            Some(method) => Ok(method),
            None => Err(Fault { error: VmError::UnknownProperty, offending: Some(ValueKind::List) }),
        },
        _ => Err(Fault { error: VmError::UnknownProperty, offending: Some(value.kind()) }),
    }
}

/// `Call` on the `Length` capability.
fn call_length(stack: &mut Stack, heap: &Heap) -> (result: Result<Flow, Fault>)
    requires
        old(stack)@.len() > 0,
    ensures
        match result {
            Ok(flow) => length_effect(memory(old(stack)@, heap@, Seq::empty())) == Ok::<
                (Memory, FlowView),
                Fault,
            >((memory(final(stack)@, heap@, Seq::empty()), flow@)),
            Err(fault) => length_effect(memory(old(stack)@, heap@, Seq::empty())) == Err::<
                (Memory, FlowView),
                Fault,
            >(fault) && final(stack)@ == old(stack)@,
        },
{
    let subject = operand(stack, 1)?;
    let address = subject.as_address()?;
    let value = fetch(heap, address)?;
    let length = length(value)?;
    replace_top(stack, 2, length);
    Ok(Flow::Next)
}

/// `Call` on the `ForEach` capability.
fn call_for_each(stack: &mut Stack, heap: &Heap) -> (result: Result<Flow, Fault>)
    requires
        old(stack)@.len() > 0,
    ensures
        match result {
            Ok(flow) => for_each_effect(memory(old(stack)@, heap@, Seq::empty())) == Ok::<
                (Memory, FlowView),
                Fault,
            >((memory(final(stack)@, heap@, Seq::empty()), flow@)),
            Err(fault) => for_each_effect(memory(old(stack)@, heap@, Seq::empty())) == Err::<
                (Memory, FlowView),
                Fault,
            >(fault) && final(stack)@ == old(stack)@,
        },
{
    let subject = operand(stack, 1)?;
    let address = subject.as_address()?;
    let value = fetch(heap, address)?;
    let callee = operand(stack, 2)?;
    match value {
        UnsizedValue::List(items, _) => {
            let items = duplicate_values(items);
            drop_top(stack, 3);
            Ok(Flow::Each(items, callee))
        },
        _ => Err(Fault { error: VmError::TypeMismatch, offending: Some(value.kind()) }),
    }
}

/// `Call`.
fn call(stack: &mut Stack, heap: &Heap) -> (result: Result<Flow, Fault>)
    ensures
        match result {
            Ok(flow) => call_effect(memory(old(stack)@, heap@, Seq::empty())) == Ok::<
                (Memory, FlowView),
                Fault,
            >((memory(final(stack)@, heap@, Seq::empty()), flow@)),
            Err(fault) => call_effect(memory(old(stack)@, heap@, Seq::empty())) == Err::<
                (Memory, FlowView),
                Fault,
            >(fault) && final(stack)@ == old(stack)@,
        },
{
    let target = operand(stack, 0)?;
    match target {
        SizedValue::Address(address) => {
            let value = fetch(heap, address)?;
            match value {
                UnsizedValue::Function(body) => {
                    let body = duplicate_code(body);
                    drop_top(stack, 1);
                    Ok(Flow::Enter(body))
                },
                _ => Err(Fault { error: VmError::TypeMismatch, offending: Some(value.kind()) }),
            }
        },
        SizedValue::NativeCapability(Builtin::Length) => call_length(stack, heap),
        SizedValue::NativeCapability(Builtin::ForEach) => call_for_each(stack, heap),
        _ => Err(Fault { error: VmError::TypeMismatch, offending: Some(target.kind()) }),
    }
}

/// `ListAccess`.
fn list_access(stack: &mut Stack, heap: &Heap) -> (result: Result<Flow, Fault>)
    ensures
        match result {
            Ok(flow) => list_access_effect(memory(old(stack)@, heap@, Seq::empty())) == Ok::<
                (Memory, FlowView),
                Fault,
            >((memory(final(stack)@, heap@, Seq::empty()), flow@)),
            Err(fault) => list_access_effect(memory(old(stack)@, heap@, Seq::empty())) == Err::<
                (Memory, FlowView),
                Fault,
            >(fault) && final(stack)@ == old(stack)@,
        },
{
    let subject = operand(stack, 1)?;
    let index = operand(stack, 0)?.as_usize()?;
    let address = subject.as_address()?;
    let value = fetch(heap, address)?;
    let element = element(value, index)?;
    replace_top(stack, 2, element);
    Ok(Flow::Next)
}

/// `PropertyLoad`.
fn property_load(stack: &mut Stack, heap: &Heap) -> (result: Result<Flow, Fault>)
    ensures
        match result {
            Ok(flow) => property_effect(memory(old(stack)@, heap@, Seq::empty())) == Ok::<
                (Memory, FlowView),
                Fault,
            >((memory(final(stack)@, heap@, Seq::empty()), flow@)),
            Err(fault) => property_effect(memory(old(stack)@, heap@, Seq::empty())) == Err::<
                (Memory, FlowView),
                Fault,
            >(fault) && final(stack)@ == old(stack)@,
        },
{
    let receiver = operand(stack, 1)?;
    let name_address = operand(stack, 0)?.as_address()?;
    let name = fetch(heap, name_address)?.as_string()?;
    let address = receiver.as_address()?;
    let value = fetch(heap, address)?;
    let method = method(value, name)?;
    replace_top(stack, 2, method);
    Ok(Flow::Next)
}

/// Executes one instruction on the stack, the heap and the store. Returns
/// where control goes, or the fault; on a fault nothing has changed.
pub fn execute(op: &OpCode, stack: &mut Stack, heap: &mut Heap, store: &mut Store) -> (result: Result<
    Flow,
    Fault,
>)
    ensures
        match result {
            Ok(flow) => effect(op@, memory(old(stack)@, old(heap)@, old(store)@)) == Ok::<
                (Memory, FlowView),
                Fault,
            >((memory(final(stack)@, final(heap)@, final(store)@), flow@)),
            Err(fault) => effect(op@, memory(old(stack)@, old(heap)@, old(store)@)) == Err::<
                (Memory, FlowView),
                Fault,
            >(fault) && final(stack)@ == old(stack)@ && final(heap)@ == old(heap)@ && final(store)@
                == old(store)@,
        },
{
    match op {
        OpCode::Neg | OpCode::Not => {
            let value = operand(stack, 0)?;
            let value = match op {
                OpCode::Neg => value.negation()?,
                _ => value.inversion()?,
            };
            replace_top(stack, 1, value);
            Ok(Flow::Next)
        },
        OpCode::PushInt(value) => {
            replace_top(stack, 0, SizedValue::Int64(*value));
            Ok(Flow::Next)
        },
        OpCode::PushFloat(bits) => {
            replace_top(stack, 0, SizedValue::Float64(*bits));
            Ok(Flow::Next)
        },
        OpCode::PushBool(flag) => {
            replace_top(stack, 0, SizedValue::Bool(*flag));
            Ok(Flow::Next)
        },
        OpCode::PushString(text) => {
            allocate(stack, heap, UnsizedValue::String(text.clone()));
            Ok(Flow::Next)
        },
        OpCode::PushObject => {
            allocate(stack, heap, UnsizedValue::Object(Fields::new()));
            Ok(Flow::Next)
        },
        OpCode::PushList => {
            allocate(stack, heap, UnsizedValue::new_list(Vec::new()));
            Ok(Flow::Next)
        },
        OpCode::Function(body) => {
            proof {
                crate::opcodes::lemma_function_view(*body);
            }
            allocate(stack, heap, UnsizedValue::Function(duplicate_code(body)));
            Ok(Flow::Next)
        },
        OpCode::Store(slot) => {
            let value = operand(stack, 0)?;
            match store.set(*slot, value) {
                Ok(()) => {
                    drop_top(stack, 1);
                    Ok(Flow::Next)
                },
                Err(error) => Err(Fault { error, offending: None }),
            }
        },
        OpCode::Load(slot) => match store.get(*slot) {
            Ok(value) => {
                replace_top(stack, 0, value);
                Ok(Flow::Next)
            },
            Err(error) => Err(Fault { error, offending: None }),
        },
        OpCode::Jump(offset) => Ok(Flow::Jump(*offset)),
        OpCode::JumpIfFalse(offset) => {
            let flag = operand(stack, 0)?.as_bool()?;
            drop_top(stack, 1);
            if flag {
                Ok(Flow::Next)
            } else {
                Ok(Flow::Jump(*offset))
            }
        },
        OpCode::Call => call(stack, heap),
        OpCode::Return => Ok(Flow::Return),
        OpCode::ListAccess => list_access(stack, heap),
        OpCode::PropertyLoad => property_load(stack, heap),
        OpCode::Dup => {
            let value = operand(stack, 0)?;
            replace_top(stack, 0, value);
            Ok(Flow::Next)
        },
        _ => {
            let lhs = operand(stack, 1)?;
            let rhs = operand(stack, 0)?;
            let value = binary(op, &lhs, &rhs)?;
            replace_top(stack, 2, value);
            Ok(Flow::Next)
        },
    }
}

} // verus!
