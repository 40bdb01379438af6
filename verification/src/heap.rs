//! Heap-resident values and the heap: an indexed container that only grows
//! at its end. The index of a value is its address.

use vstd::prelude::*;
use crate::error::{Fault, ValueKind, VmError};
use crate::fields::{Fields, addresses_in, named, place};
use crate::opcodes::{OpCode, OpView, code_view, duplicate_code};
use crate::value::{Builtin, SizedValue, addresses_among, addresses_of};

verus! {

/// A value that lives on the heap.
#[derive(Debug)]
pub enum UnsizedValue {
    /// Text.
    String(String),
    /// An ordered sequence of values, with the builtin methods of the list.
    List(Vec<SizedValue>, Fields),
    /// A mapping from field names to values.
    Object(Fields),
    /// The body of a function.
    Function(Vec<OpCode>),
    /// The tombstone that the collector leaves where a value was.
    Empty,
}

/// A heap value as contracts see it.
pub enum HeapValue {
    String(Seq<char>),
    List(Seq<SizedValue>, Map<Seq<char>, SizedValue>),
    Object(Map<Seq<char>, SizedValue>),
    Function(Seq<OpView>),
    Empty,
}

impl View for UnsizedValue {
    type V = HeapValue;

    open spec fn view(&self) -> HeapValue {
        match self {
            UnsizedValue::String(text) => HeapValue::String(text@),
            UnsizedValue::List(items, methods) => HeapValue::List(items@, methods@),
            UnsizedValue::Object(fields) => HeapValue::Object(fields@),
            UnsizedValue::Function(body) => HeapValue::Function(code_view(body@)),
            UnsizedValue::Empty => HeapValue::Empty,
        }
    }
}

/// The builtin methods that every list made by the machine carries.
pub open spec fn list_methods() -> Map<Seq<char>, SizedValue> {
    Map::<Seq<char>, SizedValue>::empty().insert(
        "length"@,
        SizedValue::NativeCapability(Builtin::Length),
    ).insert("forEach"@, SizedValue::NativeCapability(Builtin::ForEach))
}

impl HeapValue {
    /// The variant of the value.
    pub open spec fn kind(self) -> ValueKind {
        match self {
            HeapValue::String(_) => ValueKind::String,
            HeapValue::List(_, _) => ValueKind::List,
            HeapValue::Object(_) => ValueKind::Object,
            HeapValue::Function(_) => ValueKind::Function,
            HeapValue::Empty => ValueKind::Empty,
        }
    }

    /// The addresses that the value holds directly: those among the elements
    /// of a list and among the fields of an object.
    pub open spec fn references(self) -> Set<usize> {
        match self {
            HeapValue::List(items, _) => addresses_among(items),
            HeapValue::Object(fields) => addresses_in(fields),
            _ => Set::empty(),
        }
    }
}

impl UnsizedValue {
    /// The fields of an object with their values, in the order in which the
    /// names came in; for a list, its methods. Nothing for other values.
    pub open spec fn order(&self) -> Seq<(Seq<char>, SizedValue)> {
        match self {
            UnsizedValue::List(_, methods) => methods.entries(),
            UnsizedValue::Object(fields) => fields.entries(),
            _ => Seq::empty(),
        }
    }

    /// The variant of the value.
    pub fn kind(&self) -> (kind: ValueKind)
        ensures
            kind == self@.kind(),
    {
        match self {
            UnsizedValue::String(_) => ValueKind::String,
            UnsizedValue::List(_, _) => ValueKind::List,
            UnsizedValue::Object(_) => ValueKind::Object,
            UnsizedValue::Function(_) => ValueKind::Function,
            UnsizedValue::Empty => ValueKind::Empty,
        }
    }

    /// The body of the function; any other variant is a type mismatch.
    pub fn as_function(&self) -> (result: Result<&Vec<OpCode>, Fault>)
        ensures
            match result {
                Ok(body) => self@ == HeapValue::Function(code_view(body@)) && *self
                    == UnsizedValue::Function(*body),
                Err(fault) => !(self@ is Function) && fault == Fault::on(
                    VmError::TypeMismatch,
                    self@.kind(),
                ),
            },
    {
        match self {
            UnsizedValue::Function(body) => Ok(body),
            _ => Err(Fault { error: VmError::TypeMismatch, offending: Some(self.kind()) }),
        }
    }

    /// The text of the string; any other variant is a type mismatch.
    pub fn as_string(&self) -> (result: Result<&String, Fault>)
        ensures
            match result {
                Ok(text) => self@ == HeapValue::String(text@),
                Err(fault) => !(self@ is String) && fault == Fault::on(
                    VmError::TypeMismatch,
                    self@.kind(),
                ),
            },
    {
        match self {
            UnsizedValue::String(text) => Ok(text),
            _ => Err(Fault { error: VmError::TypeMismatch, offending: Some(self.kind()) }),
        }
    }

    /// The elements of the list; any other variant is a type mismatch.
    pub fn as_list(&self) -> (result: Result<&Vec<SizedValue>, Fault>)
        ensures
            match result {
                Ok(items) => self@ is List && self@->List_0 == items@,
                Err(fault) => !(self@ is List) && fault == Fault::on(VmError::TypeMismatch, self@.kind()),
            },
    {
        match self {
            UnsizedValue::List(items, _) => Ok(items),
            _ => Err(Fault { error: VmError::TypeMismatch, offending: Some(self.kind()) }),
        }
    }

    /// A list of these elements that carries the builtin list methods.
    pub fn new_list(list: Vec<SizedValue>) -> (value: UnsizedValue)
        ensures
            value@ == HeapValue::List(list@, list_methods()),
            value.order() == seq![
                ("length"@, SizedValue::NativeCapability(Builtin::Length)),
                ("forEach"@, SizedValue::NativeCapability(Builtin::ForEach)),
            ],
    {
        let mut methods = Fields::new();
        methods.insert("length".to_string(), SizedValue::NativeCapability(Builtin::Length));
        proof {
            reveal_strlit("length");
            reveal_strlit("forEach");
            let first = seq![("length"@, SizedValue::NativeCapability(Builtin::Length))];
            assert(methods.entries() =~= first);
            assert(!named(first, "forEach"@)) by {
                if named(first, "forEach"@) {
                    assert(first[place(first, "forEach"@)].0.len() == 6);
                }
            }
        }
        methods.insert("forEach".to_string(), SizedValue::NativeCapability(Builtin::ForEach));
        proof {
            assert(methods.entries() =~= seq![
                ("length"@, SizedValue::NativeCapability(Builtin::Length)),
                ("forEach"@, SizedValue::NativeCapability(Builtin::ForEach)),
            ]);
        }
        UnsizedValue::List(list, methods)
    }

    /// The addresses that the value holds directly, each at least once.
    pub fn references(&self) -> (found: Vec<usize>)
        ensures
            found@.to_set() == self@.references(),
    {
        match self {
            UnsizedValue::List(items, _) => addresses_of(items),
            UnsizedValue::Object(fields) => fields.addresses(),
            _ => {
                let found: Vec<usize> = Vec::new();
                assert(found@.to_set() =~= Set::<usize>::empty());
                found
            },
        }
    }

    /// A copy of the value.
    pub fn duplicate(&self) -> (copy: UnsizedValue)
        ensures
            copy@ == self@,
            copy.order() == self.order(),
    {
        match self {
            UnsizedValue::String(text) => UnsizedValue::String(text.clone()),
            UnsizedValue::List(items, methods) => UnsizedValue::List(
                duplicate_values(items),
                methods.duplicate(),
            ),
            UnsizedValue::Object(fields) => UnsizedValue::Object(fields.duplicate()),
            UnsizedValue::Function(body) => UnsizedValue::Function(duplicate_code(body)),
            UnsizedValue::Empty => UnsizedValue::Empty,
        }
    }
}

impl Clone for UnsizedValue {
    fn clone(&self) -> (copy: Self)
        ensures
            copy@ == self@,
            copy.order() == self.order(),
    {
        self.duplicate()
    }
}

/// A copy of a sequence of values.
pub fn duplicate_values(items: &Vec<SizedValue>) -> (copy: Vec<SizedValue>)
    ensures
        copy@ == items@,
{
    let mut copy: Vec<SizedValue> = Vec::new();
    let mut i: usize = 0;
    while i < items.len()
        invariant
            i <= items.len(),
            copy@ == items@.take(i as int),
        decreases items.len() - i,
    {
        copy.push(items[i]);
        assert(copy@ =~= items@.take(i + 1));
        i = i + 1;
    }
    assert(items@.take(items@.len() as int) =~= items@);
    copy
}

/// The heap. Values are appended at its end and keep their address for as
/// long as they stay; only slots at the end are ever taken away.
#[derive(Debug)]
pub struct Heap {
    pub values: Vec<UnsizedValue>,
}

/// A sequence of heap values as contracts see it.
pub open spec fn heap_view(values: Seq<UnsizedValue>) -> Seq<HeapValue> {
    Seq::new(values.len(), |i: int| values[i]@)
}

impl View for Heap {
    type V = Seq<HeapValue>;

    open spec fn view(&self) -> Seq<HeapValue> {
        heap_view(self.values@)
    }
}

impl Heap {
    /// A heap without slots.
    pub fn new() -> (heap: Heap)
        ensures
            heap@ == Seq::<HeapValue>::empty(),
    {
        let heap = Heap { values: Vec::new() };
        assert(heap@ =~= Seq::<HeapValue>::empty());
        heap
    }

    /// The number of slots, tombstones included.
    pub fn len(&self) -> (len: usize)
        ensures
            len == self@.len(),
    {
        self.values.len()
    }

    /// Appends `value` and returns its address: the number of slots before.
    pub fn allocate(&mut self, value: UnsizedValue) -> (address: usize)
        ensures
            final(self)@ == old(self)@.push(value@),
            address == old(self)@.len(),
    {
        self.values.push(value);
        assert(self@ =~= old(self)@.push(value@));
        self.values.len() - 1
    }

    /// Appends `value`.
    pub fn push(&mut self, value: UnsizedValue)
        ensures
            final(self)@ == old(self)@.push(value@),
    {
        self.values.push(value);
        assert(self@ =~= old(self)@.push(value@));
    }

    /// Takes the last slot away and returns its value; nothing on an empty
    /// heap.
    pub fn pop(&mut self) -> (value: Option<UnsizedValue>)
        ensures
            match value {
                Some(last) => old(self)@.len() > 0 && last@ == old(self)@.last() && final(self)@ == old(
                    self,
                )@.drop_last(),
                None => old(self)@.len() == 0 && final(self)@ == old(self)@,
            },
    {
        let value = self.values.pop();
        proof {
            if old(self)@.len() > 0 {
                assert(self@ =~= old(self)@.drop_last());
            }
        }
        value
    }

    /// The value at `address`; an address at or beyond the length is out of
    /// range.
    pub fn get(&self, address: usize) -> (result: Result<&UnsizedValue, VmError>)
        ensures
            match result {
                Ok(value) => address < self@.len() && value@ == self@[address as int] && *value
                    == self.values@[address as int],
                Err(e) => address >= self@.len() && e == VmError::IndexOutOfRange,
            },
    {
        if address < self.values.len() {
            Ok(&self.values[address])
        } else {
            Err(VmError::IndexOutOfRange)
        }
    }

    /// The value at `address`, to be changed in place; an address at or
    /// beyond the length is out of range.
    pub fn get_mut(&mut self, address: usize) -> (result: Result<&mut UnsizedValue, VmError>)
        ensures
            match result {
                Ok(value) => address < old(self)@.len() && value@ == old(self)@[address as int]
                    && final(self)@ == old(self)@.update(address as int, final(value)@),
                Err(e) => address >= old(self)@.len() && e == VmError::IndexOutOfRange && final(self)@
                    == old(self)@,
            },
    {
        if address < self.values.len() {
            let value = &mut self.values[address];
            assert(heap_view(old(self).values@.update(address as int, *final(value))) =~= old(self)@.update(
                address as int,
                final(value)@,
            ));
            Ok(value)
        } else {
            Err(VmError::IndexOutOfRange)
        }
    }

    /// Puts `value` at `address` and returns the value that was there; an
    /// address at or beyond the length is out of range and changes nothing.
    pub fn replace(&mut self, address: usize, value: UnsizedValue) -> (result: Result<
        UnsizedValue,
        VmError,
    >)
        ensures
            match result {
                Ok(previous) => address < old(self)@.len() && previous@ == old(self)@[address as int]
                    && final(self)@ == old(self)@.update(address as int, value@),
                Err(e) => address >= old(self)@.len() && e == VmError::IndexOutOfRange && final(self)@
                    == old(self)@,
            },
    {
        if address < self.values.len() {
            let mut value = value;
            core::mem::swap(&mut self.values[address], &mut value);
            assert(self@ =~= old(self)@.update(address as int, self.values@[address as int]@));
            Ok(value)
        } else {
            Err(VmError::IndexOutOfRange)
        }
    }

    /// Cuts the heap down to its first `len` slots; a `len` at or beyond the
    /// length changes nothing.
    pub fn truncate(&mut self, len: usize)
        ensures
            final(self)@ == if len <= old(self)@.len() {
                old(self)@.take(len as int)
            } else {
                old(self)@
            },
    {
        self.values.truncate(len);
        proof {
            if len <= old(self)@.len() {
                assert(self@ =~= old(self)@.take(len as int));
            }
        }
    }
}

} // verus!
