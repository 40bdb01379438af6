//! The variable store: a fixed number of slots, each holding one value.

use vstd::prelude::*;
use crate::error::VmError;
use crate::value::SizedValue;

verus! {

/// The variable slots. Their number is set when the store is made and
/// never changes; a slot holds `Null` until it is first written.
#[derive(Debug)]
pub struct Store {
    values: Vec<SizedValue>,
}

impl View for Store {
    type V = Seq<SizedValue>;

    closed spec fn view(&self) -> Seq<SizedValue> {
        self.values@
    }
}

impl Store {
    /// A store of `capacity` slots, each holding `Null`.
    pub fn new(capacity: usize) -> (store: Store)
        ensures
            store@ == Seq::new(capacity as nat, |i: int| SizedValue::Null),
    {
        let mut values: Vec<SizedValue> = Vec::new();
        let mut i: usize = 0;
        while i < capacity
            invariant
                i <= capacity,
                values@ == Seq::new(i as nat, |i: int| SizedValue::Null),
            decreases capacity - i,
        {
            values.push(SizedValue::Null);
            assert(values@ =~= Seq::new((i + 1) as nat, |i: int| SizedValue::Null));
            i = i + 1;
        }
        Store { values }
    }

    /// The number of slots.
    pub fn capacity(&self) -> (capacity: usize)
        ensures
            capacity == self@.len(),
    {
        self.values.len()
    }

    /// Writes `value` to the slot at `index`, over what was there; an index
    /// at or beyond the capacity names no slot and changes nothing.
    pub fn set(&mut self, index: usize, value: SizedValue) -> (result: Result<(), VmError>)
        ensures
            match result {
                Ok(()) => index < old(self)@.len() && final(self)@ == old(self)@.update(
                    index as int,
                    value,
                ),
                Err(e) => index >= old(self)@.len() && e == VmError::InvalidSlot && final(self)@ == old(
                    self,
                )@,
            },
    {
        if index < self.values.len() {
            self.values.set(index, value);
            Ok(())
        } else {
            Err(VmError::InvalidSlot)
        }
    }

    /// A copy of the value in the slot at `index`; an index at or beyond the
    /// capacity names no slot.
    pub fn get(&self, index: usize) -> (result: Result<SizedValue, VmError>)
        ensures
            result == if index < self@.len() {
                Ok::<SizedValue, VmError>(self@[index as int])
            } else {
                Err(VmError::InvalidSlot)
            },
    {
        if index < self.values.len() {
            Ok(self.values[index])
        } else {
            Err(VmError::InvalidSlot)
        }
    }

    /// The addresses among the values of the slots, each at least once.
    pub fn addresses(&self) -> (found: Vec<usize>)
        ensures
            found@.to_set() == crate::value::addresses_among(self@),
    {
        crate::value::addresses_of(&self.values)
    }
}

} // verus!
