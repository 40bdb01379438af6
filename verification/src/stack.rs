//! The operand stack: the one channel between instructions.

use vstd::prelude::*;
use crate::error::VmError;
pub use crate::value::SizedValue;

verus! {

/// A last-in, first-out sequence of values without a fixed capacity. The
/// top of the stack is the end of the sequence.
#[derive(Debug)]
pub struct Stack {
    pub values: Vec<SizedValue>,
}

impl View for Stack {
    type V = Seq<SizedValue>;

    open spec fn view(&self) -> Seq<SizedValue> {
        self.values@
    }
}

impl Stack {
    /// An empty stack.
    pub fn new() -> (stack: Stack)
        ensures
            stack@ == Seq::<SizedValue>::empty(),
    {
        let values = Vec::with_capacity(100);
        Stack { values }
    }

    /// The number of values on the stack.
    pub fn len(&self) -> (len: usize)
        ensures
            len == self@.len(),
    {
        self.values.len()
    }

    /// Puts `value` on top.
    pub fn push(&mut self, value: SizedValue)
        ensures
            final(self)@ == old(self)@.push(value),
    {
        self.values.push(value);
    }

    /// Takes the top value off; an empty stack underflows and stays empty.
    pub fn pop(&mut self) -> (result: Result<SizedValue, VmError>)
        ensures
            match result {
                Ok(value) => old(self)@.len() > 0 && value == old(self)@.last() && final(self)@ == old(
                    self,
                )@.drop_last(),
                Err(e) => old(self)@.len() == 0 && e == VmError::StackUnderflow && final(self)@ == old(
                    self,
                )@,
            },
    {
        match self.values.pop() {
            Some(value) => {
                assert(self@ =~= old(self)@.drop_last());
                Ok(value)
            },
            None => Err(VmError::StackUnderflow),
        }
    }

    /// Takes every value off.
    pub fn clear(&mut self)
        ensures
            final(self)@ == Seq::<SizedValue>::empty(),
    {
        self.values.clear();
    }

    /// The value `depth` places below the top, the top being at depth 0; a
    /// depth at or beyond the length underflows.
    pub fn peek(&self, depth: usize) -> (result: Result<SizedValue, VmError>)
        ensures
            result == if depth < self@.len() {
                Ok::<SizedValue, VmError>(self@[self@.len() - 1 - depth])
            } else {
                Err(VmError::StackUnderflow)
            },
    {
        if depth < self.values.len() {
            Ok(self.values[self.values.len() - 1 - depth])
        } else {
            Err(VmError::StackUnderflow)
        }
    }
}

} // verus!
