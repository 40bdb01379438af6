//! The ways in which executing a program or collecting the heap can fail.

use vstd::prelude::*;

verus! {

/// The kind of a failure. None of them can be recovered from inside a
/// running program.
#[derive(Clone, Copy, Debug, PartialEq, Eq, Structural)]
pub enum VmError {
    /// An operand was popped from an empty operand stack.
    StackUnderflow,
    /// An operand or a heap value was of a variant the operation does not accept.
    TypeMismatch,
    /// A heap address, a list index or a jump target lay outside its container.
    IndexOutOfRange,
    /// A variable slot at or beyond the store's capacity was named.
    InvalidSlot,
    /// The receiver has no builtin method of the requested name.
    UnknownProperty,
    /// The collector met a root that addresses no heap slot.
    UnresolvedAddress,
    /// An integer was divided by zero.
    DivisionByZero,
}

/// The variant of a value, without its payload: the six kinds of stack
/// values followed by the five kinds of heap values.
#[derive(Clone, Copy, Debug, PartialEq, Eq, Structural)]
pub enum ValueKind {
    Int64,
    Float64,
    Bool,
    Address,
    NativeCapability,
    Null,
    String,
    List,
    Object,
    Function,
    Empty,
}

/// A failure of one operation on values, with the kind of the value that
/// caused it where there is one.
#[derive(Clone, Copy, Debug, PartialEq, Eq, Structural)]
pub struct Fault {
    pub error: VmError,
    pub offending: Option<ValueKind>,
}

impl Fault {
    /// A failure of kind `error` caused by a value of kind `kind`.
    pub open spec fn on(error: VmError, kind: ValueKind) -> Fault {
        Fault { error, offending: Some(kind) }
    }

    /// A failure of kind `error` that no value caused.
    pub open spec fn bare(error: VmError) -> Fault {
        Fault { error, offending: None }
    }
}

} // verus!
