//! Stack-resident values: scalars, heap addresses and native capabilities,
//! with the arithmetic, logic and comparisons the machine applies to them.

use vstd::prelude::*;
use crate::error::{Fault, ValueKind, VmError};

verus! {

/// A native capability: a handle on an operation the machine itself
/// provides. Invoking one gives it the whole machine state.
#[derive(Clone, Copy, Debug, PartialEq, Eq, Structural)]
pub enum Builtin {
    /// Pops the address of a string or list and pushes its length.
    Length,
    /// Pops the address of a list, then a function, and calls the function
    /// once for each element, with the element pushed on the operand stack.
    ForEach,
}

impl Builtin {
    /// The number of operands that the capability takes off the stack,
    /// beside itself.
    pub open spec fn spec_arguments(&self) -> usize {
        match self {
            Builtin::Length => 1,
            Builtin::ForEach => 2,
        }
    }

    /// The number of operands that the capability takes off the stack,
    /// beside itself.
    #[verifier::when_used_as_spec(spec_arguments)]
    pub fn arguments(&self) -> (count: usize)
        ensures
            count == self.spec_arguments(),
    {
        match self {
            Builtin::Length => 1,
            Builtin::ForEach => 2,
        }
    }

    /// The number of results that the capability itself puts on the stack.
    pub open spec fn spec_results(&self) -> usize {
        match self {
            Builtin::Length => 1,
            Builtin::ForEach => 0,
        }
    }

    /// The number of results that the capability itself puts on the stack.
    #[verifier::when_used_as_spec(spec_results)]
    pub fn results(&self) -> (count: usize)
        ensures
            count == self.spec_results(),
    {
        match self {
            Builtin::Length => 1,
            Builtin::ForEach => 0,
        }
    }
}

/// A value that lives on the operand stack or in a variable slot.
///
/// `Float64` carries the IEEE 754 binary64 bit pattern of the number, so
/// that values have one identity and can be compared bit for bit; the
/// numeric comparison of two floats is [`float_order`].
#[derive(Clone, Copy, Debug, PartialEq, Eq, Structural)]
pub enum SizedValue {
    Int64(i64),
    Float64(u64),
    Bool(bool),
    Address(usize),
    NativeCapability(Builtin),
    Null,
}

/// How the left of two comparable values stands to the right.
#[derive(Clone, Copy, Debug, PartialEq, Eq, Structural)]
pub enum Order {
    Less,
    Equal,
    Greater,
}

/// The 64-bit two's complement integer congruent to `x` modulo 2^64.
pub open spec fn wrap64(x: int) -> i64 {
    let m = x % 0x1_0000_0000_0000_0000;
    if m > i64::MAX {
        (m - 0x1_0000_0000_0000_0000) as i64
    } else {
        m as i64
    }
}

/// The quotient of `a` by `b` rounded toward zero (`b` is not zero).
pub open spec fn trunc_div(a: int, b: int) -> int {
    if a >= 0 && b > 0 {
        a / b
    } else if a >= 0 {
        -(a / (-b))
    } else if b > 0 {
        -((-a) / b)
    } else {
        (-a) / (-b)
    }
}

/// The remainder that goes with [`trunc_div`]; it has the sign of `a`.
pub open spec fn trunc_rem(a: int, b: int) -> int {
    a - b * trunc_div(a, b)
}

/// The order of two integers.
pub open spec fn int_order(a: int, b: int) -> Order {
    if a < b {
        Order::Less
    } else if a == b {
        Order::Equal
    } else {
        Order::Greater
    }
}

/// The bits of a float without its sign bit.
pub open spec fn float_magnitude(bits: u64) -> int {
    if bits >= 0x8000_0000_0000_0000 {
        bits - 0x8000_0000_0000_0000
    } else {
        bits as int
    }
}

/// Whether the bit pattern is a NaN: all exponent bits set and a mantissa
/// that is not zero.
pub open spec fn float_is_nan(bits: u64) -> bool {
    float_magnitude(bits) > 0x7ff0_0000_0000_0000
}

/// An integer that orders the floats which are not NaN as their numeric
/// values do: the magnitude, negated where the sign bit is set. Both zeros
/// have rank 0.
pub open spec fn float_rank(bits: u64) -> int {
    if bits >= 0x8000_0000_0000_0000 {
        -float_magnitude(bits)
    } else {
        float_magnitude(bits)
    }
}

/// The IEEE 754 comparison of two floats given by their bit patterns:
/// `None` where either is a NaN.
pub open spec fn float_order(a: u64, b: u64) -> Option<Order> {
    if float_is_nan(a) || float_is_nan(b) {
        None
    } else {
        Some(int_order(float_rank(a), float_rank(b)))
    }
}

/// The comparison of two values. It is defined within one variant only:
/// integers and addresses by magnitude, floats as IEEE 754 has it, `false`
/// before `true`, `Null` equal to itself. Two native capabilities are of one
/// variant but stand in no order, not even to themselves. Values of
/// different variants cannot be compared: the right one is then the
/// offending value.
pub open spec fn order_of(lhs: SizedValue, rhs: SizedValue) -> Result<Option<Order>, Fault> {
    match (lhs, rhs) {
        (SizedValue::Int64(a), SizedValue::Int64(b)) => Ok(Some(int_order(a as int, b as int))),
        (SizedValue::Float64(a), SizedValue::Float64(b)) => Ok(float_order(a, b)),
        (SizedValue::Bool(a), SizedValue::Bool(b)) => Ok(
            Some(int_order(if a { 1 } else { 0 }, if b { 1 } else { 0 })),
        ),
        (SizedValue::Address(a), SizedValue::Address(b)) => Ok(Some(int_order(a as int, b as int))),
        (SizedValue::NativeCapability(_), SizedValue::NativeCapability(_)) => Ok(None),
        (SizedValue::Null, SizedValue::Null) => Ok(Some(Order::Equal)),
        _ => Err(Fault::on(VmError::TypeMismatch, rhs.spec_kind())),
    }
}

/// The heap address that a value holds; any other variant is a type
/// mismatch.
pub open spec fn address_of(value: SizedValue) -> Result<usize, Fault> {
    match value {
        SizedValue::Address(address) => Ok(address),
        _ => Err(Fault::on(VmError::TypeMismatch, value.spec_kind())),
    }
}

/// The integer that a value holds, as an index. A negative integer, or one
/// too large for an index on this machine, is out of range; any other
/// variant is a type mismatch.
pub open spec fn index_of(value: SizedValue) -> Result<usize, Fault> {
    match value {
        SizedValue::Int64(index) => if 0 <= index <= usize::MAX {
            Ok(index as usize)
        } else {
            Err(Fault::on(VmError::IndexOutOfRange, ValueKind::Int64))
        },
        _ => Err(Fault::on(VmError::TypeMismatch, value.spec_kind())),
    }
}

/// The boolean that a value holds; any other variant is a type mismatch.
pub open spec fn bool_of(value: SizedValue) -> Result<bool, Fault> {
    match value {
        SizedValue::Bool(flag) => Ok(flag),
        _ => Err(Fault::on(VmError::TypeMismatch, value.spec_kind())),
    }
}

/// One of the six comparisons.
#[derive(Clone, Copy, Debug, PartialEq, Eq, Structural)]
pub enum Relation {
    Eq,
    Neq,
    Lt,
    Gt,
    Lte,
    Gte,
}

/// Whether a relation holds of two values that stand in `order`. Values
/// that stand in no order are not equal, and no less and no greater.
pub open spec fn holds(relation: Relation, order: Option<Order>) -> bool {
    match relation {
        Relation::Eq => order == Some(Order::Equal),
        Relation::Neq => order != Some(Order::Equal),
        Relation::Lt => order == Some(Order::Less),
        Relation::Gt => order == Some(Order::Greater),
        Relation::Lte => order == Some(Order::Less) || order == Some(Order::Equal),
        Relation::Gte => order == Some(Order::Greater) || order == Some(Order::Equal),
    }
}

/// The boolean that tells whether `lhs` stands in `relation` to `rhs`.
pub open spec fn related(relation: Relation, lhs: SizedValue, rhs: SizedValue) -> Result<
    SizedValue,
    Fault,
> {
    match order_of(lhs, rhs) {
        Ok(order) => Ok(SizedValue::Bool(holds(relation, order))),
        Err(fault) => Err(fault),
    }
}

/// What an arithmetic operation returns where one operand is no integer:
/// the left operand offends if it is none, else the right.
pub open spec fn not_integers(lhs: SizedValue, rhs: SizedValue) -> Fault {
    if lhs is Int64 {
        Fault::on(VmError::TypeMismatch, rhs.spec_kind())
    } else {
        Fault::on(VmError::TypeMismatch, lhs.spec_kind())
    }
}

/// What a logical operation returns where one operand is no boolean.
pub open spec fn not_booleans(lhs: SizedValue, rhs: SizedValue) -> Fault {
    if lhs is Bool {
        Fault::on(VmError::TypeMismatch, rhs.spec_kind())
    } else {
        Fault::on(VmError::TypeMismatch, lhs.spec_kind())
    }
}

/// `lhs + rhs` on two integers, in two's complement.
pub open spec fn sum_of(lhs: SizedValue, rhs: SizedValue) -> Result<SizedValue, Fault> {
    match (lhs, rhs) {
        (SizedValue::Int64(a), SizedValue::Int64(b)) => Ok(SizedValue::Int64(wrap64(a + b))),
        _ => Err(not_integers(lhs, rhs)),
    }
}

/// `lhs - rhs` on two integers, in two's complement.
pub open spec fn difference_of(lhs: SizedValue, rhs: SizedValue) -> Result<SizedValue, Fault> {
    match (lhs, rhs) {
        (SizedValue::Int64(a), SizedValue::Int64(b)) => Ok(SizedValue::Int64(wrap64(a - b))),
        _ => Err(not_integers(lhs, rhs)),
    }
}

/// `lhs * rhs` on two integers, in two's complement.
pub open spec fn product_of(lhs: SizedValue, rhs: SizedValue) -> Result<SizedValue, Fault> {
    match (lhs, rhs) {
        (SizedValue::Int64(a), SizedValue::Int64(b)) => Ok(SizedValue::Int64(wrap64(a * b))),
        _ => Err(not_integers(lhs, rhs)),
    }
}

/// `lhs / rhs` on two integers, rounded toward zero. A zero divisor is a
/// fault; the one quotient that does not fit wraps.
pub open spec fn quotient_of(lhs: SizedValue, rhs: SizedValue) -> Result<SizedValue, Fault> {
    match (lhs, rhs) {
        (SizedValue::Int64(a), SizedValue::Int64(b)) => if b == 0 {
            Err(Fault::on(VmError::DivisionByZero, ValueKind::Int64))
        } else {
            Ok(SizedValue::Int64(wrap64(trunc_div(a as int, b as int))))
        },
        _ => Err(not_integers(lhs, rhs)),
    }
}

/// The remainder of `lhs / rhs` on two integers, with the sign of `lhs`.
pub open spec fn remainder_of(lhs: SizedValue, rhs: SizedValue) -> Result<SizedValue, Fault> {
    match (lhs, rhs) {
        (SizedValue::Int64(a), SizedValue::Int64(b)) => if b == 0 {
            Err(Fault::on(VmError::DivisionByZero, ValueKind::Int64))
        } else {
            Ok(SizedValue::Int64(wrap64(trunc_rem(a as int, b as int))))
        },
        _ => Err(not_integers(lhs, rhs)),
    }
}

/// `-value` on an integer, in two's complement.
pub open spec fn negation_of(value: SizedValue) -> Result<SizedValue, Fault> {
    match value {
        SizedValue::Int64(a) => Ok(SizedValue::Int64(wrap64(-a))),
        _ => Err(Fault::on(VmError::TypeMismatch, value.spec_kind())),
    }
}

/// `!value` on a boolean.
pub open spec fn inversion_of(value: SizedValue) -> Result<SizedValue, Fault> {
    match value {
        SizedValue::Bool(a) => Ok(SizedValue::Bool(!a)),
        _ => Err(Fault::on(VmError::TypeMismatch, value.spec_kind())),
    }
}

/// `lhs && rhs` on two booleans.
pub open spec fn conjunction_of(lhs: SizedValue, rhs: SizedValue) -> Result<SizedValue, Fault> {
    match (lhs, rhs) {
        (SizedValue::Bool(a), SizedValue::Bool(b)) => Ok(SizedValue::Bool(a && b)),
        _ => Err(not_booleans(lhs, rhs)),
    }
}

/// `lhs || rhs` on two booleans.
pub open spec fn disjunction_of(lhs: SizedValue, rhs: SizedValue) -> Result<SizedValue, Fault> {
    match (lhs, rhs) {
        (SizedValue::Bool(a), SizedValue::Bool(b)) => Ok(SizedValue::Bool(a || b)),
        _ => Err(not_booleans(lhs, rhs)),
    }
}

/// The rank of a float that is not a NaN.
fn rank_of_float(bits: u64) -> (rank: i64)
    requires
        !float_is_nan(bits),
    ensures
        rank == float_rank(bits),
{
    if bits >= 0x8000_0000_0000_0000 {
        let magnitude: u64 = bits - 0x8000_0000_0000_0000;
        -(magnitude as i64)
    } else {
        bits as i64
    }
}

/// The order of two integers.
fn order_of_ints(a: i64, b: i64) -> (order: Order)
    ensures
        order == int_order(a as int, b as int),
{
    if a < b {
        Order::Less
    } else if a == b {
        Order::Equal
    } else {
        Order::Greater
    }
}

impl SizedValue {
    /// The variant of the value.
    pub open spec fn spec_kind(&self) -> ValueKind {
        match self {
            SizedValue::Int64(_) => ValueKind::Int64,
            SizedValue::Float64(_) => ValueKind::Float64,
            SizedValue::Bool(_) => ValueKind::Bool,
            SizedValue::Address(_) => ValueKind::Address,
            SizedValue::NativeCapability(_) => ValueKind::NativeCapability,
            SizedValue::Null => ValueKind::Null,
        }
    }

    /// The variant of the value.
    #[verifier::when_used_as_spec(spec_kind)]
    pub fn kind(&self) -> (kind: ValueKind)
        ensures
            kind == self.spec_kind(),
    {
        match self {
            SizedValue::Int64(_) => ValueKind::Int64,
            SizedValue::Float64(_) => ValueKind::Float64,
            SizedValue::Bool(_) => ValueKind::Bool,
            SizedValue::Address(_) => ValueKind::Address,
            SizedValue::NativeCapability(_) => ValueKind::NativeCapability,
            SizedValue::Null => ValueKind::Null,
        }
    }

    /// The heap address that the value holds.
    pub fn as_address(&self) -> (result: Result<usize, Fault>)
        ensures
            result == address_of(*self),
    {
        match self {
            SizedValue::Address(address) => Ok(*address),
            _ => Err(Fault { error: VmError::TypeMismatch, offending: Some(self.kind()) }),
        }
    }

    /// The integer that the value holds, as an index.
    pub fn as_usize(&self) -> (result: Result<usize, Fault>)
        ensures
            result == index_of(*self),
    {
        match self {
            SizedValue::Int64(index) => {
                if *index >= 0 && (*index as u64) <= (usize::MAX as u64) {
                    Ok(*index as usize)
                } else {
                    Err(Fault { error: VmError::IndexOutOfRange, offending: Some(ValueKind::Int64) })
                }
            },
            _ => Err(Fault { error: VmError::TypeMismatch, offending: Some(self.kind()) }),
        }
    }

    /// The boolean that the value holds.
    pub fn as_bool(&self) -> (result: Result<bool, Fault>)
        ensures
            result == bool_of(*self),
    {
        match self {
            SizedValue::Bool(flag) => Ok(*flag),
            _ => Err(Fault { error: VmError::TypeMismatch, offending: Some(self.kind()) }),
        }
    }

    /// Compares the value, as the left operand, with `rhs`.
    pub fn compare(&self, rhs: &SizedValue) -> (result: Result<Option<Order>, Fault>)
        ensures
            result == order_of(*self, *rhs),
    {
        match (self, rhs) {
            (SizedValue::Int64(a), SizedValue::Int64(b)) => Ok(Some(order_of_ints(*a, *b))),
            (SizedValue::Float64(a), SizedValue::Float64(b)) => {
                let a_nan = (if *a >= 0x8000_0000_0000_0000 {
                    *a - 0x8000_0000_0000_0000
                } else {
                    *a
                }) > 0x7ff0_0000_0000_0000;
                let b_nan = (if *b >= 0x8000_0000_0000_0000 {
                    *b - 0x8000_0000_0000_0000
                } else {
                    *b
                }) > 0x7ff0_0000_0000_0000;
                if a_nan || b_nan {
                    Ok(None)
                } else {
                    Ok(Some(order_of_ints(rank_of_float(*a), rank_of_float(*b))))
                }
            },
            (SizedValue::Bool(a), SizedValue::Bool(b)) => {
                let x: i64 = if *a { 1 } else { 0 };
                let y: i64 = if *b { 1 } else { 0 };
                Ok(Some(order_of_ints(x, y)))
            },
            (SizedValue::Address(a), SizedValue::Address(b)) => {
                if *a < *b {
                    Ok(Some(Order::Less))
                } else if *a == *b {
                    Ok(Some(Order::Equal))
                } else {
                    Ok(Some(Order::Greater))
                }
            },
            (SizedValue::NativeCapability(_), SizedValue::NativeCapability(_)) => Ok(None),
            (SizedValue::Null, SizedValue::Null) => Ok(Some(Order::Equal)),
            _ => Err(Fault { error: VmError::TypeMismatch, offending: Some(rhs.kind()) }),
        }
    }

    /// Whether the value, as the left operand, stands in `relation` to `rhs`.
    pub fn relation(&self, relation: Relation, rhs: &SizedValue) -> (result: Result<SizedValue, Fault>)
        ensures
            result == related(relation, *self, *rhs),
    {
        match self.compare(rhs) {
            Ok(order) => {
                let equal = match order {
                    Some(Order::Equal) => true,
                    _ => false,
                };
                let less = match order {
                    Some(Order::Less) => true,
                    _ => false,
                };
                let greater = match order {
                    Some(Order::Greater) => true,
                    _ => false,
                };
                Ok(
                    SizedValue::Bool(
                        match relation {
                            Relation::Eq => equal,
                            Relation::Neq => !equal,
                            Relation::Lt => less,
                            Relation::Gt => greater,
                            Relation::Lte => less || equal,
                            Relation::Gte => greater || equal,
                        },
                    ),
                )
            },
            Err(fault) => Err(fault),
        }
    }

    /// The fault of an arithmetic operation on operands that are not both
    /// integers.
    fn integers_expected(&self, rhs: &SizedValue) -> (fault: Fault)
        ensures
            fault == not_integers(*self, *rhs),
    {
        match self {
            SizedValue::Int64(_) => Fault { error: VmError::TypeMismatch, offending: Some(rhs.kind()) },
            _ => Fault { error: VmError::TypeMismatch, offending: Some(self.kind()) },
        }
    }

    /// The fault of a logical operation on operands that are not both
    /// booleans.
    fn booleans_expected(&self, rhs: &SizedValue) -> (fault: Fault)
        ensures
            fault == not_booleans(*self, *rhs),
    {
        match self {
            SizedValue::Bool(_) => Fault { error: VmError::TypeMismatch, offending: Some(rhs.kind()) },
            _ => Fault { error: VmError::TypeMismatch, offending: Some(self.kind()) },
        }
    }

    /// Adds `rhs` to the value.
    pub fn sum(&self, rhs: &SizedValue) -> (result: Result<SizedValue, Fault>)
        ensures
            result == sum_of(*self, *rhs),
    {
        match (self, rhs) {
            (SizedValue::Int64(a), SizedValue::Int64(b)) => Ok(SizedValue::Int64(a.wrapping_add(*b))),
            _ => Err(self.integers_expected(rhs)),
        }
    }

    /// Subtracts `rhs` from the value.
    pub fn difference(&self, rhs: &SizedValue) -> (result: Result<SizedValue, Fault>)
        ensures
            result == difference_of(*self, *rhs),
    {
        match (self, rhs) {
            (SizedValue::Int64(a), SizedValue::Int64(b)) => Ok(SizedValue::Int64(a.wrapping_sub(*b))),
            _ => Err(self.integers_expected(rhs)),
        }
    }

    /// Multiplies the value by `rhs`.
    pub fn product(&self, rhs: &SizedValue) -> (result: Result<SizedValue, Fault>)
        ensures
            result == product_of(*self, *rhs),
    {
        match (self, rhs) {
            (SizedValue::Int64(a), SizedValue::Int64(b)) => Ok(SizedValue::Int64(a.wrapping_mul(*b))),
            _ => Err(self.integers_expected(rhs)),
        }
    }

    /// Divides the value by `rhs`.
    pub fn quotient(&self, rhs: &SizedValue) -> (result: Result<SizedValue, Fault>)
        ensures
            result == quotient_of(*self, *rhs),
    {
        match (self, rhs) {
            (SizedValue::Int64(a), SizedValue::Int64(b)) => {
                if *b == 0 {
                    Err(Fault { error: VmError::DivisionByZero, offending: Some(ValueKind::Int64) })
                } else {
                    match a.checked_div(*b) {
                        Some(q) => Ok(SizedValue::Int64(q)),
                        None => Ok(SizedValue::Int64(i64::MIN)),
                    }
                }
            },
            _ => Err(self.integers_expected(rhs)),
        }
    }

    /// The remainder of the value divided by `rhs`.
    pub fn remainder(&self, rhs: &SizedValue) -> (result: Result<SizedValue, Fault>)
        ensures
            result == remainder_of(*self, *rhs),
    {
        match (self, rhs) {
            (SizedValue::Int64(a), SizedValue::Int64(b)) => {
                if *b == 0 {
                    Err(Fault { error: VmError::DivisionByZero, offending: Some(ValueKind::Int64) })
                } else {
                    match a.checked_rem(*b) {
                        Some(r) => {
                            proof {
                                lemma_remainder(*a as int, *b as int);
                            }
                            Ok(SizedValue::Int64(r))
                        },
                        None => {
                            proof {
                                lemma_remainder(*a as int, *b as int);
                            }
                            Ok(SizedValue::Int64(0))
                        },
                    }
                }
            },
            _ => Err(self.integers_expected(rhs)),
        }
    }

    /// The value negated.
    pub fn negation(&self) -> (result: Result<SizedValue, Fault>)
        ensures
            result == negation_of(*self),
    {
        match self {
            SizedValue::Int64(a) => Ok(SizedValue::Int64(0i64.wrapping_sub(*a))),
            _ => Err(Fault { error: VmError::TypeMismatch, offending: Some(self.kind()) }),
        }
    }

    /// The logical complement of the value.
    pub fn inversion(&self) -> (result: Result<SizedValue, Fault>)
        ensures
            result == inversion_of(*self),
    {
        match self {
            SizedValue::Bool(a) => Ok(SizedValue::Bool(!*a)),
            _ => Err(Fault { error: VmError::TypeMismatch, offending: Some(self.kind()) }),
        }
    }

    /// The value and `rhs`.
    pub fn conjunction(&self, rhs: &SizedValue) -> (result: Result<SizedValue, Fault>)
        ensures
            result == conjunction_of(*self, *rhs),
    {
        match (self, rhs) {
            (SizedValue::Bool(a), SizedValue::Bool(b)) => Ok(SizedValue::Bool(*a && *b)),
            _ => Err(self.booleans_expected(rhs)),
        }
    }

    /// The value or `rhs`.
    pub fn disjunction(&self, rhs: &SizedValue) -> (result: Result<SizedValue, Fault>)
        ensures
            result == disjunction_of(*self, *rhs),
    {
        match (self, rhs) {
            (SizedValue::Bool(a), SizedValue::Bool(b)) => Ok(SizedValue::Bool(*a || *b)),
            _ => Err(self.booleans_expected(rhs)),
        }
    }
}

/// The remainder toward zero, in the cases by which the standard library
/// states it, is `a - b * trunc_div(a, b)`.
proof fn lemma_remainder(a: int, b: int)
    requires
        b != 0,
    ensures
        a >= 0 && b > 0 ==> trunc_rem(a, b) == a % b,
        a >= 0 && b < 0 ==> trunc_rem(a, b) == a % (-b),
        a < 0 && b > 0 ==> trunc_rem(a, b) == -((-a) % b),
        a < 0 && b < 0 ==> trunc_rem(a, b) == -((-a) % (-b)),
        a == 0 ==> trunc_rem(a, b) == 0,
        b == -1 ==> trunc_rem(a, b) == 0,
{
    if a == 0 {
        assert(0int / b == 0 && 0int / (-b) == 0) by (nonlinear_arith)
            requires
                b != 0,
        ;
    }
    if b == -1 {
        assert(a / 1 == a && (-a) / 1 == -a) by (nonlinear_arith);
    }
    if a >= 0 && b > 0 {
        vstd::arithmetic::div_mod::lemma_fundamental_div_mod(a, b);
    } else if a >= 0 {
        vstd::arithmetic::div_mod::lemma_fundamental_div_mod(a, -b);
        assert(b * -(a / (-b)) == (-b) * (a / (-b))) by (nonlinear_arith);
    } else if b > 0 {
        vstd::arithmetic::div_mod::lemma_fundamental_div_mod(-a, b);
        assert(b * -((-a) / b) == -(b * ((-a) / b))) by (nonlinear_arith);
    } else {
        vstd::arithmetic::div_mod::lemma_fundamental_div_mod(-a, -b);
        assert(b * ((-a) / (-b)) == -((-b) * ((-a) / (-b)))) by (nonlinear_arith);
    }
}

/// The heap addresses among the values of a sequence.
pub open spec fn addresses_among(items: Seq<SizedValue>) -> Set<usize> {
    Set::new(
        |address: usize|
            exists|i: int| 0 <= i < items.len() && #[trigger] items[i] == SizedValue::Address(address),
    )
}

/// The addresses among a sequence with one more value at its end.
pub proof fn lemma_addresses_among_push(items: Seq<SizedValue>, value: SizedValue)
    ensures
        addresses_among(items.push(value)) == match value {
            SizedValue::Address(address) => addresses_among(items).insert(address),
            _ => addresses_among(items),
        },
{
    let longer = items.push(value);
    let expected = match value {
        SizedValue::Address(address) => addresses_among(items).insert(address),
        _ => addresses_among(items),
    };
    assert forall|a: usize| addresses_among(longer).contains(a) <==> expected.contains(a) by {
        if addresses_among(longer).contains(a) {
            let i = choose|i: int| 0 <= i < longer.len() && #[trigger] longer[i] == SizedValue::Address(a);
            if i < items.len() {
                assert(items[i] == SizedValue::Address(a));
            }
        }
        if addresses_among(items).contains(a) {
            let i = choose|i: int| 0 <= i < items.len() && #[trigger] items[i] == SizedValue::Address(a);
            assert(longer[i] == SizedValue::Address(a));
        }
        if value == SizedValue::Address(a) {
            assert(longer[items.len() as int] == SizedValue::Address(a));
        }
    }
    assert(addresses_among(longer) =~= expected);
}

/// The heap addresses among the values of a sequence, each at least once.
pub fn addresses_of(items: &Vec<SizedValue>) -> (found: Vec<usize>)
    ensures
        found@.to_set() == addresses_among(items@),
{
    let mut found: Vec<usize> = Vec::new();
    let mut i: usize = 0;
    assert(found@.to_set() =~= addresses_among(items@.take(0)));
    while i < items.len()
        invariant
            i <= items.len(),
            found@.to_set() == addresses_among(items@.take(i as int)),
        decreases items.len() - i,
    {
        proof {
            assert(items@.take(i + 1) =~= items@.take(i as int).push(items@[i as int]));
            lemma_addresses_among_push(items@.take(i as int), items@[i as int]);
        }
        if let SizedValue::Address(address) = items[i] {
            proof {
                found@.lemma_push_to_set_commute(address);
            }
            found.push(address);
        }
        i = i + 1;
    }
    proof {
        assert(items@.take(items@.len() as int) =~= items@);
    }
    found
}

} // verus!
