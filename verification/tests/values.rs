use stack_vm::error::{Fault, ValueKind, VmError};
use stack_vm::fields::Fields;
use stack_vm::heap::{Heap, UnsizedValue};
use stack_vm::opcodes::OpCode;
use stack_vm::stack::Stack;
use stack_vm::store::Store;
use stack_vm::value::{Builtin, Order, Relation, SizedValue};

fn mismatch(kind: ValueKind) -> Fault {
    Fault { error: VmError::TypeMismatch, offending: Some(kind) }
}

fn float(x: f64) -> SizedValue {
    SizedValue::Float64(x.to_bits())
}

#[test]
fn floats_compare_as_ieee_754_has_it() {
    let samples = [
        0.0f64,
        -0.0,
        1.0,
        -1.0,
        1.5,
        -1.5,
        f64::MIN_POSITIVE,
        -f64::MIN_POSITIVE,
        5e-324,
        -5e-324,
        f64::MAX,
        f64::MIN,
        f64::INFINITY,
        f64::NEG_INFINITY,
        f64::NAN,
        -f64::NAN,
        f64::from_bits(0x7ff0_0000_0000_0001),
        f64::from_bits(0xfff8_0000_0000_0000),
        3.141592653589793,
        1e300,
        -1e-300,
    ];
    for &a in &samples {
        for &b in &samples {
            let expected = a.partial_cmp(&b).map(|order| match order {
                std::cmp::Ordering::Less => Order::Less,
                std::cmp::Ordering::Equal => Order::Equal,
                std::cmp::Ordering::Greater => Order::Greater,
            });
            assert_eq!(float(a).compare(&float(b)), Ok(expected), "{} ? {}", a, b);
            assert_eq!(float(a).relation(Relation::Eq, &float(b)), Ok(SizedValue::Bool(a == b)));
            assert_eq!(float(a).relation(Relation::Neq, &float(b)), Ok(SizedValue::Bool(a != b)));
            assert_eq!(float(a).relation(Relation::Lt, &float(b)), Ok(SizedValue::Bool(a < b)));
            assert_eq!(float(a).relation(Relation::Gt, &float(b)), Ok(SizedValue::Bool(a > b)));
            assert_eq!(float(a).relation(Relation::Lte, &float(b)), Ok(SizedValue::Bool(a <= b)));
            assert_eq!(float(a).relation(Relation::Gte, &float(b)), Ok(SizedValue::Bool(a >= b)));
        }
    }
}

#[test]
fn values_compare_within_their_variant() {
    assert_eq!(SizedValue::Int64(-3).compare(&SizedValue::Int64(2)), Ok(Some(Order::Less)));
    assert_eq!(SizedValue::Int64(i64::MAX).compare(&SizedValue::Int64(i64::MIN)), Ok(Some(Order::Greater)));
    assert_eq!(SizedValue::Bool(false).compare(&SizedValue::Bool(true)), Ok(Some(Order::Less)));
    assert_eq!(SizedValue::Bool(true).compare(&SizedValue::Bool(true)), Ok(Some(Order::Equal)));
    assert_eq!(SizedValue::Address(9).compare(&SizedValue::Address(3)), Ok(Some(Order::Greater)));
    assert_eq!(SizedValue::Null.compare(&SizedValue::Null), Ok(Some(Order::Equal)));
    assert_eq!(SizedValue::Null.relation(Relation::Lte, &SizedValue::Null), Ok(SizedValue::Bool(true)));
    assert_eq!(SizedValue::Null.relation(Relation::Lt, &SizedValue::Null), Ok(SizedValue::Bool(false)));
}

#[test]
fn native_capabilities_stand_in_no_order() {
    let a = SizedValue::NativeCapability(Builtin::Length);
    let b = SizedValue::NativeCapability(Builtin::ForEach);
    assert_eq!(a.compare(&a), Ok(None));
    assert_eq!(a.compare(&b), Ok(None));
    assert_eq!(a.relation(Relation::Eq, &a), Ok(SizedValue::Bool(false)));
    assert_eq!(a.relation(Relation::Neq, &a), Ok(SizedValue::Bool(true)));
    assert_eq!(a.relation(Relation::Lte, &a), Ok(SizedValue::Bool(false)));
    assert_eq!(a.relation(Relation::Gte, &b), Ok(SizedValue::Bool(false)));
}

#[test]
fn values_of_different_variants_cannot_be_compared() {
    let values = [
        SizedValue::Int64(0),
        SizedValue::Float64(0),
        SizedValue::Bool(false),
        SizedValue::Address(0),
        SizedValue::NativeCapability(Builtin::Length),
        SizedValue::Null,
    ];
    for (i, a) in values.iter().enumerate() {
        for (j, b) in values.iter().enumerate() {
            if i != j {
                assert_eq!(a.compare(b), Err(mismatch(b.kind())));
                assert_eq!(a.relation(Relation::Eq, b), Err(mismatch(b.kind())));
            }
        }
    }
}

#[test]
fn arithmetic_on_values() {
    let a = SizedValue::Int64(17);
    let b = SizedValue::Int64(-5);
    assert_eq!(a.sum(&b), Ok(SizedValue::Int64(12)));
    assert_eq!(a.difference(&b), Ok(SizedValue::Int64(22)));
    assert_eq!(a.product(&b), Ok(SizedValue::Int64(-85)));
    assert_eq!(a.quotient(&b), Ok(SizedValue::Int64(-3)));
    assert_eq!(a.remainder(&b), Ok(SizedValue::Int64(2)));
    assert_eq!(b.quotient(&a), Ok(SizedValue::Int64(0)));
    assert_eq!(b.remainder(&a), Ok(SizedValue::Int64(-5)));
    assert_eq!(a.negation(), Ok(SizedValue::Int64(-17)));
    assert_eq!(SizedValue::Int64(i64::MIN).product(&SizedValue::Int64(-1)), Ok(SizedValue::Int64(i64::MIN)));
    assert_eq!(
        SizedValue::Int64(0x1_0000_0001).product(&SizedValue::Int64(0x1_0000_0001)),
        Ok(SizedValue::Int64(0x1_0000_0001i64.wrapping_mul(0x1_0000_0001)))
    );
    assert_eq!(
        a.quotient(&SizedValue::Int64(0)),
        Err(Fault { error: VmError::DivisionByZero, offending: Some(ValueKind::Int64) })
    );
    assert_eq!(
        a.remainder(&SizedValue::Int64(0)),
        Err(Fault { error: VmError::DivisionByZero, offending: Some(ValueKind::Int64) })
    );
}

#[test]
fn the_offending_operand_is_the_first_that_does_not_fit() {
    let int = SizedValue::Int64(1);
    let flag = SizedValue::Bool(true);
    assert_eq!(int.sum(&flag), Err(mismatch(ValueKind::Bool)));
    assert_eq!(flag.sum(&int), Err(mismatch(ValueKind::Bool)));
    assert_eq!(SizedValue::Null.sum(&flag), Err(mismatch(ValueKind::Null)));
    assert_eq!(flag.conjunction(&int), Err(mismatch(ValueKind::Int64)));
    assert_eq!(int.disjunction(&flag), Err(mismatch(ValueKind::Int64)));
    assert_eq!(SizedValue::Null.negation(), Err(mismatch(ValueKind::Null)));
    assert_eq!(SizedValue::Address(0).inversion(), Err(mismatch(ValueKind::Address)));
    assert_eq!(SizedValue::Float64(0).difference(&SizedValue::Float64(0)), Err(mismatch(ValueKind::Float64)));
    assert_eq!(flag.conjunction(&SizedValue::Bool(false)), Ok(SizedValue::Bool(false)));
    assert_eq!(flag.disjunction(&SizedValue::Bool(false)), Ok(SizedValue::Bool(true)));
    assert_eq!(flag.inversion(), Ok(SizedValue::Bool(false)));
}

#[test]
fn conversions_of_values() {
    assert_eq!(SizedValue::Address(4).as_address(), Ok(4));
    assert_eq!(SizedValue::Int64(4).as_address(), Err(mismatch(ValueKind::Int64)));
    assert_eq!(SizedValue::Int64(4).as_usize(), Ok(4));
    assert_eq!(SizedValue::Int64(0).as_usize(), Ok(0));
    assert_eq!(
        SizedValue::Int64(-1).as_usize(),
        Err(Fault { error: VmError::IndexOutOfRange, offending: Some(ValueKind::Int64) })
    );
    assert_eq!(SizedValue::Address(4).as_usize(), Err(mismatch(ValueKind::Address)));
    assert_eq!(SizedValue::Bool(true).as_bool(), Ok(true));
    assert_eq!(SizedValue::Null.as_bool(), Err(mismatch(ValueKind::Null)));
    assert_eq!(SizedValue::NativeCapability(Builtin::ForEach).kind(), ValueKind::NativeCapability);
}

#[test]
fn fields_map_names_to_values() {
    let mut fields = Fields::new();
    let foo = "foo".to_string();
    let bar = "bar".to_string();
    assert_eq!(fields.get(&foo), None);
    assert_eq!(fields.insert(foo.clone(), SizedValue::Int64(42)), None);
    assert_eq!(fields.insert(bar.clone(), SizedValue::Int64(1337)), None);
    assert_eq!(fields.get(&foo), Some(SizedValue::Int64(42)));
    assert_eq!(fields.get(&bar), Some(SizedValue::Int64(1337)));
    assert_eq!(fields.insert(foo.clone(), SizedValue::Address(3)), Some(SizedValue::Int64(42)));
    assert_eq!(fields.get(&foo), Some(SizedValue::Address(3)));
    assert_eq!(fields.addresses(), vec![3]);
    let copy = fields.duplicate();
    assert_eq!(fields.remove(&foo), Some(SizedValue::Address(3)));
    assert_eq!(fields.remove(&foo), None);
    assert_eq!(fields.get(&foo), None);
    assert_eq!(fields.get(&bar), Some(SizedValue::Int64(1337)));
    assert!(fields.addresses().is_empty());
    assert_eq!(copy.get(&foo), Some(SizedValue::Address(3)));
    assert_eq!(fields.get(&"".to_string()), None);
}

#[test]
fn heap_values_tell_their_variant() {
    let string = UnsizedValue::String("s".to_string());
    let list = UnsizedValue::new_list(vec![SizedValue::Address(1), SizedValue::Int64(2), SizedValue::Address(1)]);
    let function = UnsizedValue::Function(vec![OpCode::Add]);
    assert_eq!(string.as_string().unwrap(), "s");
    assert_eq!(string.as_list().err(), Some(mismatch(ValueKind::String)));
    assert_eq!(string.as_function().err(), Some(mismatch(ValueKind::String)));
    assert_eq!(list.as_list().unwrap().len(), 3);
    assert_eq!(list.as_string().err(), Some(mismatch(ValueKind::List)));
    assert_eq!(function.as_function().unwrap(), &vec![OpCode::Add]);
    assert_eq!(UnsizedValue::Empty.as_function().err(), Some(mismatch(ValueKind::Empty)));
    assert_eq!(UnsizedValue::Object(Fields::new()).kind(), ValueKind::Object);
    let mut found = list.references();
    found.dedup();
    assert_eq!(found, vec![1]);
    assert!(string.references().is_empty());
    match list.clone() {
        UnsizedValue::List(items, methods) => {
            assert_eq!(items.len(), 3);
            assert_eq!(
                methods.get(&"length".to_string()),
                Some(SizedValue::NativeCapability(Builtin::Length))
            );
            assert_eq!(
                methods.get(&"forEach".to_string()),
                Some(SizedValue::NativeCapability(Builtin::ForEach))
            );
            assert_eq!(methods.get(&"map".to_string()), None);
        }
        other => panic!("no list: {:?}", other),
    }
}

#[test]
fn the_heap_only_grows_at_its_end() {
    let mut heap = Heap::new();
    assert_eq!(heap.len(), 0);
    assert!(heap.pop().is_none());
    assert_eq!(heap.allocate(UnsizedValue::String("a".to_string())), 0);
    assert_eq!(heap.allocate(UnsizedValue::Empty), 1);
    heap.push(UnsizedValue::String("c".to_string()));
    assert_eq!(heap.len(), 3);
    assert_eq!(heap.get(2).unwrap().as_string().unwrap(), "c");
    assert_eq!(heap.get(3).err(), Some(VmError::IndexOutOfRange));
    assert_eq!(heap.get_mut(3).err(), Some(VmError::IndexOutOfRange));
    let old = heap.replace(0, UnsizedValue::String("z".to_string())).unwrap();
    assert_eq!(old.as_string().unwrap(), "a");
    assert_eq!(heap.get(0).unwrap().as_string().unwrap(), "z");
    assert_eq!(heap.replace(3, UnsizedValue::Empty).err(), Some(VmError::IndexOutOfRange));
    *heap.get_mut(1).unwrap() = UnsizedValue::String("b".to_string());
    assert_eq!(heap.get(1).unwrap().as_string().unwrap(), "b");
    assert_eq!(heap.pop().unwrap().as_string().unwrap(), "c");
    heap.truncate(5);
    assert_eq!(heap.len(), 2);
    heap.truncate(1);
    assert_eq!(heap.len(), 1);
    assert_eq!(heap.allocate(UnsizedValue::Empty), 1);
}

#[test]
fn the_stack_is_last_in_first_out() {
    let mut stack = Stack::new();
    assert_eq!(stack.pop(), Err(VmError::StackUnderflow));
    assert_eq!(stack.peek(0), Err(VmError::StackUnderflow));
    stack.push(SizedValue::Int64(1));
    stack.push(SizedValue::Int64(2));
    assert_eq!(stack.len(), 2);
    assert_eq!(stack.peek(0), Ok(SizedValue::Int64(2)));
    assert_eq!(stack.peek(1), Ok(SizedValue::Int64(1)));
    assert_eq!(stack.peek(2), Err(VmError::StackUnderflow));
    assert_eq!(stack.pop(), Ok(SizedValue::Int64(2)));
    assert_eq!(stack.pop(), Ok(SizedValue::Int64(1)));
    assert_eq!(stack.pop(), Err(VmError::StackUnderflow));
}

#[test]
fn the_store_has_a_fixed_number_of_slots() {
    let mut store = Store::new(3);
    assert_eq!(store.capacity(), 3);
    for slot in 0..3 {
        assert_eq!(store.get(slot), Ok(SizedValue::Null));
    }
    assert_eq!(store.get(3), Err(VmError::InvalidSlot));
    assert_eq!(store.set(3, SizedValue::Null), Err(VmError::InvalidSlot));
    let values = [
        SizedValue::Int64(i64::MIN),
        SizedValue::Float64(f64::NAN.to_bits()),
        SizedValue::Bool(true),
        SizedValue::Address(usize::MAX),
        SizedValue::NativeCapability(Builtin::ForEach),
        SizedValue::Null,
    ];
    for value in values {
        assert_eq!(store.set(1, value), Ok(()));
        assert_eq!(store.get(1), Ok(value));
        assert_eq!(store.get(0), Ok(SizedValue::Null));
        assert_eq!(store.capacity(), 3);
    }
    store.set(0, SizedValue::Address(2)).unwrap();
    store.set(2, SizedValue::Address(5)).unwrap();
    assert_eq!(store.addresses(), vec![2, 5]);
    assert_eq!(Store::new(0).get(0), Err(VmError::InvalidSlot));
}
