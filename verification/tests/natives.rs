use stack_vm::error::{ValueKind, VmError};
use stack_vm::fields::Fields;
use stack_vm::heap::UnsizedValue;
use stack_vm::opcodes::{OpCode, OpKind};
use stack_vm::value::{Builtin, SizedValue};
use stack_vm::vm::{Diagnostic, Status, Vm};

fn machine_with(values: Vec<UnsizedValue>, stack: Vec<SizedValue>) -> Vm {
    let mut vm = Vm::new(2);
    for value in values {
        vm.heap.allocate(value);
    }
    for value in stack {
        vm.stack.push(value);
    }
    vm
}

fn run_on(vm: &mut Vm, program: Vec<OpCode>) -> Status {
    vm.run(&UnsizedValue::Function(program), 10_000, 0).unwrap()
}

fn fault(vm: &mut Vm, program: Vec<OpCode>) -> Diagnostic {
    match run_on(vm, program) {
        Status::Fault(diagnostic) => diagnostic,
        other => panic!("no fault: {:?}", other),
    }
}

fn list(items: Vec<SizedValue>) -> UnsizedValue {
    UnsizedValue::new_list(items)
}

#[test]
fn list_access_pushes_the_element() {
    let items = vec![SizedValue::Int64(10), SizedValue::Bool(true), SizedValue::Null];
    for (index, expected) in items.iter().enumerate() {
        let mut vm = machine_with(vec![list(items.clone())], vec![SizedValue::Address(0)]);
        assert_eq!(run_on(&mut vm, vec![OpCode::PushInt(index as i64), OpCode::ListAccess]), Status::Halted);
        assert_eq!(vm.stack.values, vec![*expected]);
    }
}

#[test]
fn list_access_out_of_bounds_is_out_of_range() {
    for index in [3i64, -1, i64::MAX, i64::MIN] {
        let mut vm = machine_with(
            vec![list(vec![SizedValue::Int64(1), SizedValue::Int64(2), SizedValue::Int64(3)])],
            vec![SizedValue::Address(0)],
        );
        let diagnostic = fault(&mut vm, vec![OpCode::PushInt(index), OpCode::ListAccess]);
        assert_eq!(
            diagnostic,
            Diagnostic {
                error: VmError::IndexOutOfRange,
                opcode: OpKind::ListAccess,
                pc: 1,
                offending: Some(ValueKind::Int64)
            }
        );
        assert_eq!(vm.stack.values, vec![SizedValue::Address(0), SizedValue::Int64(index)]);
    }
}

#[test]
fn list_access_checks_its_operands() {
    let mut vm = machine_with(vec![list(vec![])], vec![SizedValue::Address(0)]);
    let diagnostic = fault(&mut vm, vec![OpCode::PushBool(true), OpCode::ListAccess]);
    assert_eq!((diagnostic.error, diagnostic.offending), (VmError::TypeMismatch, Some(ValueKind::Bool)));
    let mut vm = machine_with(vec![list(vec![])], vec![SizedValue::Null]);
    let diagnostic = fault(&mut vm, vec![OpCode::PushInt(0), OpCode::ListAccess]);
    assert_eq!((diagnostic.error, diagnostic.offending), (VmError::TypeMismatch, Some(ValueKind::Null)));
    let mut vm = machine_with(vec![list(vec![])], vec![SizedValue::Address(1)]);
    let diagnostic = fault(&mut vm, vec![OpCode::PushInt(0), OpCode::ListAccess]);
    assert_eq!(
        (diagnostic.error, diagnostic.offending),
        (VmError::IndexOutOfRange, Some(ValueKind::Address))
    );
    let mut vm = machine_with(vec![UnsizedValue::Object(Fields::new())], vec![SizedValue::Address(0)]);
    let diagnostic = fault(&mut vm, vec![OpCode::PushInt(0), OpCode::ListAccess]);
    assert_eq!((diagnostic.error, diagnostic.offending), (VmError::TypeMismatch, Some(ValueKind::Object)));
    let mut vm = machine_with(vec![], vec![]);
    assert_eq!(fault(&mut vm, vec![OpCode::PushInt(0), OpCode::ListAccess]).error, VmError::StackUnderflow);
}

#[test]
fn property_load_pushes_the_builtin_method() {
    let mut vm = machine_with(vec![], vec![]);
    let status = run_on(
        &mut vm,
        vec![OpCode::PushList, OpCode::PushString("length".to_string()), OpCode::PropertyLoad],
    );
    assert_eq!(status, Status::Halted);
    assert_eq!(vm.stack.values, vec![SizedValue::NativeCapability(Builtin::Length)]);
    let mut vm = machine_with(vec![], vec![]);
    run_on(&mut vm, vec![OpCode::PushList, OpCode::PushString("forEach".to_string()), OpCode::PropertyLoad]);
    assert_eq!(vm.stack.values, vec![SizedValue::NativeCapability(Builtin::ForEach)]);
}

#[test]
fn property_load_of_an_absent_name_is_an_unknown_property() {
    let mut vm = machine_with(vec![], vec![]);
    let diagnostic = fault(
        &mut vm,
        vec![OpCode::PushList, OpCode::PushString("size".to_string()), OpCode::PropertyLoad],
    );
    assert_eq!(
        diagnostic,
        Diagnostic {
            error: VmError::UnknownProperty,
            opcode: OpKind::PropertyLoad,
            pc: 2,
            offending: Some(ValueKind::List)
        }
    );
    assert_eq!(vm.stack.values, vec![SizedValue::Address(0), SizedValue::Address(1)]);
    // Only lists carry builtin methods.
    for push in [OpCode::PushObject, OpCode::PushString("text".to_string()), OpCode::Function(vec![])] {
        let mut vm = machine_with(vec![], vec![]);
        let diagnostic =
            fault(&mut vm, vec![push, OpCode::PushString("length".to_string()), OpCode::PropertyLoad]);
        assert_eq!(diagnostic.error, VmError::UnknownProperty);
    }
    // A list without a method table has no methods.
    let mut vm = machine_with(
        vec![UnsizedValue::List(vec![], Fields::new()), UnsizedValue::String("length".to_string())],
        vec![SizedValue::Address(0), SizedValue::Address(1)],
    );
    assert_eq!(fault(&mut vm, vec![OpCode::PropertyLoad]).error, VmError::UnknownProperty);
}

#[test]
fn property_load_checks_its_operands() {
    let mut vm = machine_with(vec![list(vec![])], vec![SizedValue::Address(0), SizedValue::Int64(1)]);
    let diagnostic = fault(&mut vm, vec![OpCode::PropertyLoad]);
    assert_eq!((diagnostic.error, diagnostic.offending), (VmError::TypeMismatch, Some(ValueKind::Int64)));
    let mut vm = machine_with(vec![list(vec![])], vec![SizedValue::Address(0), SizedValue::Address(0)]);
    let diagnostic = fault(&mut vm, vec![OpCode::PropertyLoad]);
    assert_eq!((diagnostic.error, diagnostic.offending), (VmError::TypeMismatch, Some(ValueKind::List)));
    let mut vm = machine_with(
        vec![UnsizedValue::String("length".to_string())],
        vec![SizedValue::Bool(true), SizedValue::Address(0)],
    );
    let diagnostic = fault(&mut vm, vec![OpCode::PropertyLoad]);
    assert_eq!((diagnostic.error, diagnostic.offending), (VmError::TypeMismatch, Some(ValueKind::Bool)));
    let mut vm = machine_with(
        vec![UnsizedValue::String("length".to_string())],
        vec![SizedValue::Address(7), SizedValue::Address(0)],
    );
    let diagnostic = fault(&mut vm, vec![OpCode::PropertyLoad]);
    assert_eq!(
        (diagnostic.error, diagnostic.offending),
        (VmError::IndexOutOfRange, Some(ValueKind::Address))
    );
    let mut vm = machine_with(vec![], vec![SizedValue::Address(0)]);
    assert_eq!(fault(&mut vm, vec![OpCode::PropertyLoad]).error, VmError::StackUnderflow);
}

#[test]
fn length_is_the_number_of_elements_or_bytes() {
    let mut vm = machine_with(
        vec![list(vec![SizedValue::Null, SizedValue::Null, SizedValue::Null])],
        vec![SizedValue::Address(0), SizedValue::NativeCapability(Builtin::Length)],
    );
    assert_eq!(run_on(&mut vm, vec![OpCode::Call]), Status::Halted);
    assert_eq!(vm.stack.values, vec![SizedValue::Int64(3)]);
    let mut vm = machine_with(
        vec![UnsizedValue::String("h\u{e9}llo".to_string())],
        vec![SizedValue::Address(0), SizedValue::NativeCapability(Builtin::Length)],
    );
    assert_eq!(run_on(&mut vm, vec![OpCode::Call]), Status::Halted);
    assert_eq!(vm.stack.values, vec![SizedValue::Int64(6)]);
}

#[test]
fn length_through_a_property_of_the_list() {
    let mut vm = machine_with(vec![list(vec![SizedValue::Int64(5), SizedValue::Int64(6)])], vec![]);
    vm.store.set(0, SizedValue::Address(0)).unwrap();
    let status = run_on(
        &mut vm,
        vec![
            OpCode::Load(0),
            OpCode::Load(0),
            OpCode::PushString("length".to_string()),
            OpCode::PropertyLoad,
            OpCode::Call,
        ],
    );
    assert_eq!(status, Status::Halted);
    assert_eq!(vm.stack.values, vec![SizedValue::Int64(2)]);
}

#[test]
fn length_checks_its_argument() {
    let mut vm = machine_with(vec![], vec![SizedValue::NativeCapability(Builtin::Length)]);
    let diagnostic = fault(&mut vm, vec![OpCode::Call]);
    assert_eq!(
        diagnostic,
        Diagnostic { error: VmError::StackUnderflow, opcode: OpKind::Call, pc: 0, offending: None }
    );
    assert_eq!(vm.stack.values, vec![SizedValue::NativeCapability(Builtin::Length)]);
    let mut vm = machine_with(vec![], vec![SizedValue::Int64(1), SizedValue::NativeCapability(Builtin::Length)]);
    let diagnostic = fault(&mut vm, vec![OpCode::Call]);
    assert_eq!((diagnostic.error, diagnostic.offending), (VmError::TypeMismatch, Some(ValueKind::Int64)));
    let mut vm = machine_with(
        vec![UnsizedValue::Object(Fields::new())],
        vec![SizedValue::Address(0), SizedValue::NativeCapability(Builtin::Length)],
    );
    let diagnostic = fault(&mut vm, vec![OpCode::Call]);
    assert_eq!((diagnostic.error, diagnostic.offending), (VmError::TypeMismatch, Some(ValueKind::Object)));
    let mut vm =
        machine_with(vec![], vec![SizedValue::Address(0), SizedValue::NativeCapability(Builtin::Length)]);
    let diagnostic = fault(&mut vm, vec![OpCode::Call]);
    assert_eq!(
        (diagnostic.error, diagnostic.offending),
        (VmError::IndexOutOfRange, Some(ValueKind::Address))
    );
}

#[test]
fn for_each_calls_the_function_for_every_element() {
    // The function adds the element to slot 0.
    let add = UnsizedValue::Function(vec![OpCode::Load(0), OpCode::Add, OpCode::Store(0)]);
    let mut vm = machine_with(
        vec![list(vec![SizedValue::Int64(1), SizedValue::Int64(2), SizedValue::Int64(3)]), add],
        vec![
            SizedValue::Address(1),
            SizedValue::Address(0),
            SizedValue::NativeCapability(Builtin::ForEach),
        ],
    );
    vm.store.set(0, SizedValue::Int64(0)).unwrap();
    assert_eq!(run_on(&mut vm, vec![OpCode::Call, OpCode::Load(0)]), Status::Halted);
    assert_eq!(vm.stack.values, vec![SizedValue::Int64(6)]);
}

#[test]
fn for_each_sees_the_elements_in_order() {
    // The function keeps the last element in slot 0 and counts in slot 1.
    let keep = UnsizedValue::Function(vec![
        OpCode::Store(0),
        OpCode::Load(1),
        OpCode::PushInt(1),
        OpCode::Add,
        OpCode::Store(1),
    ]);
    let mut vm = machine_with(
        vec![list(vec![SizedValue::Int64(7), SizedValue::Bool(false), SizedValue::Int64(9)]), keep],
        vec![
            SizedValue::Address(1),
            SizedValue::Address(0),
            SizedValue::NativeCapability(Builtin::ForEach),
        ],
    );
    vm.store.set(1, SizedValue::Int64(0)).unwrap();
    assert_eq!(run_on(&mut vm, vec![OpCode::Call]), Status::Halted);
    assert_eq!(vm.store.get(0), Ok(SizedValue::Int64(9)));
    assert_eq!(vm.store.get(1), Ok(SizedValue::Int64(3)));
    assert!(vm.stack.values.is_empty());
}

#[test]
fn for_each_on_an_empty_list_calls_nothing() {
    let mut vm = machine_with(
        vec![list(vec![])],
        vec![SizedValue::Int64(5), SizedValue::Address(0), SizedValue::NativeCapability(Builtin::ForEach)],
    );
    assert_eq!(run_on(&mut vm, vec![OpCode::Call, OpCode::PushInt(1)]), Status::Halted);
    assert_eq!(vm.stack.values, vec![SizedValue::Int64(1)]);
}

#[test]
fn for_each_faults_where_its_callee_is_no_function() {
    let mut vm = machine_with(
        vec![list(vec![SizedValue::Int64(1)])],
        vec![SizedValue::Int64(5), SizedValue::Address(0), SizedValue::NativeCapability(Builtin::ForEach)],
    );
    let diagnostic = fault(&mut vm, vec![OpCode::PushInt(0), OpCode::Neg, OpCode::Store(0), OpCode::Call]);
    assert_eq!(
        diagnostic,
        Diagnostic {
            error: VmError::TypeMismatch,
            opcode: OpKind::Call,
            pc: 3,
            offending: Some(ValueKind::Int64)
        }
    );
    assert!(vm.stack.values.is_empty());
    let mut vm = machine_with(
        vec![list(vec![SizedValue::Int64(1)])],
        vec![SizedValue::Address(0), SizedValue::Address(0), SizedValue::NativeCapability(Builtin::ForEach)],
    );
    let diagnostic = fault(&mut vm, vec![OpCode::Call]);
    assert_eq!((diagnostic.error, diagnostic.offending), (VmError::TypeMismatch, Some(ValueKind::List)));
}

#[test]
fn for_each_checks_its_arguments() {
    let mut vm = machine_with(vec![], vec![SizedValue::NativeCapability(Builtin::ForEach)]);
    assert_eq!(fault(&mut vm, vec![OpCode::Call]).error, VmError::StackUnderflow);
    let mut vm = machine_with(
        vec![list(vec![])],
        vec![SizedValue::Address(0), SizedValue::NativeCapability(Builtin::ForEach)],
    );
    assert_eq!(fault(&mut vm, vec![OpCode::Call]).error, VmError::StackUnderflow);
    assert_eq!(vm.stack.len(), 2);
    let mut vm = machine_with(
        vec![],
        vec![SizedValue::Null, SizedValue::Bool(true), SizedValue::NativeCapability(Builtin::ForEach)],
    );
    let diagnostic = fault(&mut vm, vec![OpCode::Call]);
    assert_eq!((diagnostic.error, diagnostic.offending), (VmError::TypeMismatch, Some(ValueKind::Bool)));
    let mut vm = machine_with(
        vec![UnsizedValue::String("no list".to_string())],
        vec![SizedValue::Null, SizedValue::Address(0), SizedValue::NativeCapability(Builtin::ForEach)],
    );
    let diagnostic = fault(&mut vm, vec![OpCode::Call]);
    assert_eq!((diagnostic.error, diagnostic.offending), (VmError::TypeMismatch, Some(ValueKind::String)));
    assert_eq!(vm.stack.len(), 3);
}

#[test]
fn a_function_may_call_itself() {
    // Counts slot 0 down to zero by calling itself through slot 1.
    let body = vec![
        OpCode::Load(0),
        OpCode::PushInt(0),
        OpCode::Gt,
        OpCode::JumpIfFalse(6),
        OpCode::Load(0),
        OpCode::PushInt(1),
        OpCode::Sub,
        OpCode::Store(0),
        OpCode::Load(1),
        OpCode::Call,
    ];
    let mut vm = machine_with(vec![UnsizedValue::Function(body)], vec![]);
    vm.store.set(0, SizedValue::Int64(50)).unwrap();
    vm.store.set(1, SizedValue::Address(0)).unwrap();
    assert_eq!(run_on(&mut vm, vec![OpCode::Load(1), OpCode::Call]), Status::Halted);
    assert_eq!(vm.store.get(0), Ok(SizedValue::Int64(0)));
    assert!(vm.stack.values.is_empty());
}

#[test]
fn natives_take_and_give_what_they_declare() {
    assert_eq!((Builtin::Length.arguments(), Builtin::Length.results()), (1, 1));
    assert_eq!((Builtin::ForEach.arguments(), Builtin::ForEach.results()), (2, 0));
    let mut vm = machine_with(
        vec![list(vec![])],
        vec![
            SizedValue::Int64(9),
            SizedValue::Null,
            SizedValue::Address(0),
            SizedValue::NativeCapability(Builtin::ForEach),
        ],
    );
    assert_eq!(run_on(&mut vm, vec![OpCode::Call]), Status::Halted);
    assert_eq!(vm.stack.values, vec![SizedValue::Int64(9)]);
    let mut vm = machine_with(
        vec![list(vec![])],
        vec![SizedValue::Int64(9), SizedValue::Address(0), SizedValue::NativeCapability(Builtin::Length)],
    );
    assert_eq!(run_on(&mut vm, vec![OpCode::Call]), Status::Halted);
    assert_eq!(vm.stack.values, vec![SizedValue::Int64(9), SizedValue::Int64(0)]);
}
