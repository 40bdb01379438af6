use stack_vm::fields::Fields;
use stack_vm::heap::UnsizedValue;
use stack_vm::opcodes::OpCode;
use stack_vm::text::{decimal_text, display, index_text, show, Piece};
use stack_vm::value::{Builtin, SizedValue};

fn text(s: &str) -> Piece {
    Piece::Text(s.to_string())
}

fn written(pieces: &[Piece]) -> String {
    let mut out = String::new();
    for piece in pieces {
        match piece {
            Piece::Text(text) => out.push_str(text),
            Piece::Float(bits) => out.push_str(&format!("{}", f64::from_bits(*bits))),
        }
    }
    out
}

#[test]
fn integers_are_shown_in_decimal() {
    for value in [0i64, 1, 9, 10, 11, 99, 100, 12345, -1, -10, -12345, i64::MAX, i64::MIN, i64::MIN + 1] {
        assert_eq!(decimal_text(value), format!("{}", value));
    }
    for value in [0usize, 7, 10, 1000, usize::MAX] {
        assert_eq!(index_text(value), format!("{}", value));
    }
}

#[test]
fn stack_values_are_shown_in_one_piece() {
    assert_eq!(show(&SizedValue::Int64(-42)), text("-42"));
    assert_eq!(show(&SizedValue::Float64(1.5f64.to_bits())), Piece::Float(1.5f64.to_bits()));
    assert_eq!(show(&SizedValue::Bool(true)), text("true"));
    assert_eq!(show(&SizedValue::Bool(false)), text("false"));
    assert_eq!(show(&SizedValue::Address(17)), text("17"));
    assert_eq!(show(&SizedValue::NativeCapability(Builtin::Length)), text("<function-ptr>"));
    assert_eq!(show(&SizedValue::Null), text("null"));
}

#[test]
fn heap_values_are_shown_piece_by_piece() {
    assert_eq!(display(&UnsizedValue::String("plain".to_string())), vec![text("plain")]);
    assert_eq!(display(&UnsizedValue::Function(vec![OpCode::Add])), vec![text("<function>")]);
    assert_eq!(display(&UnsizedValue::Empty), vec![text("<empty>")]);
    assert_eq!(display(&UnsizedValue::new_list(vec![])), vec![text("["), text("]")]);
    assert_eq!(
        display(&UnsizedValue::new_list(vec![SizedValue::Int64(1)])),
        vec![text("["), text("1"), text("]")]
    );
    let list = UnsizedValue::new_list(vec![
        SizedValue::Int64(1),
        SizedValue::Float64(2.5f64.to_bits()),
        SizedValue::Null,
    ]);
    assert_eq!(
        display(&list),
        vec![
            text("["),
            text("1"),
            text(", "),
            Piece::Float(2.5f64.to_bits()),
            text(", "),
            text("null"),
            text("]")
        ]
    );
    assert_eq!(written(&display(&list)), "[1, 2.5, null]");
}

#[test]
fn objects_are_shown_in_the_order_of_their_names() {
    assert_eq!(display(&UnsizedValue::Object(Fields::new())), vec![text("{"), text("}")]);
    let mut fields = Fields::new();
    fields.insert("foo".to_string(), SizedValue::Int64(42));
    fields.insert("bar".to_string(), SizedValue::Address(3));
    fields.insert("foo".to_string(), SizedValue::Bool(true));
    assert_eq!(fields.len(), 2);
    assert_eq!(fields.entry(1).map(|(name, value)| (name.clone(), value)), Some(("bar".to_string(), SizedValue::Address(3))));
    assert!(fields.entry(2).is_none());
    let object = UnsizedValue::Object(fields);
    assert_eq!(
        display(&object),
        vec![
            text("{"),
            text("foo"),
            text(": "),
            text("true"),
            text(", "),
            text("bar"),
            text(": "),
            text("3"),
            text("}")
        ]
    );
    assert_eq!(written(&display(&object)), "{foo: true, bar: 3}");
}
