use rolang::error::{ErrorKind, Location};
use rolang::interpreter::built_in::{exit, print, printl, type_of};
use rolang::interpreter::value::Value;
use rolang::number::Number;

fn span() -> (Location<'static>, Location<'static>) {
    (
        Location { source: "test", line: 3, column: 1, offset: 20 },
        Location { source: "test", line: 3, column: 9, offset: 28 },
    )
}

fn number(text: &str) -> Value {
    Value::Number(Number::from_literal(text).unwrap())
}

#[test]
fn print_joins_with_spaces() {
    let args = vec![
        number("1.50"),
        Value::String("two".to_string()),
        Value::Bool(true),
        Value::Bool(false),
        Value::Null,
    ];
    assert_eq!(print(args), "1.50 two true false null");
    assert_eq!(print(vec![]), "");
    assert_eq!(print(vec![Value::String("alone".to_string())]), "alone");
}

#[test]
fn printl_ends_the_line() {
    assert_eq!(printl(vec![number("42"), Value::Null]), "42 null\n");
    assert_eq!(printl(vec![]), "\n");
}

#[test]
fn numbers_are_shown_as_written() {
    assert_eq!(print(vec![number("0.10")]), "0.10");
    assert_eq!(print(vec![number("007")]), "7");
    assert_eq!(print(vec![Value::Number(Number::new(-3141, 3).unwrap())]), "-3.141");
    assert_eq!(print(vec![Value::Number(Number::new(5, 3).unwrap())]), "0.005");
}

#[test]
fn functions_and_instances_are_shown_by_name() {
    assert_eq!(
        print(vec![Value::Function("f".to_string()), Value::Instance("Point".to_string())]),
        "<function f> <instance of Point>"
    );
}

#[test]
fn type_of_names_each_type() {
    let (start, end) = span();
    let cases = vec![
        (number("1"), "number"),
        (Value::String("s".to_string()), "string"),
        (Value::Bool(true), "bool"),
        (Value::Null, "null"),
        (Value::Function("f".to_string()), "function"),
        (Value::Instance("C".to_string()), "instance"),
    ];
    for (value, name) in cases {
        match type_of(vec![value], start, end) {
            Ok(Value::String(s)) => assert_eq!(s, name),
            other => panic!("unexpected result: {:?}", other),
        }
    }
}

#[test]
fn type_of_takes_one_argument() {
    let (start, end) = span();
    let e = type_of(vec![], start, end).unwrap_err();
    assert_eq!(e.kind, ErrorKind::TypeError);
    assert_eq!(e.message, "Function 'typeOf' takes 1 argument, however 0 were supplied");
    assert_eq!(e.start, start);
    assert_eq!(e.end, end);
    let e = type_of(vec![Value::Null, Value::Null], start, end).unwrap_err();
    assert_eq!(e.message, "Function 'typeOf' takes 1 argument, however 2 were supplied");
    let many: Vec<Value> = (0..120).map(|_| Value::Null).collect();
    let e = type_of(many, start, end).unwrap_err();
    assert_eq!(e.message, "Function 'typeOf' takes 1 argument, however 120 were supplied");
}

#[test]
fn exit_gives_the_code() {
    let (start, end) = span();
    assert_eq!(exit(vec![number("0")], start, end).unwrap(), 0);
    assert_eq!(exit(vec![number("3")], start, end).unwrap(), 3);
    assert_eq!(exit(vec![number("3.000")], start, end).unwrap(), 3);
    assert_eq!(exit(vec![Value::Number(Number::new(-7, 0).unwrap())], start, end).unwrap(), -7);
    assert_eq!(exit(vec![number("2147483647")], start, end).unwrap(), i32::MAX);
    assert_eq!(
        exit(vec![Value::Number(Number::new(-2147483648, 0).unwrap())], start, end).unwrap(),
        i32::MIN
    );
}

#[test]
fn exit_refuses_a_fraction() {
    let (start, end) = span();
    let e = exit(vec![number("1.5")], start, end).unwrap_err();
    assert_eq!(e.kind, ErrorKind::ValueError);
    assert_eq!(e.message, "Exit code has to be an integer");
    assert_eq!((e.start, e.end), (start, end));
    let e = exit(vec![number("0.001")], start, end).unwrap_err();
    assert_eq!(e.message, "Exit code has to be an integer");
}

#[test]
fn exit_refuses_what_no_i32_holds() {
    let (start, end) = span();
    let e = exit(vec![number("2147483648")], start, end).unwrap_err();
    assert_eq!(e.kind, ErrorKind::ValueError);
    assert_eq!(e.message, "Exit code is too high or too low");
    let e = exit(vec![Value::Number(Number::new(-2147483649, 0).unwrap())], start, end).unwrap_err();
    assert_eq!(e.message, "Exit code is too high or too low");
    let e = exit(vec![number("79228162514264337593543950335")], start, end).unwrap_err();
    assert_eq!(e.message, "Exit code is too high or too low");
}

#[test]
fn exit_wants_one_number() {
    let (start, end) = span();
    let e = exit(vec![], start, end).unwrap_err();
    assert_eq!(e.kind, ErrorKind::TypeError);
    assert_eq!(e.message, "Function 'exit' takes 1 argument, however 0 were supplied");
    let e = exit(vec![number("1"), number("2")], start, end).unwrap_err();
    assert_eq!(e.message, "Function 'exit' takes 1 argument, however 2 were supplied");
    let e = exit(vec![Value::String("1".to_string())], start, end).unwrap_err();
    assert_eq!(e.kind, ErrorKind::TypeError);
    assert_eq!(e.message, "First argument of function 'exit' has to be of type number");
}

#[test]
fn literals_become_exact_numbers() {
    let n = Number::from_literal("12.340").unwrap();
    assert_eq!((n.mantissa(), n.scale()), (12340, 3));
    let n = Number::from_literal("0").unwrap();
    assert_eq!((n.mantissa(), n.scale()), (0, 0));
    let n = Number::from_literal("00012").unwrap();
    assert_eq!((n.mantissa(), n.scale()), (12, 0));
    for bad in ["", ".", ".5", "5.", "1.2.3", "1a", "-1", "1 ", "1e5"] {
        assert!(Number::from_literal(bad).is_none(), "{:?}", bad);
    }
}

#[test]
fn numbers_within_the_limits() {
    assert!(Number::new(79228162514264337593543950335, 28).is_some());
    assert!(Number::new(-79228162514264337593543950335, 0).is_some());
    assert!(Number::new(79228162514264337593543950336, 0).is_none());
    assert!(Number::new(1, 29).is_none());
    assert!(Number::new(150, 2).unwrap().has_no_fraction() == false);
    assert!(Number::new(100, 2).unwrap().has_no_fraction());
    assert!(Number::new(0, 5).unwrap().has_no_fraction());
    assert!(Number::new(-300, 2).unwrap().has_no_fraction());
    assert!(!Number::new(-301, 2).unwrap().has_no_fraction());
}

#[test]
fn error_kinds_have_names() {
    let (start, end) = span();
    let e = exit(vec![], start, end).unwrap_err();
    assert_eq!(e.kind_name(), "TypeError");
    let e = exit(vec![number("0.5")], start, end).unwrap_err();
    assert_eq!(e.kind_name(), "ValueError");
}

#[test]
fn the_text_of_a_number() {
    let text = |mantissa: i128, scale: u32| {
        print(vec![Value::Number(Number::new(mantissa, scale).unwrap())])
    };
    assert_eq!(text(150, 2), "1.50");
    assert_eq!(text(0, 0), "0");
    assert_eq!(text(0, 2), "0.00");
    assert_eq!(text(7, 0), "7");
    assert_eq!(text(-7, 0), "-7");
    assert_eq!(text(-5, 3), "-0.005");
    assert_eq!(text(1234500, 4), "123.4500");
    assert_eq!(text(1, 28), "0.0000000000000000000000000001");
    assert_eq!(
        text(79228162514264337593543950335, 0),
        "79228162514264337593543950335"
    );
    assert_eq!(
        text(-79228162514264337593543950335, 28),
        "-7.9228162514264337593543950335"
    );
}

#[test]
fn zero_is_zero_at_any_scale() {
    assert!(Number::new(0, 0).unwrap().is_zero());
    assert!(Number::new(0, 7).unwrap().is_zero());
    assert!(!Number::new(1, 28).unwrap().is_zero());
    assert!(!Number::new(-1, 0).unwrap().is_zero());
}
