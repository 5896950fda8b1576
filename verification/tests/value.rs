use qamydata::missing::MissingSignals;
use qamydata::value::{counted_value, AnyValue};

#[test]
fn empty_value_has_the_empty_key() {
    assert_eq!(AnyValue::Empty.canonical(), "");
}

#[test]
fn integer_key_is_its_decimal_text() {
    assert_eq!(AnyValue::Integer(42).canonical(), "42");
    assert_eq!(AnyValue::Integer(-7).canonical(), "-7");
    assert_eq!(AnyValue::Integer(0).canonical(), "0");
}

#[test]
fn text_and_real_keys_are_the_text_itself() {
    assert_eq!(AnyValue::Text("Leeds".to_string()).canonical(), "Leeds");
    assert_eq!(AnyValue::Real("21.5".to_string()).canonical(), "21.5");
}

#[test]
fn clone_keeps_the_value() {
    let values = vec![
        AnyValue::Empty,
        AnyValue::Integer(5),
        AnyValue::Real("5.25".to_string()),
        AnyValue::Text("five".to_string()),
    ];
    for value in values.iter() {
        assert_eq!(&value.clone(), value);
    }
}

fn signals(system: bool, tagged: bool, defined: bool) -> MissingSignals {
    MissingSignals {
        is_system_missing: system,
        is_tagged_missing: tagged,
        tag: 'a',
        is_defined_missing: defined,
    }
}

#[test]
fn a_system_missing_cell_counts_as_no_value() {
    let system = signals(true, false, false);
    assert_eq!(counted_value(AnyValue::Real("NaN".to_string()), &system), AnyValue::Empty);
    assert_eq!(counted_value(AnyValue::Integer(7), &system), AnyValue::Empty);
    assert_eq!(counted_value(AnyValue::Text("x".to_string()), &system), AnyValue::Empty);
    assert_eq!(counted_value(AnyValue::Empty, &system), AnyValue::Empty);
    assert_eq!(
        counted_value(AnyValue::Integer(7), &signals(true, true, true)),
        AnyValue::Empty
    );
}

#[test]
fn any_other_cell_counts_as_what_it_holds() {
    for s in [signals(false, false, false), signals(false, true, false), signals(false, false, true)] {
        assert_eq!(counted_value(AnyValue::Integer(7), &s), AnyValue::Integer(7));
        assert_eq!(
            counted_value(AnyValue::Real("1.5".to_string()), &s),
            AnyValue::Real("1.5".to_string())
        );
        assert_eq!(
            counted_value(AnyValue::Text("x".to_string()), &s),
            AnyValue::Text("x".to_string())
        );
        assert_eq!(counted_value(AnyValue::Empty, &s), AnyValue::Empty);
    }
}
