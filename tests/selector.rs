use kube_context::selector::{Operator, ParseError, Selector};

#[test]
fn test_from_string_valid_input() {
    let input = "key1=value1,key2==value2,key3!=value3";
    let expected_selector = Selector::from_requirements(vec![
        ("key1".to_string(), "value1".to_string(), Operator::Equals),
        ("key2".to_string(), "value2".to_string(), Operator::Equals),
        (
            "key3".to_string(),
            "value3".to_string(),
            Operator::NotEquals,
        ),
    ]);

    assert_eq!(Selector::from_string(input).unwrap(), expected_selector);
}

#[test]
fn test_from_string_invalid_operator() {
    let input = "key1=value1,key2<value2";

    assert!(Selector::from_string(input).is_err());
}

#[test]
fn test_from_string_invalid_key_value_pair() {
    let input = "key1=value1,key2";

    assert!(Selector::from_string(input).is_err());
}

#[test]
fn test_from_string_empty_input() {
    let input = "";
    let expected_selector = Selector::from_requirements(Vec::new());

    assert_eq!(Selector::from_string(input).unwrap(), expected_selector);
}

#[test]
fn test_iterator() {
    let input = "key1=value1,key2==value2,key3!=value3";
    let selector = Selector::from_string(input).unwrap();
    let mut iter = selector.iter();

    assert_eq!(
        iter.next(),
        Some(&("key1".to_string(), "value1".to_string(), Operator::Equals))
    );

    assert_eq!(
        iter.next(),
        Some(&("key2".to_string(), "value2".to_string(), Operator::Equals))
    );

    assert_eq!(
        iter.next(),
        Some(&(
            "key3".to_string(),
            "value3".to_string(),
            Operator::NotEquals
        ))
    );

    assert_eq!(iter.next(), None);
}

#[test]
fn precedence_not_equals_before_equals() {
    let selector = Selector::from_string("a!=b=c").unwrap();
    assert_eq!(
        selector.requirements(),
        &vec![("a".to_string(), "b=c".to_string(), Operator::NotEquals)]
    );
}

#[test]
fn double_equals_splits_once() {
    let selector = Selector::from_string("a==b==c").unwrap();
    assert_eq!(
        selector.requirements(),
        &vec![("a".to_string(), "b==c".to_string(), Operator::Equals)]
    );
}

#[test]
fn single_equals_splits_once_at_first() {
    let selector = Selector::from_string("a=b=c").unwrap();
    assert_eq!(
        selector.requirements(),
        &vec![("a".to_string(), "b=c".to_string(), Operator::Equals)]
    );
}

#[test]
fn unknown_operator_is_rejected() {
    assert_eq!(Selector::from_string("k<v"), Err(ParseError::InvalidOperator));
}

#[test]
fn missing_key_or_value_is_rejected() {
    assert_eq!(
        Selector::from_string("=v"),
        Err(ParseError::InvalidKeyValuePair)
    );
    assert_eq!(
        Selector::from_string("k!="),
        Err(ParseError::InvalidKeyValuePair)
    );
}

#[test]
fn trailing_comma_is_rejected() {
    assert_eq!(
        Selector::from_string("a=b,"),
        Err(ParseError::InvalidOperator)
    );
}

#[test]
fn first_failing_requirement_decides_the_error() {
    assert_eq!(
        Selector::from_string("a=b,=x,k<v"),
        Err(ParseError::InvalidKeyValuePair)
    );
}

#[test]
fn field_selector_keeps_leading_dot() {
    let selector = Selector::from_string(".metadata.name=A").unwrap();
    assert_eq!(
        selector.requirements(),
        &vec![(".metadata.name".to_string(), "A".to_string(), Operator::Equals)]
    );
}
