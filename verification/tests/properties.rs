use hijacker2::properties::{Properties, Property};

fn props(entries: &[(&str, &str)]) -> Properties {
    Properties { entries: entries.iter().map(|(k, v)| Property::new(k, v)).collect() }
}

fn parse(text: &str) -> Option<u32> {
    match props(&[("n", text)]).parse("n") {
        Some(Ok(n)) => Some(n),
        _ => None,
    }
}

#[test]
fn first_property_with_key_counts() {
    let p = props(&[("b", "0"), ("a", "1"), ("a", "2")]);
    assert_eq!(p.get("a").unwrap(), "1");
    assert_eq!(p.get("b").unwrap(), "0");
    assert!(p.get("c").is_none());
    assert!(props(&[]).get("a").is_none());
}

#[test]
fn keys_are_compared_whole() {
    let p = props(&[("node.id", "7")]);
    assert!(p.get("node").is_none());
    assert!(p.get("node.id.x").is_none());
    assert!(p.get("Node.id").is_none());
}

#[test]
fn numbers_are_parsed() {
    assert_eq!(parse("42"), Some(42));
    assert_eq!(parse("+42"), Some(42));
    assert_eq!(parse("0"), Some(0));
    assert_eq!(parse("007"), Some(7));
    assert_eq!(parse("4294967295"), Some(4294967295));
}

#[test]
fn other_texts_are_no_numbers() {
    for text in ["", "+", "-", "-1", "++1", "1+", " 7", "7 ", "1_000", "0x10", "4294967296", "\u{664}"] {
        assert_eq!(parse(text), None, "{text:?}");
    }
}

#[test]
fn missing_number_differs_from_bad_number() {
    assert!(props(&[]).parse("n").is_none());
    match props(&[("n", "seven")]).parse("n") {
        Some(Err(error)) => assert_eq!(error.value, "seven"),
        _ => panic!("expected an error"),
    }
}
