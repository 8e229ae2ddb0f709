use expects::{
    check_codec_depth, display_value, Datum, DefaultSerializer, JsonSerializer, Serializer,
    SerializerExtensions, YamlSerializer,
};

fn sample() -> Datum {
    Datum::Record(vec![
        ("string".to_owned(), Datum::Text("Hello, world!".to_owned())),
        ("integer".to_owned(), Datum::Int(1)),
        ("bool".to_owned(), Datum::Bool(true)),
        ("none".to_owned(), Datum::Null),
        (
            "vec".to_owned(),
            Datum::List(vec![Datum::Int(11), Datum::Int(2), Datum::Int(3)]),
        ),
        (
            "map".to_owned(),
            Datum::Record(vec![
                ("b".to_owned(), Datum::Int(1)),
                ("a".to_owned(), Datum::Int(2)),
            ]),
        ),
    ])
}

#[test]
fn extensions() {
    assert_eq!(JsonSerializer.get_extension(), "json".to_owned());
    assert_eq!(YamlSerializer.get_extension(), "yaml".to_owned());
    assert_eq!(DefaultSerializer::get().get_extension(), "json".to_owned());
}

#[test]
fn json_round_trip() {
    let serializer = JsonSerializer;
    let value = sample();
    let text = serializer.serialize(&value);
    let back = serializer.deserialize(&text).expect("Should decode");
    assert_eq!(back, value);
}

#[test]
fn yaml_round_trip() {
    let serializer = YamlSerializer;
    let value = sample();
    let text = serializer.serialize(&value);
    let back = serializer.deserialize(&text).expect("Should decode");
    assert_eq!(back, value);
}

#[test]
fn json_exact_encoding() {
    let serializer = JsonSerializer;
    let value = Datum::Record(vec![("n".to_owned(), Datum::Int(1))]);
    assert_eq!(serializer.serialize(&value), "{\n  \"n\": 1\n}".to_owned());
    assert_eq!(
        serializer.serialize(&Datum::List(vec![Datum::Bool(false), Datum::Null])),
        "[\n  false,\n  null\n]".to_owned()
    );
}

#[test]
fn yaml_exact_encoding() {
    let serializer = YamlSerializer;
    let value = Datum::Record(vec![("n".to_owned(), Datum::Int(1))]);
    assert_eq!(serializer.serialize(&value), "n: 1\n".to_owned());
}

#[test]
fn json_key_order_is_preserved() {
    let serializer = JsonSerializer;
    let value = Datum::Record(vec![
        ("b".to_owned(), Datum::Int(1)),
        ("a".to_owned(), Datum::Int(2)),
    ]);
    let text = serializer.serialize(&value);
    assert!(text.find("\"b\"").unwrap() < text.find("\"a\"").unwrap());
    assert_eq!(serializer.deserialize(&text).unwrap(), value);
}

#[test]
fn malformed_input_is_refused() {
    assert!(JsonSerializer.deserialize("{ not json").is_err());
    assert!(YamlSerializer.deserialize(": : :").is_err());
}

#[test]
fn display_uses_the_default_codec() {
    let value = Datum::Record(vec![("n".to_owned(), Datum::Int(1))]);
    assert_eq!(display_value(&value), "{\n  \"n\": 1\n}".to_owned());
}

#[test]
fn int_bounds_round_trip() {
    let serializer = JsonSerializer;
    let value = Datum::List(vec![Datum::Int(i64::MIN), Datum::Int(i64::MAX)]);
    let text = serializer.serialize(&value);
    assert_eq!(serializer.deserialize(&text).unwrap(), value);
}

#[test]
fn duplicate_keys_are_not_wf() {
    let duplicated = Datum::Record(vec![
        ("k".to_owned(), Datum::Int(1)),
        ("k".to_owned(), Datum::Int(2)),
    ]);
    assert!(!duplicated.is_wf());
    assert!(sample().is_wf());
    // The codec collapses the repeated key, so such a value cannot survive a
    // round trip; well-formed values do.
    let text = JsonSerializer.serialize(&duplicated);
    let back = JsonSerializer.deserialize(&text).expect("Should decode");
    assert_ne!(back, duplicated);
}

fn nested_lists(depth: usize) -> Datum {
    let mut value = Datum::Int(1);
    for _ in 0..depth {
        value = Datum::List(vec![value]);
    }
    value
}

#[test]
fn deep_nesting_round_trips_within_the_limit() {
    // 127 nested containers is within both parsers' recursion limits.
    let value = nested_lists(127);
    let text = JsonSerializer.serialize(&value);
    assert_eq!(JsonSerializer.deserialize(&text).expect("Should decode"), value);
    let text = YamlSerializer.serialize(&value);
    assert_eq!(YamlSerializer.deserialize(&text).expect("Should decode"), value);
}

#[test]
fn deep_nesting_beyond_the_limit_is_refused() {
    // Serialization has no depth limit, but parsing does: a value nested
    // past it encodes and then fails to decode.
    let value = nested_lists(200);
    let text = JsonSerializer.serialize(&value);
    assert!(!text.is_empty());
    assert!(JsonSerializer.deserialize(&text).is_err());
    let text = YamlSerializer.serialize(&value);
    assert!(!text.is_empty());
    assert!(YamlSerializer.deserialize(&text).is_err());
}

#[test]
fn depth_check_matches_the_limit() {
    assert!(check_codec_depth(&nested_lists(127)));
    assert!(!check_codec_depth(&nested_lists(128)));
    assert!(check_codec_depth(&sample()));
    assert!(sample().depth_within(2));
    assert!(!sample().depth_within(1));
}
