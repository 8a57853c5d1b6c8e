use tokio_lab::fields::{compare_bytes, ByteOrder, CustomLayer, FieldStorage, FieldValue};

fn names(storage: &FieldStorage) -> Vec<String> {
    storage.entries().iter().map(|(n, _)| n.clone()).collect()
}

#[test]
fn byte_order_of_strings() {
    assert_eq!(compare_bytes(b"abc", b"abd"), ByteOrder::Less);
    assert_eq!(compare_bytes(b"abd", b"abc"), ByteOrder::Greater);
    assert_eq!(compare_bytes(b"ab", b"abc"), ByteOrder::Less);
    assert_eq!(compare_bytes(b"abc", b"ab"), ByteOrder::Greater);
    assert_eq!(compare_bytes(b"", b""), ByteOrder::Equal);
    assert_eq!(compare_bytes(b"same", b"same"), ByteOrder::Equal);
    assert_eq!(compare_bytes(b"Z", b"a"), ByteOrder::Less);
}

#[test]
fn fields_are_listed_in_name_order() {
    let mut s = FieldStorage::new();
    s.record("message".to_string(), FieldValue::Text("hi".to_string()));
    s.record("answer".to_string(), FieldValue::Int(42));
    s.record("zeta".to_string(), FieldValue::Bool(true));
    s.record("beta".to_string(), FieldValue::UInt(7));
    assert_eq!(names(&s), vec!["answer", "beta", "message", "zeta"]);
}

#[test]
fn non_ascii_names_order_by_bytes() {
    let mut s = FieldStorage::new();
    s.record("é".to_string(), FieldValue::Int(1));
    s.record("z".to_string(), FieldValue::Int(2));
    s.record("Z".to_string(), FieldValue::Int(3));
    assert_eq!(names(&s), vec!["Z", "z", "é"]);
}

#[test]
fn last_recorded_value_wins() {
    let mut s = FieldStorage::new();
    s.record("a".to_string(), FieldValue::Int(1));
    s.record("b".to_string(), FieldValue::Int(2));
    s.record("a".to_string(), FieldValue::Int(3));
    assert_eq!(
        s.entries(),
        &vec![("a".to_string(), FieldValue::Int(3)), ("b".to_string(), FieldValue::Int(2))]
    );
}

#[test]
fn new_span_then_record_equals_one_batch() {
    let layer = CustomLayer;
    let first = vec![("x".to_string(), FieldValue::Int(1)), ("y".to_string(), FieldValue::Bool(false))];
    let second = vec![("y".to_string(), FieldValue::Bool(true)), ("w".to_string(), FieldValue::UInt(9))];
    let mut stored = layer.on_new_span(first);
    layer.on_record(&mut stored, second);
    let all = vec![
        ("x".to_string(), FieldValue::Int(1)),
        ("y".to_string(), FieldValue::Bool(false)),
        ("y".to_string(), FieldValue::Bool(true)),
        ("w".to_string(), FieldValue::UInt(9)),
    ];
    let once = layer.on_new_span(all);
    assert_eq!(stored.entries(), once.entries());
    assert_eq!(
        stored.entries(),
        &vec![
            ("w".to_string(), FieldValue::UInt(9)),
            ("x".to_string(), FieldValue::Int(1)),
            ("y".to_string(), FieldValue::Bool(true)),
        ]
    );
}

#[test]
fn event_record_keeps_metadata_and_fields() {
    let layer = CustomLayer;
    let rec = layer.on_event(
        "Level(Info)".to_string(),
        "app".to_string(),
        "event app.rs:10".to_string(),
        vec![
            ("message".to_string(), FieldValue::Text("hello".to_string())),
            ("pi".to_string(), FieldValue::Float(3.5f64.to_bits())),
        ],
    );
    assert_eq!(rec.level, "Level(Info)");
    assert_eq!(rec.target, "app");
    assert_eq!(rec.name, "event app.rs:10");
    assert_eq!(
        rec.fields.entries(),
        &vec![
            ("message".to_string(), FieldValue::Text("hello".to_string())),
            ("pi".to_string(), FieldValue::Float(3.5f64.to_bits())),
        ]
    );
}

#[test]
fn empty_event_has_no_fields() {
    let layer = CustomLayer;
    let rec = layer.on_event(String::new(), String::new(), String::new(), Vec::new());
    assert!(rec.fields.entries().is_empty());
}
