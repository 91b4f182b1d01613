use httpclient::{InMemoryBody, InMemoryError, SanitizePolicy};

fn json_number(n: u64) -> serde_json::Value {
    serde_json::Value::Number(serde_json::Number::from(n))
}

fn empty_object() -> serde_json::Value {
    serde_json::Value::Object(serde_json::Map::new())
}

#[test]
fn text_to_bytes_round_trip() {
    let original: Vec<u8> = "h\u{e9}llo w\u{f6}rld".as_bytes().to_vec();
    let decoded = String::from_utf8(original.clone()).unwrap();
    let body = InMemoryBody::Text(decoded);
    assert_eq!(body.bytes(), original);
}

#[test]
fn is_empty_per_variant() {
    assert!(InMemoryBody::Empty.is_empty());
    assert!(InMemoryBody::Bytes(vec![]).is_empty());
    assert!(InMemoryBody::Text(String::new()).is_empty());
    assert!(!InMemoryBody::Bytes(vec![1]).is_empty());
    assert!(!InMemoryBody::Text("a".to_string()).is_empty());
    assert!(!InMemoryBody::Json(empty_object()).is_empty());
    assert!(!InMemoryBody::Json(serde_json::Value::Null).is_empty());
}

#[test]
fn hash_distinguishes_variants_on_identical_content() {
    let text = InMemoryBody::Text("1".to_string());
    let bytes = InMemoryBody::Bytes("1".as_bytes().to_vec());
    assert_eq!(text.clone().bytes(), bytes.clone().bytes());
    assert_ne!(text.hash(), bytes.hash());
}

#[test]
fn hash_layout_is_tag_then_content() {
    assert_eq!(InMemoryBody::Empty.hash(), vec![0u8]);
    assert_eq!(InMemoryBody::Bytes(vec![9, 8]).hash(), vec![1u8, 9, 8]);
    assert_eq!(InMemoryBody::Text("hi".to_string()).hash(), vec![2u8, b'h', b'i']);
    let json_hash = InMemoryBody::Json(json_number(7)).hash();
    assert_eq!(json_hash, vec![3u8, b'7']);
}

#[test]
fn text_conversions() {
    assert_eq!(InMemoryBody::Empty.text().unwrap(), "");
    assert_eq!(InMemoryBody::Bytes(b"abc".to_vec()).text().unwrap(), "abc");
    assert_eq!(
        InMemoryBody::Bytes(vec![0xff, 0xfe]).text(),
        Err(InMemoryError::InvalidUtf8)
    );
    assert_eq!(InMemoryBody::Text("xyz".to_string()).text().unwrap(), "xyz");
    assert_eq!(InMemoryBody::Json(json_number(12)).text().unwrap(), "12");
    assert_eq!(InMemoryBody::Json(empty_object()).text().unwrap(), "{}");
}

#[test]
fn bytes_conversions() {
    assert_eq!(InMemoryBody::Empty.bytes(), Vec::<u8>::new());
    assert_eq!(InMemoryBody::Bytes(vec![1, 2]).bytes(), vec![1, 2]);
    assert_eq!(InMemoryBody::Text("ok".to_string()).bytes(), b"ok".to_vec());
    assert_eq!(InMemoryBody::Json(json_number(3)).bytes(), b"3".to_vec());
}

#[test]
fn json_conversions() {
    assert_eq!(InMemoryBody::Empty.json(), Err(InMemoryError::EmptyBody));
    assert_eq!(
        InMemoryBody::Text("not json".to_string()).json(),
        Err(InMemoryError::MalformedJson)
    );
    assert_eq!(
        InMemoryBody::Bytes(b"{".to_vec()).json(),
        Err(InMemoryError::MalformedJson)
    );
    assert_eq!(
        InMemoryBody::Text("{\"a\":1}".to_string()).json().unwrap(),
        serde_json::from_str::<serde_json::Value>("{\"a\":1}").unwrap()
    );
    assert_eq!(
        InMemoryBody::Bytes(b"[1,2]".to_vec()).json().unwrap(),
        serde_json::from_str::<serde_json::Value>("[1,2]").unwrap()
    );
    let v = json_number(42);
    assert_eq!(InMemoryBody::Json(v.clone()).json().unwrap(), v);
}

#[test]
fn constructors_and_default() {
    assert!(matches!(InMemoryBody::new_empty(), InMemoryBody::Empty));
    assert!(matches!(InMemoryBody::default(), InMemoryBody::Empty));
    assert!(matches!(InMemoryBody::new_bytes(vec![1]), InMemoryBody::Bytes(b) if b == vec![1]));
    assert!(matches!(InMemoryBody::new_text("t".to_string()), InMemoryBody::Text(s) if s == "t"));
    assert!(matches!(InMemoryBody::new_json(json_number(1)), InMemoryBody::Json(_)));
}

struct NullOut;

impl SanitizePolicy for NullOut {
    fn redact(&self, value: &mut serde_json::Value) {
        *value = serde_json::Value::Null;
    }
}

#[test]
fn sanitize_only_touches_structured_bodies() {
    let policy = NullOut;
    let mut text = InMemoryBody::Text("secret".to_string());
    text.sanitize(&policy);
    assert!(matches!(text, InMemoryBody::Text(s) if s == "secret"));
    let mut raw = InMemoryBody::Bytes(vec![1, 2]);
    raw.sanitize(&policy);
    assert!(matches!(raw, InMemoryBody::Bytes(b) if b == vec![1, 2]));
    let mut structured = InMemoryBody::Json(json_number(5));
    structured.sanitize(&policy);
    assert!(matches!(structured, InMemoryBody::Json(serde_json::Value::Null)));
}

#[test]
fn clone_preserves_content() {
    let body = InMemoryBody::Bytes(vec![1, 2, 3]);
    assert_eq!(body.clone().bytes(), body.bytes());
    let text = InMemoryBody::Text("abc".to_string());
    assert_eq!(text.clone().text().unwrap(), "abc");
}
