use user_entry::payload::{decode_create_user, encode_create_user, CreateUserPayload};

fn payload(name: &str, email: &str, role: u8) -> CreateUserPayload {
    CreateUserPayload { name: name.to_owned(), email: email.to_owned(), role }
}

#[test]
fn decodes_the_canonical_text() {
    let p = decode_create_user("{\"name\":\"a\",\"email\":\"a@b.com\",\"role\":1}").unwrap();
    assert_eq!(p, payload("a", "a@b.com", 1));
}

#[test]
fn decodes_with_whitespace_and_any_member_order() {
    let p = decode_create_user(
        " {\n\t\"role\" : 0 ,\r\n \"email\" : \"x@y.z\" , \"name\" : \"n\" } ",
    )
    .unwrap();
    assert_eq!(p, payload("n", "x@y.z", 0));
}

#[test]
fn decodes_escapes_in_strings() {
    let p = decode_create_user("{\"name\":\"a\\\"b\\\\c\",\"email\":\"e\",\"role\":9}").unwrap();
    assert_eq!(p.name, "a\"b\\c".to_owned());
}

#[test]
fn decodes_the_full_role_range() {
    let lo = decode_create_user("{\"name\":\"n\",\"email\":\"e\",\"role\":0}").unwrap();
    let hi = decode_create_user("{\"name\":\"n\",\"email\":\"e\",\"role\":255}").unwrap();
    assert_eq!(lo.role, 0);
    assert_eq!(hi.role, 255);
}

#[test]
fn malformed_inputs_are_rejected_without_panicking() {
    let bad = [
        "",
        "{}",
        "null",
        "{\"name\":\"a\",\"email\":\"e\"}",
        "{\"name\":\"a\",\"email\":\"e\",\"role\":1,\"x\":2}",
        "{\"name\":\"a\",\"name\":\"b\",\"role\":1}",
        "{\"name\":\"a\",\"email\":\"e\",\"role\":256}",
        "{\"name\":\"a\",\"email\":\"e\",\"role\":01}",
        "{\"name\":\"a\",\"email\":\"e\",\"role\":\"1\"}",
        "{\"name\":1,\"email\":\"e\",\"role\":1}",
        "{\"name\":\"a\",\"email\":\"e\",\"role\":1} x",
        "{\"name\":\"a\",\"email\":\"e\",\"role\":1",
        "{\"name\":\"a\\x\",\"email\":\"e\",\"role\":1}",
        "{\"name\":\"a\",\"email\":\"e\",\"role\":-1}",
    ];
    for s in bad {
        assert!(decode_create_user(s).is_none(), "accepted: {s}");
    }
}

#[test]
fn encoding_is_canonical() {
    let text = encode_create_user(&payload("a", "a@b.com", 1));
    assert_eq!(text, "{\"name\":\"a\",\"email\":\"a@b.com\",\"role\":1}".to_owned());
}

#[test]
fn round_trip_restores_the_payload() {
    let cases = [
        payload("a", "a@b.com", 1),
        payload("", "", 0),
        payload("quo\"te", "back\\slash", 255),
        payload("mixed \\\" twice", "e@x", 42),
    ];
    for p in cases {
        let text = encode_create_user(&p);
        assert_eq!(decode_create_user(&text), Some(p));
    }
}

#[test]
fn encoding_agrees_with_a_json_reader() {
    let p = payload("quo\"te", "a@b.com", 7);
    let text = encode_create_user(&p);
    let v: serde_json::Value = serde_json::from_str(&text).unwrap();
    assert_eq!(v["name"].as_str().unwrap(), "quo\"te");
    assert_eq!(v["email"].as_str().unwrap(), "a@b.com");
    assert_eq!(v["role"].as_u64().unwrap(), 7);
}

#[test]
fn decoding_accepts_a_json_writer() {
    let mut m = serde_json::Map::new();
    m.insert("name".to_owned(), serde_json::Value::String("n \"q\"".to_owned()));
    m.insert("email".to_owned(), serde_json::Value::String("e@x".to_owned()));
    m.insert("role".to_owned(), serde_json::Value::Number(3u8.into()));
    let text = serde_json::Value::Object(m).to_string();
    let p = decode_create_user(&text).unwrap();
    assert_eq!(p, payload("n \"q\"", "e@x", 3));
}
