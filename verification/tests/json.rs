use toplingdb_plugin::json::{parse_bytes, parse_text, print_bytes, InvalidJson, Json};

fn sample() -> Json {
    Json::Object(vec![
        ("a".to_string(), Json::Array(vec![Json::Number(Some(1)), Json::Number(Some(u64::MAX))])),
        ("b".to_string(), Json::Bool(true)),
        ("c".to_string(), Json::Number(Some(0))),
    ])
}

#[test]
fn documents_are_read_variant_by_variant() {
    let text = r#"{"z": null, "a": [1, -1, 1.5, 18446744073709551615, 18446744073709551616],
        "t": "x\"y", "o": {"k": false}}"#;
    let expected = Json::Object(vec![
        (
            "a".to_string(),
            Json::Array(vec![
                Json::Number(Some(1)),
                Json::Number(None),
                Json::Number(None),
                Json::Number(Some(u64::MAX)),
                Json::Number(None),
            ]),
        ),
        ("o".to_string(), Json::Object(vec![("k".to_string(), Json::Bool(false))])),
        ("t".to_string(), Json::Text("x\"y".to_string())),
        ("z".to_string(), Json::Null),
    ]);
    assert_eq!(parse_text(text).as_ref(), Ok(&expected));
    assert_eq!(parse_bytes(text.as_bytes()).as_ref(), Ok(&expected));
}

#[test]
fn what_is_no_document_is_refused() {
    assert_eq!(parse_text("{"), Err(InvalidJson));
    assert_eq!(parse_bytes(b"{} {}"), Err(InvalidJson));
    assert_eq!(parse_bytes(&[b'"', 0xff, b'"']), Err(InvalidJson));
}

#[test]
fn what_is_printed_is_read_back() {
    let bytes = print_bytes(&sample());
    assert_eq!(bytes, br#"{"a":[1,18446744073709551615],"b":true,"c":0}"#.to_vec());
    assert_eq!(parse_bytes(&bytes), Ok(sample()));
    assert_eq!(parse_text(&String::from_utf8(bytes).unwrap()), Ok(sample()));
}

#[test]
fn awkward_names_are_printed_and_read_back() {
    let document = Json::Object(vec![("\u{1}\"\\\u{20ac}".to_string(), Json::Number(Some(7)))]);
    assert_eq!(parse_bytes(&print_bytes(&document)), Ok(document));
}

#[test]
fn texts_and_nested_values_are_printed() {
    let document = Json::Array(vec![Json::Null, Json::Text("x\"".to_string()), sample()]);
    assert_eq!(
        print_bytes(&document),
        br#"[null,"x\"",{"a":[1,18446744073709551615],"b":true,"c":0}]"#.to_vec(),
    );
}

#[test]
fn of_two_fields_with_one_name_the_later_counts() {
    let document = Json::Object(vec![
        ("a".to_string(), Json::Number(Some(1))),
        ("b".to_string(), Json::Null),
        ("a".to_string(), Json::Number(Some(2))),
    ]);
    assert_eq!(document.get("a"), Some(&Json::Number(Some(2))));
    assert_eq!(document.get("b"), Some(&Json::Null));
    assert_eq!(document.get("c"), None);
    assert_eq!(print_bytes(&document), br#"{"a":2,"b":null}"#.to_vec());
}

#[test]
fn values_are_taken_for_what_they_are() {
    assert_eq!(Json::Number(Some(3)).as_u64(), Some(3));
    assert_eq!(Json::Number(None).as_u64(), None);
    assert_eq!(Json::Text("3".to_string()).as_u64(), None);
    assert_eq!(Json::Bool(false).as_bool(), Some(false));
    assert_eq!(Json::Number(Some(0)).as_bool(), None);
    assert_eq!(Json::Array(vec![Json::Null]).as_array(), Some(&vec![Json::Null]));
    assert_eq!(Json::Object(vec![]).as_array(), None);
    assert_eq!(Json::Array(vec![]).get("a"), None);
}
