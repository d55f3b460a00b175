use gearbox::json::Json;

fn json(text: &str) -> Json {
    Json::parse(text.as_bytes()).unwrap()
}

#[test]
fn reads_every_kind_of_value() {
    let document = json(r#" {"b": [null, true, "你\n", {}], "a": {"x": "y"}, "n": 7} "#);
    assert!(document.is_object());
    assert_eq!(document.get("a").unwrap().text_at("x"), Some("y"));
    let items = document.array_at("b").unwrap();
    assert_eq!(items.len(), 4);
    assert!(items[0].is_null());
    assert_eq!(items[1], Json::Bool(true));
    assert_eq!(items[2].as_text(), Some("你\n"));
    assert_eq!(items[3], Json::object());
    assert_eq!(document.get("n"), Some(&Json::whole(7)));
    assert!(document.get("missing").is_none());
    assert!(document.null_at("missing"));
    assert!(!document.null_at("b"));
    assert!(json("[]").get("a").is_none());
}

#[test]
fn refuses_what_is_not_one_document() {
    for text in ["", "{", "nul", "{} {}", "{'a': 1}", "[1,]", "\"\u{1}\""] {
        assert!(Json::parse(text.as_bytes()).is_none(), "{text}");
    }
    assert!(Json::parse(&[0x22, 0xff, 0x22]).is_none());
}

#[test]
fn the_last_field_of_a_name_counts() {
    let read = json(r#"{"path": "a", "path": "b"}"#);
    assert_eq!(read.text_at("path"), Some("b"));
    let built = Json::object()
        .with("path", Json::text("a"))
        .with("path", Json::text("b"));
    assert_eq!(built.text_at("path"), Some("b"));
    assert_eq!(built.to_text(), r#"{"path":"b"}"#);
    let listed = Json::Object(vec![
        ("a".to_owned(), Json::whole(1)),
        ("b".to_owned(), Json::whole(2)),
        ("a".to_owned(), Json::whole(3)),
        ("c".to_owned(), Json::whole(4)),
        ("b".to_owned(), Json::Null),
    ]);
    assert_eq!(listed.to_text(), r#"{"a":3,"b":null,"c":4}"#);
}

#[test]
fn writes_compact_text_that_reads_back() {
    let document = Json::object()
        .with("ok", Json::Bool(true))
        .with("content", Json::text("a \"b\"\n你好\u{0}"))
        .with("list", Json::array(vec![Json::Null, Json::whole(u64::MAX), Json::object()]));
    let text = document.to_text();
    assert_eq!(
        text,
        "{\"content\":\"a \\\"b\\\"\\n你好\\u0000\",\"list\":[null,18446744073709551615,{}],\"ok\":true}"
    );
    assert_eq!(json(&text).to_text(), text);
    assert_eq!(json(&text).text_at("content"), Some("a \"b\"\n你好\u{0}"));
}

#[test]
fn numbers_are_carried_through() {
    for text in ["0", "-3", "1.5", "1e300", "18446744073709551615"] {
        let document = json(&format!("[{text}]"));
        let again = json(&document.clone().to_text());
        assert_eq!(document, again);
    }
    for text in ["-9223372036854775808", "-1", "0", "18446744073709551615"] {
        assert_eq!(json(text).to_text(), text);
    }
    assert_eq!(Json::whole(321).to_text(), "321");
}

#[test]
fn a_copy_is_the_same_document() {
    let document = json(r#"{"a": [1, {"b": null}, "c"], "d": -0.5}"#);
    assert_eq!(document.clone(), document);
}

#[test]
fn setting_a_field_leaves_other_documents_alone() {
    assert_eq!(Json::text("a").with("b", Json::Null), Json::text("a"));
    assert_eq!(Json::array(vec![]).with("b", Json::Null), Json::array(vec![]));
}

#[test]
fn nesting_up_to_the_reader_limit_reads_back() {
    let mut document = Json::Null;
    for _ in 0..127 {
        document = Json::array(vec![document]);
    }
    let text = document.to_text();
    assert_eq!(Json::parse(text.as_bytes()), Some(document));
    assert!(Json::parse(format!("[{text}]").as_bytes()).is_none());
}
