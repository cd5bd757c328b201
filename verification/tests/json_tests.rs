use account_sdk::json::Json;

fn object(members: Vec<(&str, Json)>) -> Json {
    Json::Object(members.into_iter().map(|(k, v)| (k.to_string(), v)).collect())
}

#[test]
fn json_parse_reads_each_kind_of_value() {
    assert_eq!(Json::parse(b"null"), Some(Json::Null));
    assert_eq!(Json::parse(b"true"), Some(Json::Bool(true)));
    assert_eq!(Json::parse(b"17"), Some(Json::Unsigned(17)));
    assert_eq!(Json::parse(b"18446744073709551615"), Some(Json::Unsigned(u64::MAX)));
    assert_eq!(Json::parse(b"-32000"), Some(Json::Signed(-32000)));
    assert_eq!(Json::parse(b"1.5"), Some(Json::Decimal("1.5".to_string())));
    assert_eq!(Json::parse(b"\"a\\nb\""), Some(Json::String("a\nb".to_string())));
    assert_eq!(
        Json::parse(b" [1, \"x\", []] "),
        Some(Json::Array(vec![Json::Unsigned(1), Json::String("x".to_string()), Json::Array(vec![])]))
    );
    assert_eq!(
        Json::parse(b"{\"b\": 1, \"a\": {\"c\": null}}"),
        Some(object(vec![("a", object(vec![("c", Json::Null)])), ("b", Json::Unsigned(1))]))
    );
}

#[test]
fn json_parse_refuses_what_is_no_json() {
    assert_eq!(Json::parse(b""), None);
    assert_eq!(Json::parse(b"{"), None);
    assert_eq!(Json::parse(b"{\"a\": }"), None);
    assert_eq!(Json::parse(b"nul"), None);
    assert_eq!(Json::parse(b"1 2"), None);
    assert_eq!(Json::parse(&[0xff, 0xfe]), None);
}

#[test]
fn json_text_is_compact() {
    assert_eq!(Json::Null.to_text(), "null");
    assert_eq!(Json::Bool(false).to_text(), "false");
    assert_eq!(Json::Unsigned(7).to_text(), "7");
    assert_eq!(Json::Signed(-32602).to_text(), "-32602");
    assert_eq!(Json::Decimal("2.5".to_string()).to_text(), "2.5");
    assert_eq!(Json::String("a\"b".to_string()).to_text(), "\"a\\\"b\"");
    assert_eq!(
        Json::Array(vec![Json::Unsigned(1), Json::Null]).to_text(),
        "[1,null]"
    );
    assert_eq!(
        object(vec![("b", Json::Unsigned(1)), ("a", Json::Unsigned(2))]).to_text(),
        "{\"a\":2,\"b\":1}"
    );
}

#[test]
fn json_text_reads_back() {
    let value = object(vec![
        ("a", Json::Array(vec![Json::Signed(-1), Json::String("x".to_string())])),
        ("b", object(vec![("c", Json::Bool(true))])),
    ]);
    assert_eq!(Json::parse(value.to_text().as_bytes()), Some(value));
}

#[test]
fn json_get_finds_members_of_objects() {
    let value = object(vec![("a", Json::Unsigned(1)), ("b", Json::Unsigned(2))]);
    assert_eq!(value.get("a"), Some(&Json::Unsigned(1)));
    assert_eq!(value.get("b"), Some(&Json::Unsigned(2)));
    assert_eq!(value.get("c"), None);
    assert_eq!(value.get(""), None);
    assert_eq!(Json::Array(vec![]).get("a"), None);
    assert_eq!(Json::Null.get("a"), None);
}

#[test]
fn json_later_member_counts() {
    let value = object(vec![("a", Json::Unsigned(1)), ("a", Json::Unsigned(2))]);
    assert_eq!(value.get("a"), Some(&Json::Unsigned(2)));
    assert_eq!(value.to_text(), "{\"a\":2}");
    assert_eq!(value.take("a"), Some(Json::Unsigned(2)));
    assert_eq!(Json::parse(b"{\"a\":1,\"a\":2}").unwrap().get("a"), Some(&Json::Unsigned(2)));
}

#[test]
fn json_take_moves_the_member_out() {
    let value = object(vec![("id", Json::String("x".to_string())), ("b", Json::Unsigned(2))]);
    assert_eq!(value.take("id"), Some(Json::String("x".to_string())));
    assert_eq!(object(vec![("b", Json::Unsigned(2))]).take("id"), None);
    assert_eq!(Json::Unsigned(2).take("id"), None);
}

#[test]
fn json_accessors() {
    assert_eq!(Json::String("x".to_string()).as_str(), Some("x"));
    assert_eq!(Json::Unsigned(1).as_str(), None);
    assert_eq!(Json::Decimal("1.5".to_string()).as_str(), None);
    assert_eq!(Json::Unsigned(5).as_u64(), Some(5));
    assert_eq!(Json::Signed(-5).as_u64(), None);
    assert_eq!(Json::String("5".to_string()).as_u64(), None);
    assert_eq!(Json::Array(vec![Json::Null]).as_array(), Some(&vec![Json::Null]));
    assert_eq!(Json::Null.as_array(), None);
}
