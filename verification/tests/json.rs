use suture::json::Json;

fn sample() -> Json {
    Json::object()
        .field("a", Json::list().and(Json::Unsigned(1)).and(Json::Null).and(Json::Bool(true)))
        .field("b", Json::text("q\"uo\\te\u{1}\u{e9}"))
        .field("c", Json::Negative(-7))
        .field("d", Json::object())
        .field("e", Json::Float("1.5".to_string()))
        .field("f", Json::Bool(false))
        .field("g", Json::list())
}

#[test]
fn values_are_spelled_as_serde_spells_them() {
    let text = sample().to_text();
    let v: serde_json::Value = serde_json::from_str(&text).expect("valid JSON");
    assert_eq!(v["a"][0], 1);
    assert!(v["a"][1].is_null());
    assert_eq!(v["a"][2], true);
    assert_eq!(v["b"], "q\"uo\\te\u{1}\u{e9}");
    assert_eq!(v["c"], -7);
    assert_eq!(v["e"], 1.5);
    // The keys are in order here, so that the spelling is the same letter for letter.
    assert_eq!(v.to_string(), text);
}

#[test]
fn fields_and_items_are_found() {
    let j = sample();
    assert_eq!(j.get("a").unwrap().item(0).unwrap().as_u64(), Some(1));
    assert!(j.get("a").unwrap().item(1).unwrap().is_null());
    assert!(j.get("a").unwrap().item(3).is_none());
    assert!(j.get("missing").is_none());
    assert!(j.item(0).is_none());
    assert!(Json::Null.get("a").is_none());
    assert_eq!(j.get("b").unwrap().as_str(), Some("q\"uo\\te\u{1}\u{e9}"));
    assert_eq!(j.get("c").unwrap().as_i64(), Some(-7));
    assert_eq!(j.get("c").unwrap().as_u64(), None);
    assert_eq!(j.get("c").unwrap().as_str(), None);
    assert_eq!(Json::Unsigned(u64::MAX).as_i64(), None);
    assert_eq!(Json::Unsigned(5).as_i64(), Some(5));
    assert_eq!(Json::Float("5.0".to_string()).as_i64(), None);
    assert!(!j.is_null());
}

#[test]
fn only_objects_take_fields_and_only_lists_take_items() {
    assert!(Json::Null.field("a", Json::Bool(true)).is_null());
    assert!(Json::Null.and(Json::Bool(true)).is_null());
}

#[test]
fn objects_are_written_as_serde_writes_them() {
    let j = Json::object().field("z", Json::Unsigned(1)).field("a", Json::Bool(false));
    let v: serde_json::Value = serde_json::from_str("{\"z\":1,\"a\":false}").unwrap();
    assert_eq!(j.to_text(), v.to_string());
}

#[test]
fn numbers_are_written_as_serde_writes_them() {
    for spelled in ["1.5", "-0.25", "1e100", "0.1", "18446744073709551616.0"] {
        let v: serde_json::Value = serde_json::from_str(spelled).unwrap();
        assert_eq!(Json::Float(v.to_string()).to_text(), v.to_string());
    }
    assert_eq!(Json::Float("no number".to_string()).to_text(), "null");
    assert_eq!(Json::Unsigned(u64::MAX).to_text(), "18446744073709551615");
    assert_eq!(Json::Negative(i64::MIN).to_text(), "-9223372036854775808");
}
