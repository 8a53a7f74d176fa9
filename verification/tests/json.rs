use agent_core::json::Json;

#[test]
fn numbers_keep_what_they_say() {
    let given = Json::Number(serde_json::Number::from(5u64));
    assert_eq!(given.as_u64(), Some(5));
    assert_eq!(Json::from_value(given.to_value()), Json::UInt(5));
    let negative = Json::parse("-3").expect("a number");
    assert_eq!(negative.as_u64(), None);
    assert_eq!(negative.to_text(), "-3");
    assert_eq!(Json::from_value(negative.to_value()), negative);
    let fraction = Json::parse("1.5").expect("a number");
    assert_eq!(fraction.as_u64(), None);
    assert_eq!(fraction.duplicate().to_text(), "1.5");
    assert_eq!(
        Json::parse("18446744073709551615").expect("a number"),
        Json::UInt(u64::MAX)
    );
}

#[test]
fn the_last_field_of_a_name_counts() {
    let twice = Json::parse("{\"a\": 1, \"b\": [true, null], \"a\": 2}").expect("an object");
    assert_eq!(twice.field("a").as_u64(), Some(2));
    assert_eq!(twice.field("b").item(0).as_bool(), Some(true));
    assert_eq!(*twice.field("b").item(2), Json::Null);
    assert_eq!(*twice.field("c"), Json::Null);
    assert!(twice.get("c").is_none());
    assert_eq!(twice.to_text(), "{\"a\":2,\"b\":[true,null]}");
    let set = Json::object().with("a", Json::UInt(1)).with("a", Json::str("x"));
    assert_eq!(set.field("a").as_str(), Some("x"));
    assert_eq!(set.to_text(), "{\"a\":\"x\"}");
}

#[test]
fn what_is_no_json_is_refused() {
    let words = Json::parse("{").expect_err("not JSON");
    assert!(words.contains("EOF"), "got: {words}");
}
