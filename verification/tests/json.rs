use influx_export::error::ExportError;
use influx_export::json::{parse_json, Json, Member, Number};

fn unsigned(n: u64) -> Json {
    Json::Number(Number::Unsigned(n))
}

fn text(s: &str) -> Json {
    Json::Text(s.to_string())
}

fn object(members: Vec<(&str, Json)>) -> Json {
    Json::Object(
        members
            .into_iter()
            .map(|(key, value)| Member { key: key.to_string(), value })
            .collect(),
    )
}

#[test]
fn parse_reads_every_kind_of_value() {
    let tree = parse_json(r#"{"a":[1,-2,1.5,"x",null,true,false,{}]}"#).unwrap();
    let expected = object(vec![(
        "a",
        Json::Array(vec![
            unsigned(1),
            Json::Number(Number::Signed(-2)),
            Json::Number(Number::Real("1.5".to_string())),
            text("x"),
            Json::Null,
            Json::Bool(true),
            Json::Bool(false),
            Json::Object(Vec::new()),
        ]),
    )]);
    assert_eq!(tree, expected);
}

#[test]
fn parse_tells_integers_from_other_numbers() {
    assert_eq!(parse_json("0").unwrap(), unsigned(0));
    assert_eq!(parse_json("18446744073709551615").unwrap(), unsigned(u64::MAX));
    assert_eq!(
        parse_json("-9223372036854775808").unwrap(),
        Json::Number(Number::Signed(i64::MIN))
    );
    assert_eq!(parse_json("-1").unwrap(), Json::Number(Number::Signed(-1)));
    assert!(matches!(parse_json("2.5e3").unwrap(), Json::Number(Number::Real(_))));
    assert!(matches!(parse_json("1.0").unwrap(), Json::Number(Number::Real(_))));
    assert_eq!(parse_json("1.0").unwrap().as_u64(), None);
    assert_eq!(parse_json("7").unwrap().as_u64(), Some(7));
}

#[test]
fn parse_is_not_the_identity_on_text() {
    let tree = parse_json(" \"a\\u0041\\n\" ").unwrap();
    assert_eq!(tree, text("aA\n"));
    assert_eq!(tree.as_str(), Some("aA\n"));
}

#[test]
fn parse_keeps_one_member_for_each_key() {
    let tree = parse_json(r#"{"k":1,"k":2}"#).unwrap();
    assert_eq!(tree, object(vec![("k", unsigned(2))]));
    assert_eq!(tree.member("k"), Some(&unsigned(2)));
}

#[test]
fn parse_refuses_what_is_not_json() {
    for bad in ["", "{", "[1,]", "nul", "{\"a\":}", "1 2", "ERR: database not found"] {
        match parse_json(bad) {
            Err(ExportError::ParseFailure(detail)) => assert!(!detail.is_empty()),
            other => panic!("{:?} gave {:?}", bad, other),
        }
    }
}

#[test]
fn member_finds_the_first_match_in_an_object() {
    let tree = object(vec![("a", unsigned(1)), ("b", unsigned(2)), ("a", unsigned(3))]);
    assert_eq!(tree.member("a"), Some(&unsigned(1)));
    assert_eq!(tree.member("b"), Some(&unsigned(2)));
    assert_eq!(tree.member("c"), None);
    assert_eq!(tree.member(""), None);
    assert_eq!(Json::Array(vec![unsigned(1)]).member("a"), None);
    assert_eq!(Json::Null.member("a"), None);
}

#[test]
fn element_indexes_arrays_only() {
    let tree = Json::Array(vec![text("x"), Json::Null]);
    assert_eq!(tree.element(0), Some(&text("x")));
    assert_eq!(tree.element(1), Some(&Json::Null));
    assert_eq!(tree.element(2), None);
    assert_eq!(object(vec![("0", unsigned(1))]).element(0), None);
    assert_eq!(text("x").element(0), None);
}

#[test]
fn as_array_as_u64_as_str_tell_the_variants_apart() {
    let items = vec![unsigned(1)];
    assert_eq!(Json::Array(items.clone()).as_array(), Some(&items));
    assert_eq!(Json::Null.as_array(), None);
    assert_eq!(unsigned(9).as_u64(), Some(9));
    assert_eq!(Json::Number(Number::Signed(-9)).as_u64(), None);
    assert_eq!(Json::Number(Number::Real("9.0".to_string())).as_u64(), None);
    assert_eq!(text("9").as_u64(), None);
    assert_eq!(text("9").as_str(), Some("9"));
    assert_eq!(unsigned(9).as_str(), None);
}

#[test]
fn duplicate_copies_the_whole_tree() {
    let tree = object(vec![
        ("list", Json::Array(vec![unsigned(1), text("x"), Json::Array(vec![Json::Null])])),
        ("inner", object(vec![("flag", Json::Bool(true))])),
        ("real", Json::Number(Number::Real("0.25".to_string()))),
    ]);
    assert_eq!(tree.duplicate(), tree);
    assert_eq!(tree.clone(), tree);
}
