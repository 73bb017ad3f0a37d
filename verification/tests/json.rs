use linkedin_api::json::{copy_all, Json, ObjectBuilder};

#[test]
fn later_field_of_a_name_counts() {
    let json = ObjectBuilder::new()
        .field("a", Json::Unsigned(1))
        .field("b", Json::Unsigned(2))
        .field("a", Json::Unsigned(3))
        .build();
    assert_eq!(json.unsigned_at("a"), Some(3));
    assert_eq!(json.unsigned_at("b"), Some(2));
    assert_eq!(json.get("c"), None);
}

#[test]
fn set_field_replaces_or_adds() {
    let json = ObjectBuilder::new()
        .field("a", Json::Unsigned(1))
        .field("b", Json::Unsigned(2))
        .build()
        .with("a", Json::Null)
        .with("c", Json::Bool(true));
    let expected = ObjectBuilder::new()
        .field("a", Json::Null)
        .field("b", Json::Unsigned(2))
        .field("c", Json::Bool(true))
        .build();
    assert_eq!(json, expected);
    assert_eq!(
        Json::Null.with("a", Json::Null),
        ObjectBuilder::new().field("a", Json::Null).build()
    );
}

#[test]
fn accessors_answer_their_own_kind_only() {
    assert_eq!(Json::text("x").as_str(), Some("x"));
    assert_eq!(Json::Null.as_str(), None);
    assert_eq!(Json::Unsigned(7).as_u64(), Some(7));
    assert_eq!(Json::Signed(-7).as_u64(), None);
    assert_eq!(Json::Signed(7).as_u64(), Some(7));
    assert_eq!(Json::Float("7.5".to_string()).as_u64(), None);
    assert_eq!(Json::Bool(true).as_bool(), Some(true));
    assert_eq!(Json::text("true").as_bool(), None);
    assert_eq!(Json::array(vec![Json::Null]).as_array(), Some(&vec![Json::Null]));
    assert_eq!(Json::Null.as_array(), None);
    assert_eq!(Json::array(vec![]).get("a"), None);
    assert_eq!(Json::integer(0), Json::Unsigned(0));
    assert_eq!(Json::integer(i64::MIN), Json::Signed(i64::MIN));
}

#[test]
fn copies_are_equal() {
    let json = ObjectBuilder::new()
        .field(
            "a",
            Json::array(vec![
                Json::Null,
                Json::Bool(false),
                Json::Unsigned(1),
                Json::Signed(-1),
                Json::Float("2.5".to_string()),
                Json::text("\u{e9}"),
            ]),
        )
        .field("b", ObjectBuilder::new().field("c", Json::Null).build())
        .build();
    assert_eq!(json.copy(), json);
    let list = vec![json.copy(), Json::Null];
    assert_eq!(copy_all(&list), list);
}
