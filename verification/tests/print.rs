use linkedin_api::json::{Json, ObjectBuilder};
use linkedin_api::order::comes_before;
use serde_json::{Number, Value};

#[test]
fn plain_values_print_as_they_are() {
    assert_eq!(Json::Null.to_text(), "null");
    assert_eq!(Json::Bool(true).to_text(), "true");
    assert_eq!(Json::Bool(false).to_text(), "false");
    assert_eq!(Json::Unsigned(u64::MAX).to_text(), "18446744073709551615");
    assert_eq!(Json::Signed(i64::MIN).to_text(), "-9223372036854775808");
    assert_eq!(Json::Signed(-1).to_text(), "-1");
    assert_eq!(Json::Signed(7).to_text(), "7");
    assert_eq!(Json::Float("1.5e300".to_string()).to_text(), "1.5e300");
}

#[test]
fn strings_are_quoted() {
    assert_eq!(Json::text("").to_text(), "\"\"");
    assert_eq!(Json::text("a/b 'c'").to_text(), "\"a/b 'c'\"");
    assert_eq!(Json::text("\"\\").to_text(), "\"\\\"\\\\\"");
    assert_eq!(Json::text("\u{8}\t\n\u{c}\r").to_text(), "\"\\b\\t\\n\\f\\r\"");
    assert_eq!(Json::text("\u{0}\u{b}\u{1f}").to_text(), "\"\\u0000\\u000b\\u001f\"");
    assert_eq!(Json::text("\u{7f}\u{e9}\u{1f600}").to_text(), "\"\u{7f}\u{e9}\u{1f600}\"");
}

#[test]
fn every_escape_reads_back() {
    let all: String = (0u32..0x3000).filter_map(char::from_u32).collect();
    let text = Json::text(&all).to_text();
    assert_eq!(serde_json::from_str::<Value>(&text).unwrap(), Value::String(all));
}

#[test]
fn fields_print_in_the_order_of_their_names() {
    let json = ObjectBuilder::new()
        .field("ok", Json::Bool(false))
        .field("mediaStatusType", Json::text("VIDEO"))
        .field("last", Json::array(vec![Json::Unsigned(1), Json::array(vec![]), Json::Null]))
        .field("ok", Json::Bool(true))
        .field("a\"b", ObjectBuilder::new().build())
        .build();
    assert_eq!(
        json.to_text(),
        "{\"a\\\"b\":{},\"last\":[1,[],null],\"mediaStatusType\":\"VIDEO\",\"ok\":true}"
    );
}

#[test]
fn text_is_that_of_the_same_value() {
    let names = ["b", "a", "", "ab", "B", "\u{e9}", "a\u{1f600}", "\u{ffff}", "\u{10000}", "a b"];
    let mut fields = serde_json::Map::new();
    let mut builder = ObjectBuilder::new();
    for (i, name) in names.iter().enumerate() {
        let value = Value::Array(vec![
            Value::from(i),
            Value::from(-1 - i as i64),
            Value::from(i as f64 / 8.0),
            Value::from(*name),
        ]);
        let json = Json::array(vec![
            Json::Unsigned(i as u64),
            Json::Signed(-1 - i as i64),
            Json::Float(Number::from_f64(i as f64 / 8.0).unwrap().to_string()),
            Json::text(name),
        ]);
        fields.insert(name.to_string(), value);
        builder = builder.field(name, json);
    }
    assert_eq!(builder.build().to_text(), Value::Object(fields).to_string());
}

#[test]
fn shorter_name_comes_before_a_longer_one() {
    assert!(comes_before("", "a"));
    assert!(comes_before("a", "ab"));
    assert!(comes_before("ab", "b"));
    assert!(comes_before("B", "a"));
    assert!(comes_before("\u{ffff}", "\u{10000}"));
    assert!(!comes_before("a", "a"));
    assert!(!comes_before("b", "ab"));
}
