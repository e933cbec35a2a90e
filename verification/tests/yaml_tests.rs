use justrun::yaml::YamlValue;

fn s(t: &str) -> YamlValue {
    YamlValue::Str(t.to_string())
}

#[test]
fn get_finds_string_keys_only() {
    let m = YamlValue::Hash(vec![
        (YamlValue::Integer(1), s("one")),
        (s("name"), s("x")),
        (s("flag"), YamlValue::Boolean(true)),
    ]);
    assert_eq!(m.get("name"), Some(&s("x")));
    assert_eq!(m.get("1"), None);
    assert_eq!(m.get("missing"), None);
    assert_eq!(m.get("flag").and_then(|v| v.as_bool()), Some(true));
    assert_eq!(m.get("name").and_then(|v| v.as_str()).map(|v| v.as_str()), Some("x"));
    assert_eq!(s("a").get("a"), None);
}

#[test]
fn accessors_match_variants() {
    assert_eq!(s("a").as_bool(), None);
    assert_eq!(YamlValue::Boolean(false).as_str(), None);
    let list = YamlValue::Array(vec![s("a")]);
    assert_eq!(list.as_vec().map(|v| v.len()), Some(1));
    assert_eq!(YamlValue::Null.as_vec(), None);
}
