use openaiclient::json::{json_bool_at, json_kind_at, json_len_at, json_str_at, json_u64_at, JsonKind};

#[test]
fn accessors_read_pointer_paths() {
    let doc = "{\"a\":{\"b\":[\"x\",true,7]},\"s\":\"text\"}";
    assert_eq!(json_str_at(doc, "/s").unwrap(), "text");
    assert_eq!(json_str_at(doc, "/a/b/0").unwrap(), "x");
    assert!(json_str_at(doc, "/a/b/1").is_none());
    assert!(json_str_at(doc, "/missing").is_none());
    assert_eq!(json_bool_at(doc, "/a/b/1"), Some(true));
    assert_eq!(json_u64_at(doc, "/a/b/2"), Some(7));
    assert_eq!(json_len_at(doc, "/a/b"), Some(3));
    assert!(json_len_at(doc, "/s").is_none());
    assert_eq!(json_kind_at(doc, "/a"), Some(JsonKind::Object));
    assert_eq!(json_kind_at(doc, "/a/b"), Some(JsonKind::Array));
    assert_eq!(json_kind_at(doc, "/s"), Some(JsonKind::String));
    assert_eq!(json_kind_at(doc, ""), Some(JsonKind::Object));
    assert!(json_kind_at("nonsense", "").is_none());
    assert_eq!(json_kind_at("null", ""), Some(JsonKind::Null));
}
