use vise::json::{parse_json, Json};
use vise::openapi::normalize_openapi;

fn normalized(document: &str) -> Json {
    let mut value = parse_json(document).expect("JSON");
    normalize_openapi(&mut value);
    value
}

fn json(text: &str) -> Json {
    parse_json(text).expect("JSON")
}

#[test]
fn nullable_types_are_written_apart() {
    assert_eq!(
        normalized(r#"{"type":["string","null"]}"#),
        json(r#"{"type":"string","nullable":true}"#)
    );
    assert_eq!(
        normalized(r#"{"nullable":false,"type":["null","integer"],"format":"int64"}"#),
        json(r#"{"nullable":true,"type":"integer","format":"int64"}"#)
    );
    for kept in [
        r#"{"type":["string","integer"]}"#,
        r#"{"type":["string","integer","null"]}"#,
        r#"{"type":["null"]}"#,
        r#"{"type":"null"}"#,
    ] {
        assert_eq!(normalized(kept), json(kept));
    }
}

#[test]
fn nullable_references_become_a_whole() {
    assert_eq!(
        normalized(r##"{"oneOf":[{"type":"null"},{"$ref":"#/a"}]}"##),
        json(r##"{"allOf":[{"$ref":"#/a"}],"nullable":true}"##)
    );
    assert_eq!(
        normalized(
            r##"{"description":"old","oneOf":[{"$ref":"#/a","description":"new"},{"type":"null"}]}"##
        ),
        json(r##"{"description":"new","allOf":[{"$ref":"#/a"}],"nullable":true}"##)
    );
}

#[test]
fn other_nullable_variants_are_taken_over() {
    assert_eq!(
        normalized(r#"{"oneOf":[{"type":"null"},{"type":"array","items":{"type":["string","null"]}}]}"#),
        json(r#"{"type":"array","items":{"type":"string","nullable":true},"nullable":true}"#)
    );
    assert_eq!(
        normalized(r#"{"oneOf":[{"type":"null"},3]}"#),
        json(r#"{"nullable":true}"#)
    );
    for kept in [
        r#"{"oneOf":[{"type":"string"},{"type":"integer"}]}"#,
        r#"{"oneOf":[{"type":"null"},{"type":"string"},{"type":"integer"}]}"#,
        r#"{"oneOf":[{"type":"null"},{"type":"null"}]}"#,
        r#"{"oneOf":[{"type":"null"}]}"#,
        r#"{"oneOf":{"type":"null"}}"#,
    ] {
        assert_eq!(normalized(kept), json(kept));
    }
}

#[test]
fn documents_are_rewritten_all_the_way_down() {
    assert_eq!(
        normalized(r#"[{"a":{"b":[{"type":["boolean","null"]}]}},"type",null]"#),
        json(r#"[{"a":{"b":[{"type":"boolean","nullable":true}]}},"type",null]"#)
    );
    let plain = r#"{"openapi":"3.0.3","paths":{"/x":{"get":{"type":"string","n":[1,2]}}}}"#;
    assert_eq!(normalized(plain), json(plain));
}
