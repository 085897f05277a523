use openapi_spec::reader::{parse_json_document, parse_yaml_document};
use openapi_spec::scalar::copy_node;
use openapi_spec::tree::{Node, Number};

fn text(s: &str) -> Node {
    Node::Text(s.to_string())
}

fn whole(n: u64) -> Node {
    Node::Number(Number::PosInt(n))
}

fn float(x: f64) -> Node {
    Node::Number(Number::Float(x.to_bits()))
}

fn entry(key: &str, value: Node) -> (String, Node) {
    (key.to_string(), value)
}

/// The tree of a JSON value, read as the only entry of an object.
fn json(value: &str) -> Node {
    let Node::Object(mut entries) = parse_json_document(&format!("{{\"v\": {value}}}")).unwrap()
    else {
        unreachable!()
    };
    assert_eq!(entries.len(), 1);
    assert_eq!(entries[0].0, "v");
    entries.remove(0).1
}

/// The tree of a YAML scalar or flow value, read as the only entry of a mapping.
fn yaml(value: &str) -> Node {
    let Node::Object(mut entries) = parse_yaml_document(&format!("v: {value}\n")).unwrap() else {
        unreachable!()
    };
    assert_eq!(entries.len(), 1);
    entries.remove(0).1
}

#[test]
fn json_scalars_are_read() {
    assert_eq!(json("null"), Node::Null);
    assert_eq!(json("true"), Node::Boolean(true));
    assert_eq!(json("false"), Node::Boolean(false));
    assert_eq!(json("\"a\\nb\""), text("a\nb"));
    assert_eq!(json("\"\""), text(""));
    assert_eq!(json("\"\\u00e9\""), text("é"));
}

#[test]
fn json_numbers_are_told_apart() {
    assert_eq!(json("0"), whole(0));
    assert_eq!(json("12"), whole(12));
    assert_eq!(json("18446744073709551615"), whole(u64::MAX));
    assert_eq!(json("-3"), Node::Number(Number::NegInt(-3)));
    assert_eq!(json("-9223372036854775808"), Node::Number(Number::NegInt(i64::MIN)));
    assert_eq!(json("1.5"), float(1.5));
    assert_eq!(json("1e2"), float(100.0));
    assert_eq!(json("-0.25"), float(-0.25));
    assert_eq!(json("18446744073709551616"), float(18446744073709551616.0));
    assert_eq!(json("-9223372036854775809"), float(-9223372036854775809.0));
}

#[test]
fn json_arrays_keep_their_order() {
    assert_eq!(json("[]"), Node::Array(vec![]));
    assert_eq!(
        json("[1, \"x\", null, [true]]"),
        Node::Array(vec![whole(1), text("x"), Node::Null, Node::Array(vec![Node::Boolean(true)])])
    );
}

#[test]
fn json_objects_come_sorted_by_key() {
    assert_eq!(parse_json_document("{}").unwrap(), Node::Object(vec![]));
    assert_eq!(
        parse_json_document("{\"b\": 1, \"a\": {\"z\": null, \"y\": 2}}").unwrap(),
        Node::Object(vec![
            entry("a", Node::Object(vec![entry("y", whole(2)), entry("z", Node::Null)])),
            entry("b", whole(1)),
        ])
    );
}

#[test]
fn json_keeps_the_last_of_a_repeated_key() {
    assert_eq!(
        parse_json_document("{\"a\": 1, \"b\": 2, \"a\": 3}").unwrap(),
        Node::Object(vec![entry("a", whole(3)), entry("b", whole(2))])
    );
}

#[test]
fn invalid_json_is_refused() {
    for bad in ["", "{", "{\"a\": [1,]}", "{\"a\" 1}", "{\"a\": tru}", "{'a': 1}", "{} {}", "{\"a\": 01}"] {
        assert!(parse_json_document(bad).is_err(), "{bad}");
    }
}

#[test]
fn a_json_text_that_is_no_object_is_refused() {
    for bad in ["null", "[]", "[{}]", "1", "\"a\"", "true"] {
        assert!(parse_json_document(bad).is_err(), "{bad}");
    }
}

#[test]
fn json_deeper_than_the_decoder_goes_is_refused() {
    let deep = "{\"a\":".repeat(200) + "1" + &"}".repeat(200);
    assert!(parse_json_document(&deep).is_err());
    let fine = "{\"a\":".repeat(100) + "1" + &"}".repeat(100);
    assert!(parse_json_document(&fine).is_ok());
}

#[test]
fn yaml_scalars_are_read() {
    assert_eq!(yaml("~"), Node::Null);
    assert_eq!(yaml("null"), Node::Null);
    assert_eq!(yaml(""), Node::Null);
    assert_eq!(yaml("true"), Node::Boolean(true));
    assert_eq!(yaml("12"), whole(12));
    assert_eq!(yaml("-3"), Node::Number(Number::NegInt(-3)));
    assert_eq!(yaml("1.5"), float(1.5));
    assert_eq!(yaml("hello"), text("hello"));
    assert_eq!(yaml("\"12\""), text("12"));
    assert_eq!(yaml("1.0.0"), text("1.0.0"));
}

#[test]
fn yaml_numbers_that_json_lacks_become_null() {
    assert_eq!(yaml(".nan"), Node::Null);
    assert_eq!(yaml(".inf"), Node::Null);
    assert_eq!(yaml("-.inf"), Node::Null);
}

#[test]
fn yaml_keys_are_names_whatever_they_look_like() {
    assert_eq!(
        parse_yaml_document("200: ok\ntrue: yes\n1.5: x\n").unwrap(),
        Node::Object(vec![entry("1.5", text("x")), entry("200", text("ok")), entry("true", text("yes"))])
    );
}

#[test]
fn yaml_collections_are_read() {
    assert_eq!(
        parse_yaml_document("a:\n  - 1\n  - x\nb: {c: null}\n").unwrap(),
        Node::Object(vec![
            entry("a", Node::Array(vec![whole(1), text("x")])),
            entry("b", Node::Object(vec![entry("c", Node::Null)])),
        ])
    );
    assert_eq!(yaml("[]"), Node::Array(vec![]));
    assert_eq!(yaml("{}"), Node::Object(vec![]));
}

#[test]
fn yaml_follows_aliases() {
    assert_eq!(
        parse_yaml_document("a: &x {k: 1}\nb: *x\n").unwrap(),
        Node::Object(vec![
            entry("a", Node::Object(vec![entry("k", whole(1))])),
            entry("b", Node::Object(vec![entry("k", whole(1))])),
        ])
    );
}

#[test]
fn a_yaml_text_without_a_node_is_the_empty_mapping() {
    assert_eq!(parse_yaml_document("").unwrap(), Node::Object(vec![]));
    assert_eq!(parse_yaml_document("# only a comment\n").unwrap(), Node::Object(vec![]));
    assert_eq!(parse_yaml_document("{}").unwrap(), Node::Object(vec![]));
}

#[test]
fn invalid_yaml_is_refused() {
    for bad in ["a: [1, 2", "a: b: c", "a: \"open", "- a\nb: c\n", "a: *nowhere", "---\na: 1\n---\nb: 2\n"] {
        assert!(parse_yaml_document(bad).is_err(), "{bad:?}");
    }
}

#[test]
fn a_yaml_text_that_is_no_mapping_is_refused() {
    for bad in ["~", "null", "- a\n- b\n", "[]", "12", "text"] {
        assert!(parse_yaml_document(bad).is_err(), "{bad:?}");
    }
}

#[test]
fn json_text_is_yaml_text_too() {
    let text = "{\"a\": [1, 2.5, \"x\", null, true], \"b\": {\"c\": -1}}";
    assert_eq!(parse_json_document(text).unwrap(), parse_yaml_document(text).unwrap());
}

#[test]
fn a_copy_is_equal_to_its_source() {
    let tree =
        parse_json_document("{\"a\": [1, {\"b\": null}, \"x\"], \"c\": 2.5, \"d\": {}}").unwrap();
    assert_eq!(copy_node(&tree), tree);
    assert_eq!(copy_node(&Node::Null), Node::Null);
}
