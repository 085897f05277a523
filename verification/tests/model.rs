use openapi_spec::codec::{field, find, Mismatch, Wire};
use openapi_spec::collection::Dict;
use openapi_spec::open_api::{
    Discriminator, Example, Info, OAuthFlow, OAuthFlows, Operation, Parameter, PathItem, Response,
    Responses, Schema, SecurityScheme, XML,
};
use openapi_spec::reader::parse_json_document;
use openapi_spec::tree::{Node, Number};

fn json(text: &str) -> Node {
    let Node::Object(mut entries) = parse_json_document(&format!("{{\"v\": {text}}}")).unwrap()
    else {
        unreachable!()
    };
    entries.remove(0).1
}

fn text(s: &str) -> Node {
    Node::Text(s.to_string())
}

fn some(s: &str) -> Option<String> {
    Some(s.to_string())
}

fn entry(key: &str, value: Node) -> (String, Node) {
    (key.to_string(), value)
}

fn miss<T>(path: &[&str]) -> Result<T, Mismatch> {
    Err(Mismatch { path: path.iter().map(|key| key.to_string()).collect() })
}

fn response(description: &str) -> Response {
    Response { description: some(description), content: None, headers: None }
}

fn empty_schema() -> Schema {
    Schema::decode(&Node::Object(vec![])).unwrap()
}

fn to_json(node: &Node) -> serde_json::Value {
    match node {
        Node::Null => serde_json::Value::Null,
        Node::Boolean(b) => serde_json::Value::Bool(*b),
        Node::Number(Number::PosInt(n)) => serde_json::Value::from(*n),
        Node::Number(Number::NegInt(n)) => serde_json::Value::from(*n),
        Node::Number(Number::Float(bits)) => serde_json::Value::from(f64::from_bits(*bits)),
        Node::Text(s) => serde_json::Value::String(s.clone()),
        Node::Array(items) => serde_json::Value::Array(items.iter().map(to_json).collect()),
        Node::Object(entries) => {
            serde_json::Value::Object(entries.iter().map(|(k, v)| (k.clone(), to_json(v))).collect())
        }
    }
}

#[test]
fn an_entity_is_decoded_from_its_keys() {
    let node = Node::Object(vec![
        entry("version", text("1.0")),
        entry("title", text("T")),
    ]);
    assert_eq!(
        Info::decode(&node),
        Ok(Info { title: some("T"), description: None, version: some("1.0") })
    );
}

#[test]
fn null_stands_for_an_absent_field() {
    let node = json(r#"{"title": null, "description": "d", "version": null}"#);
    assert_eq!(Info::decode(&node), Ok(Info { title: None, description: some("d"), version: None }));
}

#[test]
fn keys_that_an_entity_does_not_know_are_passed_over() {
    let node = json(r#"{"title": "T", "x-logo": {"url": "u"}, "termsOfService": 3}"#);
    assert_eq!(Info::decode(&node), Ok(Info { title: some("T"), description: None, version: None }));
}

#[test]
fn the_last_entry_under_a_key_counts() {
    let node = Node::Object(vec![
        entry("title", text("first")),
        entry("title", Node::Null),
        entry("title", text("last")),
    ]);
    assert_eq!(Info::decode(&node).unwrap().title, some("last"));
    let node = Node::Object(vec![entry("title", text("first")), entry("title", Node::Null)]);
    assert_eq!(Info::decode(&node).unwrap().title, None);
    let Node::Object(entries) = node else { unreachable!() };
    assert_eq!(find(&entries, "title"), Some(1));
    assert_eq!(find(&entries, "Title"), None);
    assert_eq!(find(&entries, "titl"), None);
    assert_eq!(find(&entries, ""), None);
}

#[test]
fn a_field_of_another_kind_is_a_mismatch() {
    for bad in [r#"{"title": 1}"#, r#"{"title": true}"#, r#"{"title": []}"#, r#"{"title": {}}"#] {
        assert_eq!(Info::decode(&json(bad)), miss(&["title"]), "{bad}");
    }
    assert_eq!(Info::decode(&json(r#"{"title": "T", "version": 1.0}"#)), miss(&["version"]));
}

#[test]
fn an_entity_is_an_object() {
    for bad in ["null", "[]", "\"title\"", "1", "true", r#"["T", "d", "1.0"]"#] {
        assert_eq!(Info::decode(&json(bad)), miss(&[]), "{bad}");
    }
}

#[test]
fn a_field_is_read_by_its_key() {
    let Node::Object(entries) = json(r#"{"a": "x", "b": null, "c": 3}"#) else { unreachable!() };
    assert_eq!(field::<String>(&entries, "a"), Ok(some("x")));
    assert_eq!(field::<String>(&entries, "b"), Ok(None));
    assert_eq!(field::<String>(&entries, "c"), miss(&["c"]));
    assert_eq!(field::<String>(&entries, "d"), Ok(None));
    assert_eq!(field::<u32>(&entries, "c"), Ok(Some(3)));
    assert_eq!(field::<bool>(&entries, "c"), miss(&["c"]));
}

#[test]
fn an_entity_is_encoded_with_every_key() {
    let info = Info { title: some("T"), description: None, version: some("1.0") };
    assert_eq!(
        info.encode(),
        Node::Object(vec![
            entry("title", text("T")),
            entry("description", Node::Null),
            entry("version", text("1.0")),
        ])
    );
    assert_eq!(
        to_json(&info.encode()).to_string(),
        r#"{"description":null,"title":"T","version":"1.0"}"#
    );
}

#[test]
fn counts_are_whole_numbers_of_32_bits() {
    let decode = |n: &str| Schema::decode(&json(&format!("{{\"maxLength\": {n}}}")));
    assert_eq!(decode("0").unwrap().max_length, Some(0));
    assert_eq!(decode("40").unwrap().max_length, Some(40));
    assert_eq!(decode("4294967295").unwrap().max_length, Some(u32::MAX));
    assert_eq!(decode("4294967296"), miss(&["maxLength"]));
    assert_eq!(decode("-1"), miss(&["maxLength"]));
    assert_eq!(decode("1.0"), miss(&["maxLength"]));
    assert_eq!(decode("\"1\""), miss(&["maxLength"]));
    assert_eq!(decode("null").unwrap().max_length, None);
}

#[test]
fn bounds_are_numbers_of_any_kind() {
    let schema = Schema::decode(&json(r#"{"minimum": -5, "maximum": 10, "multipleOf": 0.5}"#)).unwrap();
    assert_eq!(schema.minimum, Some(Number::NegInt(-5)));
    assert_eq!(schema.maximum, Some(Number::PosInt(10)));
    assert_eq!(schema.multiple_of, Some(Number::Float(0.5f64.to_bits())));
    assert_eq!(Schema::decode(&json(r#"{"maximum": "10"}"#)), miss(&["maximum"]));
    assert_eq!(Schema::decode(&json(r#"{"exclusiveMaximum": 10}"#)), miss(&["exclusiveMaximum"]));
}

#[test]
fn fields_are_named_in_camel_case() {
    let schema = Schema::decode(&json(
        r#"{"multipleOf": 2, "exclusiveMaximum": true, "exclusiveMinimum": false, "maxLength": 1,
            "minLength": 2, "maxItems": 3, "minItems": 4, "uniqueItems": true, "maxProperties": 5,
            "minProperties": 6, "readOnly": true, "writeOnly": false,
            "additionalProperties": {"type": "string"}, "allOf": [], "oneOf": [{}], "anyOf": [{}, {}]}"#,
    ))
    .unwrap();
    assert_eq!(schema.multiple_of, Some(Number::PosInt(2)));
    assert_eq!(schema.exclusive_maximum, Some(true));
    assert_eq!(schema.exclusive_minimum, Some(false));
    assert_eq!(
        (schema.max_length, schema.min_length, schema.max_items, schema.min_items),
        (Some(1), Some(2), Some(3), Some(4))
    );
    assert_eq!(schema.unique_items, Some(true));
    assert_eq!((schema.max_properties, schema.min_properties), (Some(5), Some(6)));
    assert_eq!((schema.read_only, schema.write_only), (Some(true), Some(false)));
    assert_eq!(schema.additional_properties.unwrap().type_, some("string"));
    assert_eq!(schema.all_of.unwrap().len(), 0);
    assert_eq!(schema.one_of.unwrap().len(), 1);
    assert_eq!(schema.any_of.unwrap().len(), 2);
    let snake = Schema::decode(&json(r#"{"multiple_of": 2, "max_length": 1, "read_only": true}"#)).unwrap();
    assert_eq!(snake, empty_schema());

    let operation = Operation::decode(&json(r#"{"operationId": "op", "requestBody": {}}"#)).unwrap();
    assert_eq!(operation.operation_id, some("op"));
    assert!(operation.request_body.is_some());
    let flows = OAuthFlows::decode(&json(
        r#"{"clientCredentials": {"tokenUrl": "t", "refreshUrl": "r", "scopes": {"read": "all"}},
            "authorizationCode": {"authorizationUrl": "a"}}"#,
    ))
    .unwrap();
    let client = flows.client_credentials.unwrap();
    assert_eq!((client.token_url, client.refresh_url), (some("t"), some("r")));
    assert_eq!(client.scopes.unwrap().get("read"), Some(&"all".to_string()));
    assert_eq!(flows.authorization_code.unwrap().authorization_url, some("a"));
    let example = Example::decode(&json(r#"{"externalValue": "http://x", "value": [1, null]}"#)).unwrap();
    assert_eq!(example.external_value, some("http://x"));
    assert_eq!(example.value, Some(json("[1, null]")));
    let discriminator =
        Discriminator::decode(&json(r#"{"propertyName": "kind", "mapping": {"a": "A"}}"#)).unwrap();
    assert_eq!(discriminator.property_name, some("kind"));
    let scheme = SecurityScheme::decode(&json(
        r#"{"type": "http", "bearerFormat": "JWT", "openIdConnectUrl": "u", "scheme": "bearer"}"#,
    ))
    .unwrap();
    assert_eq!(
        (scheme.type_, scheme.bearer_format, scheme.open_id_connect_url, scheme.scheme),
        (some("http"), some("JWT"), some("u"), some("bearer"))
    );
}

#[test]
fn the_location_of_a_parameter_is_written_as_in() {
    let parameter = Parameter::decode(&json(r#"{"name": "q", "in": "query"}"#)).unwrap();
    assert_eq!(parameter.in_, some("query"));
    assert_eq!(parameter.name, some("q"));
    let Node::Object(entries) = parameter.encode() else { unreachable!() };
    assert_eq!(entries[1], entry("in", text("query")));
    assert!(entries.iter().all(|(key, _)| key != "in_"));
    let written = to_json(&Node::Object(entries)).to_string();
    assert!(written.contains(r#""in":"query""#), "{written}");
    assert!(!written.contains("in_"), "{written}");
    let inner = Parameter::decode(&json(r#"{"in_": "query"}"#)).unwrap();
    assert_eq!(inner.in_, None);
}

#[test]
fn the_kind_of_a_schema_is_written_as_type() {
    let schema = Schema::decode(&json(r#"{"type": "string"}"#)).unwrap();
    assert_eq!(schema.type_, some("string"));
    let written = to_json(&schema.encode()).to_string();
    assert!(written.contains(r#""type":"string""#), "{written}");
    assert!(!written.contains("type_"), "{written}");
    let scheme = SecurityScheme::decode(&json(r#"{"type": "apiKey", "in": "header"}"#)).unwrap();
    assert_eq!((scheme.type_.clone(), scheme.in_.clone()), (some("apiKey"), some("header")));
    let written = to_json(&scheme.encode()).to_string();
    assert!(written.contains(r#""in":"header""#) && written.contains(r#""type":"apiKey""#));
}

#[test]
fn responses_share_their_object_with_default() {
    let responses = Responses::decode(&json(
        r#"{"200": {"description": "ok"}, "default": {"description": "err"}, "404": {"description": "gone"}}"#,
    ))
    .unwrap();
    let by_code = responses.responses.as_ref().unwrap();
    assert_eq!(by_code.len(), 2);
    assert_eq!(by_code.entries[0], ("200".to_string(), response("ok")));
    assert_eq!(by_code.entries[1], ("404".to_string(), response("gone")));
    assert_eq!(by_code.get("default"), None);
    assert_eq!(responses.default, Some(response("err")));
}

#[test]
fn responses_come_back_from_their_encoding() {
    let responses = Responses {
        responses: Some(Dict {
            entries: vec![("200".to_string(), response("R1")), ("404".to_string(), response("R2"))],
        }),
        default: Some(response("R3")),
    };
    let node = responses.encode();
    let Node::Object(entries) = &node else { unreachable!() };
    let keys: Vec<&str> = entries.iter().map(|(k, _)| k.as_str()).collect();
    assert_eq!(keys, ["200", "404", "default"]);
    let back = Responses::decode(&node).unwrap();
    assert_eq!(back, responses);
    assert!(back.responses.unwrap().entries.iter().all(|(key, _)| key != "default"));
}

#[test]
fn responses_without_default_or_without_codes() {
    let only_codes = Responses::decode(&json(r#"{"200": {}}"#)).unwrap();
    assert_eq!(only_codes.default, None);
    assert_eq!(only_codes.responses.unwrap().len(), 1);
    let only_default = Responses::decode(&json(r#"{"default": {"description": "d"}}"#)).unwrap();
    assert_eq!(only_default.responses, Some(Dict { entries: vec![] }));
    assert_eq!(only_default.default, Some(response("d")));
    let null_default = Responses::decode(&json(r#"{"default": null}"#)).unwrap();
    assert_eq!(null_default.default, None);
    let none = Responses::decode(&json("{}")).unwrap();
    assert_eq!(none, Responses { responses: Some(Dict { entries: vec![] }), default: None });
    let absent = Responses { responses: None, default: Some(response("d")) };
    assert_eq!(
        absent.encode(),
        Node::Object(vec![entry("default", response("d").encode())])
    );
}

#[test]
fn a_key_of_responses_that_holds_no_response_is_a_mismatch() {
    assert_eq!(Responses::decode(&json(r#"{"200": 5}"#)), miss(&["200"]));
    assert_eq!(Responses::decode(&json(r#"{"200": null}"#)), miss(&["200"]));
    assert_eq!(Responses::decode(&json(r#"{"200": {}, "x-note": "n"}"#)), miss(&["x-note"]));
    assert_eq!(Responses::decode(&json(r#"{"default": 5}"#)), miss(&["default"]));
    assert_eq!(Responses::decode(&json(r#"{"200": {"headers": {"h": {"schema": 1}}}}"#)),
        miss(&["200", "headers", "h", "schema"]));
    assert_eq!(Responses::decode(&json(r#"[]"#)), miss(&[]));
}

#[test]
fn schemas_nest_fifty_deep() {
    let depth = 50;
    let text = "{\"items\":".repeat(depth) + "{\"type\":\"string\"}" + &"}".repeat(depth);
    let tree = json(&text);
    let schema = Schema::decode(&tree).unwrap();
    let mut inner = &schema;
    for _ in 0..depth {
        assert_eq!(inner.type_, None);
        inner = inner.items.as_ref().unwrap();
    }
    assert_eq!(inner.type_, some("string"));
    assert!(inner.items.is_none());

    let encoded = schema.encode();
    let mut node = &encoded;
    for _ in 0..depth {
        let Node::Object(entries) = node else { unreachable!() };
        assert_eq!(entries.len(), 33);
        node = &entries[find(entries, "items").unwrap()].1;
    }
    let Node::Object(entries) = node else { unreachable!() };
    assert_eq!(entries[find(entries, "type").unwrap()].1, text_node("string"));
    assert_eq!(entries[find(entries, "items").unwrap()].1, Node::Null);
    assert_eq!(Schema::decode(&encoded).unwrap(), schema);
    assert_eq!(Schema::decode(&encoded).unwrap().encode(), encoded);
}

fn text_node(s: &str) -> Node {
    text(s)
}

#[test]
fn schemas_nest_in_every_place() {
    let schema = Schema::decode(&json(
        r#"{"not": {"type": "null"},
            "allOf": [{"title": "a"}, {"title": "b"}],
            "properties": {"p": {"items": {"properties": {"q": {"type": "integer"}}}}},
            "additionalProperties": {"anyOf": [{"not": {}}]},
            "discriminator": {"propertyName": "kind"},
            "xml": {"name": "n", "attribute": true},
            "default": {"any": ["thing", 1]},
            "example": 3}"#,
    ))
    .unwrap();
    assert_eq!(schema.not.as_ref().unwrap().type_, some("null"));
    let all_of = schema.all_of.as_ref().unwrap();
    assert_eq!((all_of[0].title.clone(), all_of[1].title.clone()), (some("a"), some("b")));
    let p = schema.properties.as_ref().unwrap().get("p").unwrap();
    let q = p.items.as_ref().unwrap().properties.as_ref().unwrap().get("q").unwrap();
    assert_eq!(q.type_, some("integer"));
    let any_of = schema.additional_properties.as_ref().unwrap().any_of.as_ref().unwrap();
    assert_eq!(**any_of[0].not.as_ref().unwrap(), empty_schema());
    assert_eq!(
        schema.xml,
        Some(XML { name: some("n"), namespace: None, prefix: None, attribute: Some(true), wrapped: None })
    );
    assert_eq!(schema.default, Some(json(r#"{"any": ["thing", 1]}"#)));
    assert_eq!(schema.example, Some(Node::Number(Number::PosInt(3))));
    assert_eq!(Schema::decode(&schema.encode()).unwrap(), schema);
}

#[test]
fn a_nested_schema_of_another_shape_is_a_mismatch() {
    let cases: [(&str, &[&str]); 13] = [
        (r#"{"items": []}"#, &["items"]),
        (r#"{"not": "x"}"#, &["not"]),
        (r#"{"allOf": {}}"#, &["allOf"]),
        (r#"{"allOf": [1]}"#, &["allOf"]),
        (r#"{"oneOf": [{}, null]}"#, &["oneOf"]),
        (r#"{"anyOf": [{}, {"items": {"title": 1}}, 7]}"#, &["anyOf", "items", "title"]),
        (r#"{"properties": []}"#, &["properties"]),
        (r#"{"properties": {"p": 1}}"#, &["properties", "p"]),
        (r#"{"properties": {"a": {}, "b": {"not": {"type": 1}}}}"#, &["properties", "b", "not", "type"]),
        (r#"{"items": {"items": {"items": 3}}}"#, &["items", "items", "items"]),
        (r#"{"additionalProperties": true}"#, &["additionalProperties"]),
        (r#"{"required": "id"}"#, &["required"]),
        (r#"{"required": [1]}"#, &["required"]),
    ];
    for (bad, path) in cases {
        assert_eq!(Schema::decode(&json(bad)), miss(path), "{bad}");
    }
}

#[test]
fn a_mapping_is_looked_up_by_name() {
    let dict: Dict<String> = Dict::decode(&Node::Object(vec![
        entry("a", text("1")),
        entry("b", text("2")),
        entry("a", text("3")),
    ]))
    .unwrap();
    assert_eq!(dict.len(), 3);
    assert_eq!(dict.get("a"), Some(&"3".to_string()));
    assert_eq!(dict.get("b"), Some(&"2".to_string()));
    assert_eq!(dict.get("c"), None);
    assert_eq!(dict.get("A"), None);
    let empty: Dict<String> = Dict { entries: vec![] };
    assert_eq!(empty.len(), 0);
    assert_eq!(empty.get("a"), None);
    assert_eq!(Dict::<String>::decode(&json(r#"{"a": 1}"#)), miss(&["a"]));
    assert_eq!(Dict::<String>::decode(&json(r#"{"a": "x", "b": 1, "c": 2}"#)), miss(&["b"]));
    assert_eq!(Dict::<String>::decode(&json("[]")), miss(&[]));
}

#[test]
fn lists_and_mappings_are_encoded_in_order() {
    let tags = vec!["b".to_string(), "a".to_string()];
    assert_eq!(tags.encode(), Node::Array(vec![text("b"), text("a")]));
    assert_eq!(Vec::<String>::decode(&tags.encode()), Ok(tags));
    assert_eq!(Vec::<String>::decode(&json(r#"["a", 1]"#)), miss(&[]));
    assert_eq!(Vec::<String>::decode(&json("{}")), miss(&[]));
    let dict = Dict { entries: vec![("z".to_string(), true), ("a".to_string(), false)] };
    assert_eq!(
        dict.encode(),
        Node::Object(vec![entry("z", Node::Boolean(true)), entry("a", Node::Boolean(false))])
    );
    assert_eq!(Dict::<bool>::decode(&dict.encode()), Ok(dict));
}

#[test]
fn untyped_values_are_kept_as_they_are() {
    assert_eq!(Node::decode(&json(r#"{"a": [null]}"#)), Ok(json(r#"{"a": [null]}"#)));
    assert_eq!(Node::decode(&Node::Null), miss(&[]));
    assert_eq!(json("[1]").encode(), json("[1]"));
    assert_eq!(true.encode(), Node::Boolean(true));
    assert_eq!(7u32.encode(), Node::Number(Number::PosInt(7)));
    assert_eq!(Number::NegInt(-7).encode(), Node::Number(Number::NegInt(-7)));
    assert_eq!("s".to_string().encode(), text("s"));
}

#[test]
fn every_verb_of_a_path_has_its_own_operation() {
    let item = PathItem::decode(&json(
        r#"{"get": {"summary": "g"}, "post": {"summary": "po"}, "put": {"summary": "pu"},
            "delete": {"summary": "d"}, "patch": {"summary": "pa"}, "options": {"summary": "o"},
            "head": {"summary": "h"}, "trace": {"summary": "t"}, "connect": {"summary": "c"}}"#,
    ))
    .unwrap();
    let summary = |o: &Option<Operation>| o.as_ref().unwrap().summary.clone().unwrap();
    assert_eq!(summary(&item.get), "g");
    assert_eq!(summary(&item.post), "po");
    assert_eq!(summary(&item.put), "pu");
    assert_eq!(summary(&item.delete), "d");
    assert_eq!(summary(&item.patch), "pa");
    assert_eq!(summary(&item.options), "o");
    assert_eq!(summary(&item.head), "h");
    assert_eq!(summary(&item.trace), "t");
    assert_eq!(PathItem::decode(&item.encode()).unwrap(), item);
}

#[test]
fn flows_come_back_from_their_encoding() {
    let flow = OAuthFlow {
        authorization_url: some("a"),
        token_url: None,
        refresh_url: some("r"),
        scopes: Some(Dict { entries: vec![("read".to_string(), "everything".to_string())] }),
    };
    assert_eq!(OAuthFlow::decode(&flow.encode()), Ok(flow));
}

#[test]
fn a_mismatch_names_the_first_field_that_does_not_fit() {
    // fields are looked at in the order in which the entity holds them
    assert_eq!(Info::decode(&json(r#"{"version": 1, "title": 2}"#)), miss(&["title"]));
    assert_eq!(Info::decode(&json(r#"{"version": 1, "description": 2}"#)), miss(&["description"]));
    assert_eq!(Responses::decode(&json(r#"{"200": 5, "default": 5}"#)), miss(&["default"]));
    assert_eq!(Responses::decode(&json(r#"{"404": 5, "200": 5}"#)), miss(&["200"]));
    assert_eq!(
        Operation::decode(&json(r#"{"parameters": [{"name": "a"}, {"schema": {"type": 3}}]}"#)),
        miss(&["parameters", "schema", "type"])
    );
}

#[test]
fn a_mismatch_is_built_from_the_inside_out() {
    let inner = Mismatch::here();
    assert_eq!(inner.path, Vec::<String>::new());
    let outer = inner.under("b").under("a");
    assert_eq!(outer.path, vec!["a".to_string(), "b".to_string()]);
}
