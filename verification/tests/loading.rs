use openapi_spec::codec::Wire;
use openapi_spec::open_api::{OpenApiSpec, Responses};
use openapi_spec::{
    determine_file_type, parse_openapi_text, parse_text, DecodeFailure, FileType, OpenApiError,
};

const JSON_DOCUMENT: &str = r##"{
  "openapi": "3.0.0",
  "info": { "title": "Pets", "description": "A shop", "version": "1.0.0" },
  "servers": [ { "url": "https://example.org/v1", "description": "main" } ],
  "paths": {
    "/pets": {
      "get": {
        "tags": ["pets"],
        "summary": "List",
        "operationId": "listPets",
        "parameters": [
          { "name": "limit", "in": "query", "required": false,
            "schema": { "type": "integer", "format": "int32", "maximum": 100 } }
        ],
        "responses": {
          "200": {
            "description": "ok",
            "content": {
              "application/json": { "schema": { "$ref": "#/components/schemas/Pets" } }
            }
          },
          "default": { "description": "error" }
        }
      },
      "post": {
        "requestBody": {
          "required": true,
          "content": { "application/json": { "schema": { "type": "object" } } }
        },
        "responses": { "201": { "description": "created" } }
      }
    }
  },
  "components": {
    "schemas": {
      "Pet": {
        "type": "object",
        "required": ["id", "name"],
        "properties": {
          "id": { "type": "integer", "format": "int64" },
          "name": { "type": "string", "maxLength": 40 },
          "tag": { "type": "string", "nullable": true }
        }
      },
      "Pets": { "type": "array", "items": { "$ref": "#/components/schemas/Pet" } }
    },
    "securitySchemes": {
      "key": { "type": "apiKey", "name": "X-Key", "in": "header" }
    }
  }
}"##;

const YAML_DOCUMENT: &str = r##"openapi: 3.0.0
info:
  title: Pets
  version: 1.0.0
paths:
  /pets:
    get:
      operationId: listPets
      parameters:
        - name: limit
          in: query
          required: false
          schema:
            type: integer
            maximum: 100
      responses:
        200:
          description: ok
        default:
          description: error
components:
  schemas:
    Pet:
      type: object
      properties:
        id:
          type: integer
"##;

#[test]
fn test_parse_json() {
    let result = parse_openapi_text("test-data/openapi.json", JSON_DOCUMENT);
    println!("{:?}", result);
    assert!(result.is_ok());
}

#[test]
fn test_parse_yaml() {
    let result = parse_openapi_text("test-data/openapi.yaml", YAML_DOCUMENT);
    assert!(result.is_ok());
}

#[test]
fn json_document_is_decoded_field_by_field() {
    let doc = parse_openapi_text("test-data/openapi.json", JSON_DOCUMENT).unwrap();
    assert_eq!(doc.openapi.as_deref(), Some("3.0.0"));
    let info = doc.info.unwrap();
    assert_eq!(info.title.as_deref(), Some("Pets"));
    assert_eq!(info.description.as_deref(), Some("A shop"));
    assert_eq!(info.version.as_deref(), Some("1.0.0"));
    let servers = doc.servers.unwrap();
    assert_eq!(servers.len(), 1);
    assert_eq!(servers[0].url.as_deref(), Some("https://example.org/v1"));
    let paths = doc.paths.unwrap();
    assert_eq!(paths.len(), 1);
    let item = paths.get("/pets").unwrap();
    let get = item.get.as_ref().unwrap();
    assert_eq!(get.tags, Some(vec!["pets".to_string()]));
    assert_eq!(get.operation_id.as_deref(), Some("listPets"));
    let parameter = &get.parameters.as_ref().unwrap()[0];
    assert_eq!(parameter.in_.as_deref(), Some("query"));
    assert_eq!(parameter.required, Some(false));
    let post = item.post.as_ref().unwrap();
    assert_eq!(post.request_body.as_ref().unwrap().required, Some(true));
    assert!(item.put.is_none() && item.delete.is_none() && item.trace.is_none());
    let components = doc.components.unwrap();
    let schemas = components.schemas.unwrap();
    assert_eq!(schemas.len(), 2);
    let pet = schemas.get("Pet").unwrap();
    assert_eq!(pet.required, Some(vec!["id".to_string(), "name".to_string()]));
    let name = pet.properties.as_ref().unwrap().get("name").unwrap();
    assert_eq!(name.max_length, Some(40));
    let pets = schemas.get("Pets").unwrap();
    assert!(pets.items.is_some());
    let scheme = components.security_schemes.as_ref().unwrap().get("key").unwrap();
    assert_eq!(scheme.type_.as_deref(), Some("apiKey"));
    assert_eq!(scheme.in_.as_deref(), Some("header"));
    assert!(components.headers.is_none());
}

#[test]
fn yaml_document_is_decoded_field_by_field() {
    let doc = parse_openapi_text("api.yml", YAML_DOCUMENT).unwrap();
    assert_eq!(doc.openapi.as_deref(), Some("3.0.0"));
    assert_eq!(doc.info.unwrap().version.as_deref(), Some("1.0.0"));
    let paths = doc.paths.unwrap();
    let get = paths.get("/pets").unwrap().get.as_ref().unwrap();
    let responses = get.responses.as_ref().unwrap();
    let by_code = responses.responses.as_ref().unwrap();
    assert_eq!(by_code.len(), 1);
    assert_eq!(by_code.get("200").unwrap().description.as_deref(), Some("ok"));
    assert_eq!(responses.default.as_ref().unwrap().description.as_deref(), Some("error"));
    assert!(doc.servers.is_none());
}

#[test]
fn both_encodings_give_the_same_document() {
    let json = r#"{"openapi":"3.0.0","paths":{"/x":{"get":{"summary":"s"}}}}"#;
    let yaml = "openapi: 3.0.0\npaths:\n  /x:\n    get:\n      summary: s\n";
    let a = parse_text(FileType::Json, json).unwrap();
    let b = parse_text(FileType::Yaml, yaml).unwrap();
    assert_eq!(a, b);
}

#[test]
fn end_to_end_example() {
    let text = r#"{"openapi":"3.0.0","info":{"title":"T","version":"1.0"},"paths":{"/x":{"get":{"responses":{"200":{"description":"ok"},"default":{"description":"err"}}}}}}"#;
    let doc = parse_openapi_text("spec.json", text).unwrap();
    assert_eq!(doc.info.as_ref().unwrap().title.as_deref(), Some("T"));
    let paths = doc.paths.as_ref().unwrap();
    assert_eq!(paths.len(), 1);
    assert_eq!(paths.entries[0].0, "/x");
    let get = paths.get("/x").unwrap().get.as_ref().unwrap();
    let responses: &Responses = get.responses.as_ref().unwrap();
    let by_code = responses.responses.as_ref().unwrap();
    assert_eq!(by_code.get("200").unwrap().description.as_deref(), Some("ok"));
    assert!(by_code.get("default").is_none());
    assert_eq!(responses.default.as_ref().unwrap().description.as_deref(), Some("err"));
}

#[test]
fn unsupported_extension_fails_whatever_the_contents() {
    assert!(matches!(
        parse_openapi_text("spec.txt", "{}"),
        Err(OpenApiError::UnsupportedFormat)
    ));
    assert!(matches!(
        parse_openapi_text("spec.txt", "not a document {"),
        Err(OpenApiError::UnsupportedFormat)
    ));
}

#[test]
fn extensions_are_classified() {
    assert_eq!(determine_file_type("spec.json").unwrap(), FileType::Json);
    assert_eq!(determine_file_type("spec.yaml").unwrap(), FileType::Yaml);
    assert_eq!(determine_file_type("spec.yml").unwrap(), FileType::Yaml);
    assert_eq!(determine_file_type("/var/data/api.v2.json").unwrap(), FileType::Json);
    assert_eq!(determine_file_type("dir.txt/api.yml").unwrap(), FileType::Yaml);
    assert_eq!(determine_file_type("..json").unwrap(), FileType::Json);
    assert_eq!(determine_file_type("données/é.yaml").unwrap(), FileType::Yaml);
}

#[test]
fn other_extensions_are_refused() {
    for path in [
        "spec.txt", "spec", "", ".", "..", "/", "spec.", "spec.json.bak", "spec.jso", "spec.jsonx",
        "spec.yamls", "json", "yaml", "yml", "dir.json/spec", "a/b.yml/c.d", "spec.json/..",
        "./", "//", "spec.json/.x", "spec.json./",
    ] {
        assert!(
            matches!(determine_file_type(path), Err(OpenApiError::UnsupportedFormat)),
            "{path}"
        );
    }
}

#[test]
fn what_follows_the_last_component_is_left_out() {
    assert_eq!(determine_file_type("spec.json/").unwrap(), FileType::Json);
    assert_eq!(determine_file_type("spec.json//").unwrap(), FileType::Json);
    assert_eq!(determine_file_type("spec.yaml/.").unwrap(), FileType::Yaml);
    assert_eq!(determine_file_type("dir/spec.yml/./").unwrap(), FileType::Yaml);
    assert_eq!(determine_file_type("./spec.json").unwrap(), FileType::Json);
    assert_eq!(determine_file_type(".json/").unwrap(), FileType::Json);
}

#[test]
fn a_name_that_is_only_an_extension_is_classified() {
    assert_eq!(determine_file_type(".json").unwrap(), FileType::Json);
    assert_eq!(determine_file_type("dir/.yaml").unwrap(), FileType::Yaml);
    assert_eq!(determine_file_type("dir/.yml").unwrap(), FileType::Yaml);
    assert_eq!(determine_file_type("/.json").unwrap(), FileType::Json);
    assert!(matches!(determine_file_type(".txt"), Err(OpenApiError::UnsupportedFormat)));
    assert!(matches!(determine_file_type(".jsonx"), Err(OpenApiError::UnsupportedFormat)));
}

#[test]
fn extensions_are_compared_as_written() {
    assert!(matches!(determine_file_type("spec.JSON"), Err(OpenApiError::UnsupportedFormat)));
    assert!(matches!(determine_file_type("spec.Yaml"), Err(OpenApiError::UnsupportedFormat)));
    assert!(matches!(determine_file_type("spec.YML"), Err(OpenApiError::UnsupportedFormat)));
}

#[test]
fn empty_document_has_every_field_absent() {
    let doc = parse_text(FileType::Json, "{}").unwrap();
    assert_eq!(
        doc,
        OpenApiSpec { openapi: None, info: None, paths: None, components: None, servers: None }
    );
    let doc = parse_text(FileType::Yaml, "{}").unwrap();
    assert!(doc.openapi.is_none() && doc.info.is_none() && doc.paths.is_none());
    assert!(doc.components.is_none() && doc.servers.is_none());
}

#[test]
fn invalid_json_is_refused_by_the_decoder() {
    let r = parse_openapi_text("spec.json", "{\"openapi\": ");
    match r {
        Err(OpenApiError::JsonParseError(DecodeFailure::Decoder(e))) => {
            assert_eq!(e.line(), 1);
            assert!(e.is_eof());
        }
        other => panic!("{other:?}"),
    }
    // YAML that is no JSON
    assert!(matches!(
        parse_text(FileType::Json, "openapi: 3.0.0"),
        Err(OpenApiError::JsonParseError(DecodeFailure::Decoder(_)))
    ));
}

#[test]
fn invalid_yaml_is_refused_by_the_decoder() {
    let r = parse_openapi_text("spec.yaml", "openapi: [1, 2");
    assert!(matches!(r, Err(OpenApiError::YamlParseError(DecodeFailure::Decoder(_)))));
    let r = parse_openapi_text("spec.yml", "a: b: c: d");
    assert!(matches!(r, Err(OpenApiError::YamlParseError(DecodeFailure::Decoder(_)))));
}

#[test]
fn a_tree_of_another_shape_is_a_shape_failure() {
    for text in ["{\"openapi\": 3}", "{\"info\": []}",
        "{\"paths\": {\"/x\": 1}}", "{\"servers\": {}}",
        "{\"paths\": {\"/x\": {\"get\": {\"responses\": {\"200\": 5}}}}}"]
    {
        assert!(
            matches!(
                parse_text(FileType::Json, text),
                Err(OpenApiError::JsonParseError(DecodeFailure::Shape(_)))
            ),
            "{text}"
        );
    }
    assert!(matches!(
        parse_openapi_text("spec.yaml", "paths:\n  /x: [1]\n"),
        Err(OpenApiError::YamlParseError(DecodeFailure::Shape(_)))
    ));
    assert!(matches!(
        parse_openapi_text("spec.yml", "info: 12\n"),
        Err(OpenApiError::YamlParseError(DecodeFailure::Shape(_)))
    ));
}

#[test]
fn a_shape_failure_names_the_keys_that_lead_to_the_field() {
    let text = r#"{"paths": {"/x": {"get": {"responses": {"200": 5}}}}}"#;
    match parse_openapi_text("spec.json", text) {
        Err(OpenApiError::JsonParseError(DecodeFailure::Shape(m))) => {
            assert_eq!(m.path, ["paths", "/x", "get", "responses", "200"]);
        }
        other => panic!("{other:?}"),
    }
    let text = "components:\n  schemas:\n    Pet:\n      properties:\n        id:\n          maxLength: -1\n";
    match parse_openapi_text("spec.yaml", text) {
        Err(OpenApiError::YamlParseError(DecodeFailure::Shape(m))) => {
            assert_eq!(m.path, ["components", "schemas", "Pet", "properties", "id", "maxLength"]);
        }
        other => panic!("{other:?}"),
    }
}

#[test]
fn yaml_text_that_looks_like_a_number_has_to_be_quoted() {
    for text in ["info:\n  version: 1.0\n", "info:\n  version: 2024\n", "info:\n  version: true\n"] {
        match parse_openapi_text("spec.yaml", text) {
            Err(OpenApiError::YamlParseError(DecodeFailure::Shape(m))) => {
                assert_eq!(m.path, ["info", "version"], "{text}");
            }
            other => panic!("{other:?}"),
        }
    }
    let doc = parse_openapi_text("spec.yaml", "info:\n  version: \"1.0\"\n  title: '2024'\n").unwrap();
    let info = doc.info.unwrap();
    assert_eq!(info.version.as_deref(), Some("1.0"));
    assert_eq!(info.title.as_deref(), Some("2024"));
    let doc = parse_openapi_text("spec.yaml", "info:\n  version: 1.0.0\n").unwrap();
    assert_eq!(doc.info.unwrap().version.as_deref(), Some("1.0.0"));
}

#[test]
fn a_json_key_that_is_written_twice_keeps_its_last_value() {
    let doc = parse_openapi_text("spec.json", r#"{"openapi": "3.0.0", "openapi": "3.1.0"}"#).unwrap();
    assert_eq!(doc.openapi.as_deref(), Some("3.1.0"));
}

#[test]
fn a_text_that_is_no_mapping_is_refused_by_the_decoder() {
    for text in ["[]", "null", "3", "\"openapi\""] {
        assert!(
            matches!(
                parse_text(FileType::Json, text),
                Err(OpenApiError::JsonParseError(DecodeFailure::Decoder(_)))
            ),
            "{text}"
        );
    }
    for text in ["- a\n- b\n", "~", "3"] {
        assert!(
            matches!(
                parse_text(FileType::Yaml, text),
                Err(OpenApiError::YamlParseError(DecodeFailure::Decoder(_)))
            ),
            "{text}"
        );
    }
}

#[test]
fn an_empty_yaml_text_is_the_empty_document() {
    let doc = parse_openapi_text("empty.yaml", "").unwrap();
    assert_eq!(
        doc,
        OpenApiSpec { openapi: None, info: None, paths: None, components: None, servers: None }
    );
    assert!(matches!(
        parse_openapi_text("empty.json", ""),
        Err(OpenApiError::JsonParseError(DecodeFailure::Decoder(_)))
    ));
}

#[test]
fn a_read_failure_keeps_the_cause() {
    let cause = std::io::Error::new(std::io::ErrorKind::NotFound, "gone");
    let e = OpenApiError::ReadError(cause);
    match e {
        OpenApiError::ReadError(inner) => assert_eq!(inner.kind(), std::io::ErrorKind::NotFound),
        other => panic!("{other:?}"),
    }
}

#[test]
fn decoding_twice_gives_equal_documents() {
    let a = parse_openapi_text("a.json", JSON_DOCUMENT).unwrap();
    let b = parse_openapi_text("b.json", JSON_DOCUMENT).unwrap();
    assert_eq!(a, b);
    let again = OpenApiSpec::decode(&a.encode()).unwrap();
    assert_eq!(a, again);
}
