//! Laws of single entities.
//!
//! Each type of the model states four laws of its own through [`Wire`]:
//! decoding what was encoded gives the value back, what is decoded from a
//! well-formed tree is valid, what is encoded from a valid value is
//! well-formed, and a tree that decodes has no fault. The laws here say more
//! of the document, of the responses of an operation, of the two fields that
//! have another name on the wire, and of schemas that hold schemas.

use vstd::prelude::*;

use crate::codec::{at, lemma_field_absent, tree_of, Wire};
use crate::collection::Dict;
use crate::open_api::basic::{Discriminator, Info, Server, XML};
use crate::open_api::content::{Parameter, ParameterModel, Response};
use crate::open_api::document::{Components, OpenApiSpec, OpenApiSpecModel};
use crate::open_api::paths::PathItem;
use crate::open_api::responses::{key_free, lemma_without, without, Responses};
use crate::open_api::schema::{
    nested_at, nested_dict_at, nested_list_at, schema_decoded, schema_encoded, SchemaModel,
};
use crate::tree::{lemma_last_index_is, lookup, Node, Number, Tree};

verus! {

/// The document in which every field is absent.
pub open spec fn empty_document() -> OpenApiSpecModel {
    OpenApiSpecModel { openapi: None, info: None, paths: None, components: None, servers: None }
}

/// An object that holds none of the keys of a document decodes to the empty
/// document: no field has to be there.
pub proof fn lemma_document_fields_are_optional(e: Seq<(Seq<char>, Tree)>)
    requires
        key_free(e, "openapi"@),
        key_free(e, "info"@),
        key_free(e, "paths"@),
        key_free(e, "components"@),
        key_free(e, "servers"@),
    ensures
        OpenApiSpec::decoded(Tree::Object(e)) == Some(empty_document()),
{
    lemma_field_absent::<String>(e, "openapi"@);
    lemma_field_absent::<Info>(e, "info"@);
    lemma_field_absent::<Dict<PathItem>>(e, "paths"@);
    lemma_field_absent::<Components>(e, "components"@);
    lemma_field_absent::<Vec<Server>>(e, "servers"@);
}

/// The object without entries decodes to the empty document.
pub proof fn lemma_empty_object_is_empty_document()
    ensures
        OpenApiSpec::decoded(Tree::Object(Seq::empty())) == Some(empty_document()),
{
    lemma_document_fields_are_optional(Seq::empty());
}

/// Decoding a document looks only at what its object holds under the five
/// keys of a document: two objects that agree there decode alike, whatever
/// other keys they hold.
pub proof fn lemma_other_keys_are_passed_over(
    a: Seq<(Seq<char>, Tree)>,
    b: Seq<(Seq<char>, Tree)>,
)
    requires
        lookup(a, "openapi"@) == lookup(b, "openapi"@),
        lookup(a, "info"@) == lookup(b, "info"@),
        lookup(a, "paths"@) == lookup(b, "paths"@),
        lookup(a, "components"@) == lookup(b, "components"@),
        lookup(a, "servers"@) == lookup(b, "servers"@),
    ensures
        OpenApiSpec::decoded(Tree::Object(a)) == OpenApiSpec::decoded(Tree::Object(b)),
{
}

/// Whatever object the responses of an operation are decoded from, the
/// mapping by status code is there and holds no entry under `default`, and
/// the response under `default` is what the object holds under that key.
pub proof fn lemma_default_is_no_status_code(tree: Tree)
    requires
        Responses::decoded(tree) is Some,
    ensures
        Responses::decoded(tree)->0.responses is Some,
        key_free(Responses::decoded(tree)->0.responses->0, "default"@),
        Some(Responses::decoded(tree)->0.default) == at::<Response>(tree->Object_0, "default"@),
{
    let e = tree->Object_0;
    let w = without(e, "default"@);
    lemma_without(e, "default"@);
    let d = Responses::decoded(tree)->0.responses->0;
    assert forall|i: int| 0 <= i < d.len() implies (#[trigger] d[i]).0 != "default"@ by {
        assert(w[i].0 != "default"@);
    }
}

/// The location of a parameter goes by the name `in` on the wire: it is
/// decoded from the key `in`, and it is encoded under the key `in` and under
/// no key `in_`.
pub proof fn lemma_parameter_location_is_in(tree: Tree, model: ParameterModel)
    ensures
        Parameter::decoded(tree) is Some ==> Some(Parameter::decoded(tree)->0.in_) == at::<String>(
            tree->Object_0,
            "in"@,
        ),
        lookup(Parameter::encoded(model)->Object_0, "in"@) == Some(tree_of::<String>(model.in_)),
        lookup(Parameter::encoded(model)->Object_0, "in_"@) is None,
{
    let e = Parameter::encoded(model)->Object_0;
    reveal_strlit("name");
    reveal_strlit("in");
    reveal_strlit("in_");
    reveal_strlit("required");
    reveal_strlit("schema");
    reveal_strlit("description");
    reveal_strlit("example");
    reveal_strlit("examples");
    assert("name"@.len() == 4);
    assert("in"@.len() == 2);
    assert("in_"@.len() == 3);
    assert("required"@.len() == 8);
    assert("schema"@.len() == 6);
    assert("description"@.len() == 11);
    assert("example"@.len() == 7);
    assert("examples"@.len() == 8);
    assert(e.len() == 7);
    lemma_last_index_is(e, "in"@, 1);
    lemma_last_index_is(e, "in_"@, -1);
}

/// The kind of a schema goes by the name `type` on the wire.
pub proof fn lemma_schema_kind_is_type(tree: Tree, model: SchemaModel)
    ensures
        schema_decoded(tree) is Some ==> Some(schema_decoded(tree)->0.type_) == at::<String>(
            tree->Object_0,
            "type"@,
        ),
        lookup(schema_encoded(model)->Object_0, "type"@) == Some(tree_of::<String>(model.type_)),
{
    let e = schema_encoded(model)->Object_0;
    reveal_strlit("type");
    reveal_strlit("not");
    reveal_strlit("allOf");
    reveal_strlit("oneOf");
    reveal_strlit("anyOf");
    reveal_strlit("items");
    reveal_strlit("properties");
    reveal_strlit("additionalProperties");
    reveal_strlit("description");
    reveal_strlit("format");
    reveal_strlit("default");
    reveal_strlit("nullable");
    reveal_strlit("discriminator");
    reveal_strlit("readOnly");
    reveal_strlit("writeOnly");
    reveal_strlit("xml");
    reveal_strlit("example");
    reveal_strlit("deprecated");
    assert("type"@.len() == 4);
    assert("not"@.len() == 3);
    assert("allOf"@.len() == 5);
    assert("oneOf"@.len() == 5);
    assert("anyOf"@.len() == 5);
    assert("items"@.len() == 5);
    assert("properties"@.len() == 10);
    assert("additionalProperties"@.len() == 20);
    assert("description"@.len() == 11);
    assert("format"@.len() == 6);
    assert("default"@.len() == 7);
    assert("nullable"@.len() == 8);
    assert("discriminator"@.len() == 13);
    assert("readOnly"@.len() == 8);
    assert("writeOnly"@.len() == 9);
    assert("xml"@.len() == 3);
    assert("example"@.len() == 7);
    assert("deprecated"@.len() == 10);
    assert(e.len() == 33);
    lemma_last_index_is(e, "type"@, 15);
}

/// The schema in which every field is absent.
pub open spec fn empty_schema() -> SchemaModel {
    SchemaModel {
        title: None,
        multiple_of: None,
        maximum: None,
        exclusive_maximum: None,
        minimum: None,
        exclusive_minimum: None,
        max_length: None,
        min_length: None,
        pattern: None,
        max_items: None,
        min_items: None,
        unique_items: None,
        max_properties: None,
        min_properties: None,
        required: None,
        type_: None,
        not: None,
        all_of: None,
        one_of: None,
        any_of: None,
        items: None,
        properties: None,
        additional_properties: None,
        description: None,
        format: None,
        default: None,
        nullable: None,
        discriminator: None,
        read_only: None,
        write_only: None,
        xml: None,
        example: None,
        deprecated: None,
    }
}

/// The schema that holds `depth` schemas, each as the `items` of the one
/// before it.
pub open spec fn tower(depth: nat) -> SchemaModel
    decreases depth,
{
    if depth == 0 {
        empty_schema()
    } else {
        SchemaModel { items: Some(Box::new(tower((depth - 1) as nat))), ..empty_schema() }
    }
}

/// The tree of as many objects, each under the key `items` of the one before
/// it.
pub open spec fn tower_tree(depth: nat) -> Tree
    decreases depth,
{
    if depth == 0 {
        Tree::Object(Seq::empty())
    } else {
        Tree::Object(Seq::empty().push(("items"@, tower_tree((depth - 1) as nat))))
    }
}

/// In an object that holds no key but `items`, every other field of a schema
/// is absent.
proof fn lemma_items_only(e: Seq<(Seq<char>, Tree)>)
    requires
        forall|i: int| 0 <= i < e.len() ==> (#[trigger] e[i]).0 == "items"@,
    ensures
        at::<String>(e, "title"@) is Some && at::<String>(e, "title"@)->0 is None,
        at::<Number>(e, "multipleOf"@) is Some && at::<Number>(e, "multipleOf"@)->0 is None,
        at::<Number>(e, "maximum"@) is Some && at::<Number>(e, "maximum"@)->0 is None,
        at::<bool>(e, "exclusiveMaximum"@) is Some && at::<bool>(e, "exclusiveMaximum"@)->0 is None,
        at::<Number>(e, "minimum"@) is Some && at::<Number>(e, "minimum"@)->0 is None,
        at::<bool>(e, "exclusiveMinimum"@) is Some && at::<bool>(e, "exclusiveMinimum"@)->0 is None,
        at::<u32>(e, "maxLength"@) is Some && at::<u32>(e, "maxLength"@)->0 is None,
        at::<u32>(e, "minLength"@) is Some && at::<u32>(e, "minLength"@)->0 is None,
        at::<String>(e, "pattern"@) is Some && at::<String>(e, "pattern"@)->0 is None,
        at::<u32>(e, "maxItems"@) is Some && at::<u32>(e, "maxItems"@)->0 is None,
        at::<u32>(e, "minItems"@) is Some && at::<u32>(e, "minItems"@)->0 is None,
        at::<bool>(e, "uniqueItems"@) is Some && at::<bool>(e, "uniqueItems"@)->0 is None,
        at::<u32>(e, "maxProperties"@) is Some && at::<u32>(e, "maxProperties"@)->0 is None,
        at::<u32>(e, "minProperties"@) is Some && at::<u32>(e, "minProperties"@)->0 is None,
        at::<Vec<String>>(e, "required"@) is Some && at::<Vec<String>>(e, "required"@)->0 is None,
        at::<String>(e, "type"@) is Some && at::<String>(e, "type"@)->0 is None,
        nested_at(e, "not"@) == Some(None::<Box<SchemaModel>>),
        nested_list_at(e, "allOf"@) == Some(None::<Seq<SchemaModel>>),
        nested_list_at(e, "oneOf"@) == Some(None::<Seq<SchemaModel>>),
        nested_list_at(e, "anyOf"@) == Some(None::<Seq<SchemaModel>>),
        nested_dict_at(e, "properties"@) == Some(None::<Seq<(Seq<char>, SchemaModel)>>),
        nested_at(e, "additionalProperties"@) == Some(None::<Box<SchemaModel>>),
        at::<String>(e, "description"@) is Some && at::<String>(e, "description"@)->0 is None,
        at::<String>(e, "format"@) is Some && at::<String>(e, "format"@)->0 is None,
        at::<Node>(e, "default"@) is Some && at::<Node>(e, "default"@)->0 is None,
        at::<bool>(e, "nullable"@) is Some && at::<bool>(e, "nullable"@)->0 is None,
        at::<Discriminator>(e, "discriminator"@) is Some && at::<Discriminator>(
            e,
            "discriminator"@,
        )->0 is None,
        at::<bool>(e, "readOnly"@) is Some && at::<bool>(e, "readOnly"@)->0 is None,
        at::<bool>(e, "writeOnly"@) is Some && at::<bool>(e, "writeOnly"@)->0 is None,
        at::<XML>(e, "xml"@) is Some && at::<XML>(e, "xml"@)->0 is None,
        at::<Node>(e, "example"@) is Some && at::<Node>(e, "example"@)->0 is None,
        at::<bool>(e, "deprecated"@) is Some && at::<bool>(e, "deprecated"@)->0 is None,
{
    reveal_strlit("items");
    reveal_strlit("title");
    reveal_strlit("multipleOf");
    reveal_strlit("maximum");
    reveal_strlit("exclusiveMaximum");
    reveal_strlit("minimum");
    reveal_strlit("exclusiveMinimum");
    reveal_strlit("maxLength");
    reveal_strlit("minLength");
    reveal_strlit("pattern");
    reveal_strlit("maxItems");
    reveal_strlit("minItems");
    reveal_strlit("uniqueItems");
    reveal_strlit("maxProperties");
    reveal_strlit("minProperties");
    reveal_strlit("required");
    reveal_strlit("type");
    reveal_strlit("not");
    reveal_strlit("allOf");
    reveal_strlit("oneOf");
    reveal_strlit("anyOf");
    reveal_strlit("properties");
    reveal_strlit("additionalProperties");
    reveal_strlit("description");
    reveal_strlit("format");
    reveal_strlit("default");
    reveal_strlit("nullable");
    reveal_strlit("discriminator");
    reveal_strlit("readOnly");
    reveal_strlit("writeOnly");
    reveal_strlit("xml");
    reveal_strlit("example");
    reveal_strlit("deprecated");
    assert("items"@.len() == 5 && "items"@[0] == 'i');
    assert("title"@.len() == 5 && "title"@[0] == 't');
    assert("multipleOf"@.len() == 10);
    assert("maximum"@.len() == 7);
    assert("exclusiveMaximum"@.len() == 16);
    assert("minimum"@.len() == 7);
    assert("exclusiveMinimum"@.len() == 16);
    assert("maxLength"@.len() == 9);
    assert("minLength"@.len() == 9);
    assert("pattern"@.len() == 7);
    assert("maxItems"@.len() == 8);
    assert("minItems"@.len() == 8);
    assert("uniqueItems"@.len() == 11);
    assert("maxProperties"@.len() == 13);
    assert("minProperties"@.len() == 13);
    assert("required"@.len() == 8);
    assert("type"@.len() == 4);
    assert("not"@.len() == 3);
    assert("allOf"@.len() == 5 && "allOf"@[0] == 'a');
    assert("oneOf"@.len() == 5 && "oneOf"@[0] == 'o');
    assert("anyOf"@.len() == 5 && "anyOf"@[0] == 'a');
    assert("properties"@.len() == 10);
    assert("additionalProperties"@.len() == 20);
    assert("description"@.len() == 11);
    assert("format"@.len() == 6);
    assert("default"@.len() == 7);
    assert("nullable"@.len() == 8);
    assert("discriminator"@.len() == 13);
    assert("readOnly"@.len() == 8);
    assert("writeOnly"@.len() == 9);
    assert("xml"@.len() == 3);
    assert("example"@.len() == 7);
    assert("deprecated"@.len() == 10);
    lemma_last_index_is(e, "title"@, -1);
    lemma_last_index_is(e, "multipleOf"@, -1);
    lemma_last_index_is(e, "maximum"@, -1);
    lemma_last_index_is(e, "exclusiveMaximum"@, -1);
    lemma_last_index_is(e, "minimum"@, -1);
    lemma_last_index_is(e, "exclusiveMinimum"@, -1);
    lemma_last_index_is(e, "maxLength"@, -1);
    lemma_last_index_is(e, "minLength"@, -1);
    lemma_last_index_is(e, "pattern"@, -1);
    lemma_last_index_is(e, "maxItems"@, -1);
    lemma_last_index_is(e, "minItems"@, -1);
    lemma_last_index_is(e, "uniqueItems"@, -1);
    lemma_last_index_is(e, "maxProperties"@, -1);
    lemma_last_index_is(e, "minProperties"@, -1);
    lemma_last_index_is(e, "required"@, -1);
    lemma_last_index_is(e, "type"@, -1);
    lemma_last_index_is(e, "not"@, -1);
    lemma_last_index_is(e, "allOf"@, -1);
    lemma_last_index_is(e, "oneOf"@, -1);
    lemma_last_index_is(e, "anyOf"@, -1);
    lemma_last_index_is(e, "properties"@, -1);
    lemma_last_index_is(e, "additionalProperties"@, -1);
    lemma_last_index_is(e, "description"@, -1);
    lemma_last_index_is(e, "format"@, -1);
    lemma_last_index_is(e, "default"@, -1);
    lemma_last_index_is(e, "nullable"@, -1);
    lemma_last_index_is(e, "discriminator"@, -1);
    lemma_last_index_is(e, "readOnly"@, -1);
    lemma_last_index_is(e, "writeOnly"@, -1);
    lemma_last_index_is(e, "xml"@, -1);
    lemma_last_index_is(e, "example"@, -1);
    lemma_last_index_is(e, "deprecated"@, -1);
}

/// Schemas decode at every depth of nesting.
pub proof fn lemma_schemas_nest_to_any_depth(depth: nat)
    ensures
        schema_decoded(tower_tree(depth)) == Some(tower(depth)),
    decreases depth,
{
    let e = tower_tree(depth)->Object_0;
    lemma_items_only(e);
    if depth == 0 {
        lemma_last_index_is(e, "items"@, -1);
    } else {
        lemma_schemas_nest_to_any_depth((depth - 1) as nat);
        lemma_last_index_is(e, "items"@, 0);
    }
}

} // verus!
