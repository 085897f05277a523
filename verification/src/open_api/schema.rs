//! The schema, the one entity that holds itself.

use vstd::prelude::*;

use crate::codec::{
    at, at_fault, below, emit, field, find, lemma_field_round_trip, lemma_field_valid,
    lemma_tree_of_well_formed, new_object, opt_model, opt_valid, push_entry, tree_of, Mismatch,
    Wire,
};
use crate::collection::Dict;
use crate::open_api::basic::{Discriminator, DiscriminatorModel, XMLModel, XML};
use crate::tree::{
    distinct_keys, entries_view, items_view, last_index, lemma_last_index_is, Node, Number,
    Tree,
};

verus! {

/// A description of a type of value, in the style of JSON Schema.
///
/// A schema holds schemas: each nested schema belongs to the one that holds
/// it.
#[derive(Debug, PartialEq)]
pub struct Schema {
    pub title: Option<String>,
    pub multiple_of: Option<Number>,
    pub maximum: Option<Number>,
    pub exclusive_maximum: Option<bool>,
    pub minimum: Option<Number>,
    pub exclusive_minimum: Option<bool>,
    pub max_length: Option<u32>,
    pub min_length: Option<u32>,
    pub pattern: Option<String>,
    pub max_items: Option<u32>,
    pub min_items: Option<u32>,
    pub unique_items: Option<bool>,
    pub max_properties: Option<u32>,
    pub min_properties: Option<u32>,
    /// The names of the properties that a value must have.
    pub required: Option<Vec<String>>,
    /// The kind of value; `type` on the wire.
    pub type_: Option<String>,
    pub not: Option<Box<Schema>>,
    pub all_of: Option<Vec<Schema>>,
    pub one_of: Option<Vec<Schema>>,
    pub any_of: Option<Vec<Schema>>,
    pub items: Option<Box<Schema>>,
    pub properties: Option<Dict<Schema>>,
    pub additional_properties: Option<Box<Schema>>,
    pub description: Option<String>,
    pub format: Option<String>,
    pub default: Option<Node>,
    pub nullable: Option<bool>,
    pub discriminator: Option<Discriminator>,
    pub read_only: Option<bool>,
    pub write_only: Option<bool>,
    pub xml: Option<XML>,
    pub example: Option<Node>,
    pub deprecated: Option<bool>,
}

/// The model of a [`Schema`].
pub struct SchemaModel {
    pub title: Option<Seq<char>>,
    pub multiple_of: Option<Number>,
    pub maximum: Option<Number>,
    pub exclusive_maximum: Option<bool>,
    pub minimum: Option<Number>,
    pub exclusive_minimum: Option<bool>,
    pub max_length: Option<u32>,
    pub min_length: Option<u32>,
    pub pattern: Option<Seq<char>>,
    pub max_items: Option<u32>,
    pub min_items: Option<u32>,
    pub unique_items: Option<bool>,
    pub max_properties: Option<u32>,
    pub min_properties: Option<u32>,
    pub required: Option<Seq<Seq<char>>>,
    pub type_: Option<Seq<char>>,
    pub not: Option<Box<SchemaModel>>,
    pub all_of: Option<Seq<SchemaModel>>,
    pub one_of: Option<Seq<SchemaModel>>,
    pub any_of: Option<Seq<SchemaModel>>,
    pub items: Option<Box<SchemaModel>>,
    pub properties: Option<Seq<(Seq<char>, SchemaModel)>>,
    pub additional_properties: Option<Box<SchemaModel>>,
    pub description: Option<Seq<char>>,
    pub format: Option<Seq<char>>,
    pub default: Option<Tree>,
    pub nullable: Option<bool>,
    pub discriminator: Option<DiscriminatorModel>,
    pub read_only: Option<bool>,
    pub write_only: Option<bool>,
    pub xml: Option<XMLModel>,
    pub example: Option<Tree>,
    pub deprecated: Option<bool>,
}

/// The model of a nested schema.
pub open spec fn nested_model(x: Option<Box<Schema>>) -> Option<Box<SchemaModel>>
    decreases x,
{
    match x {
        Some(s) => Some(Box::new(schema_model(*s))),
        None => None,
    }
}

/// The models of a list of nested schemas.
pub open spec fn nested_list_model(x: Option<Vec<Schema>>) -> Option<Seq<SchemaModel>>
    decreases x,
{
    match x {
        Some(v) => Some(
            Seq::new(
                v@.len(),
                |i: int|
                    if 0 <= i < v@.len() {
                        schema_model(v@[i])
                    } else {
                        arbitrary()
                    },
            ),
        ),
        None => None,
    }
}

/// The models of a mapping of nested schemas.
pub open spec fn nested_dict_model(x: Option<Dict<Schema>>) -> Option<Seq<(Seq<char>, SchemaModel)>>
    decreases x,
{
    match x {
        Some(d) => Some(
            Seq::new(
                d.entries@.len(),
                |i: int|
                    if 0 <= i < d.entries@.len() {
                        (d.entries@[i].0@, schema_model(d.entries@[i].1))
                    } else {
                        arbitrary()
                    },
            ),
        ),
        None => None,
    }
}

/// The model of a schema.
pub open spec fn schema_model(s: Schema) -> SchemaModel
    decreases s,
{
    SchemaModel {
        title: opt_model(s.title),
        multiple_of: opt_model(s.multiple_of),
        maximum: opt_model(s.maximum),
        exclusive_maximum: opt_model(s.exclusive_maximum),
        minimum: opt_model(s.minimum),
        exclusive_minimum: opt_model(s.exclusive_minimum),
        max_length: opt_model(s.max_length),
        min_length: opt_model(s.min_length),
        pattern: opt_model(s.pattern),
        max_items: opt_model(s.max_items),
        min_items: opt_model(s.min_items),
        unique_items: opt_model(s.unique_items),
        max_properties: opt_model(s.max_properties),
        min_properties: opt_model(s.min_properties),
        required: opt_model(s.required),
        type_: opt_model(s.type_),
        not: nested_model(s.not),
        all_of: nested_list_model(s.all_of),
        one_of: nested_list_model(s.one_of),
        any_of: nested_list_model(s.any_of),
        items: nested_model(s.items),
        properties: nested_dict_model(s.properties),
        additional_properties: nested_model(s.additional_properties),
        description: opt_model(s.description),
        format: opt_model(s.format),
        default: opt_model(s.default),
        nullable: opt_model(s.nullable),
        discriminator: opt_model(s.discriminator),
        read_only: opt_model(s.read_only),
        write_only: opt_model(s.write_only),
        xml: opt_model(s.xml),
        example: opt_model(s.example),
        deprecated: opt_model(s.deprecated),
    }
}

/// The nested schema under `key` of an object: absent where the object has
/// no such key or holds `null` under it.
pub open spec fn nested_at(e: Seq<(Seq<char>, Tree)>, key: Seq<char>) -> Option<
    Option<Box<SchemaModel>>,
>
    decreases e,
{
    let i = last_index(e, key);
    if 0 <= i < e.len() && !(e[i].1 is Null) {
        match schema_decoded(e[i].1) {
            Some(m) => Some(Some(Box::new(m))),
            None => None,
        }
    } else {
        Some(None)
    }
}

/// The list of nested schemas under `key` of an object: an array, each item
/// of which is a schema.
pub open spec fn nested_list_at(e: Seq<(Seq<char>, Tree)>, key: Seq<char>) -> Option<
    Option<Seq<SchemaModel>>,
>
    decreases e,
{
    let i = last_index(e, key);
    if 0 <= i < e.len() && !(e[i].1 is Null) {
        match e[i].1 {
            Tree::Array(items) => if forall|j: int|
                0 <= j < items.len() ==> schema_decoded(#[trigger] items[j]) is Some {
                Some(
                    Some(
                        Seq::new(
                            items.len(),
                            |j: int|
                                if 0 <= j < items.len() {
                                    schema_decoded(items[j])->0
                                } else {
                                    arbitrary()
                                },
                        ),
                    ),
                )
            } else {
                None
            },
            _ => None,
        }
    } else {
        Some(None)
    }
}

/// The mapping of nested schemas under `key` of an object: an object, each
/// value of which is a schema.
pub open spec fn nested_dict_at(e: Seq<(Seq<char>, Tree)>, key: Seq<char>) -> Option<
    Option<Seq<(Seq<char>, SchemaModel)>>,
>
    decreases e,
{
    let i = last_index(e, key);
    if 0 <= i < e.len() && !(e[i].1 is Null) {
        match e[i].1 {
            Tree::Object(entries) => if forall|j: int|
                0 <= j < entries.len() ==> schema_decoded((#[trigger] entries[j]).1) is Some {
                Some(
                    Some(
                        Seq::new(
                            entries.len(),
                            |j: int|
                                if 0 <= j < entries.len() {
                                    (entries[j].0, schema_decoded(entries[j].1)->0)
                                } else {
                                    arbitrary()
                                },
                        ),
                    ),
                )
            } else {
                None
            },
            _ => None,
        }
    } else {
        Some(None)
    }
}

/// What a tree decodes to as a schema.
pub open spec fn schema_decoded(tree: Tree) -> Option<SchemaModel>
    decreases tree,
{
    match tree {
        Tree::Object(e) => {
            let title = at::<String>(e, "title"@);
            let multiple_of = at::<Number>(e, "multipleOf"@);
            let maximum = at::<Number>(e, "maximum"@);
            let exclusive_maximum = at::<bool>(e, "exclusiveMaximum"@);
            let minimum = at::<Number>(e, "minimum"@);
            let exclusive_minimum = at::<bool>(e, "exclusiveMinimum"@);
            let max_length = at::<u32>(e, "maxLength"@);
            let min_length = at::<u32>(e, "minLength"@);
            let pattern = at::<String>(e, "pattern"@);
            let max_items = at::<u32>(e, "maxItems"@);
            let min_items = at::<u32>(e, "minItems"@);
            let unique_items = at::<bool>(e, "uniqueItems"@);
            let max_properties = at::<u32>(e, "maxProperties"@);
            let min_properties = at::<u32>(e, "minProperties"@);
            let required = at::<Vec<String>>(e, "required"@);
            let type_ = at::<String>(e, "type"@);
            let not = nested_at(e, "not"@);
            let all_of = nested_list_at(e, "allOf"@);
            let one_of = nested_list_at(e, "oneOf"@);
            let any_of = nested_list_at(e, "anyOf"@);
            let items = nested_at(e, "items"@);
            let properties = nested_dict_at(e, "properties"@);
            let additional_properties = nested_at(e, "additionalProperties"@);
            let description = at::<String>(e, "description"@);
            let format = at::<String>(e, "format"@);
            let default = at::<Node>(e, "default"@);
            let nullable = at::<bool>(e, "nullable"@);
            let discriminator = at::<Discriminator>(e, "discriminator"@);
            let read_only = at::<bool>(e, "readOnly"@);
            let write_only = at::<bool>(e, "writeOnly"@);
            let xml = at::<XML>(e, "xml"@);
            let example = at::<Node>(e, "example"@);
            let deprecated = at::<bool>(e, "deprecated"@);
            if title is Some
                && multiple_of is Some
                && maximum is Some
                && exclusive_maximum is Some
                && minimum is Some
                && exclusive_minimum is Some
                && max_length is Some
                && min_length is Some
                && pattern is Some
                && max_items is Some
                && min_items is Some
                && unique_items is Some
                && max_properties is Some
                && min_properties is Some
                && required is Some
                && type_ is Some
                && not is Some
                && all_of is Some
                && one_of is Some
                && any_of is Some
                && items is Some
                && properties is Some
                && additional_properties is Some
                && description is Some
                && format is Some
                && default is Some
                && nullable is Some
                && discriminator is Some
                && read_only is Some
                && write_only is Some
                && xml is Some
                && example is Some
                && deprecated is Some {
                Some(
                    SchemaModel {
                        title: title->0,
                        multiple_of: multiple_of->0,
                        maximum: maximum->0,
                        exclusive_maximum: exclusive_maximum->0,
                        minimum: minimum->0,
                        exclusive_minimum: exclusive_minimum->0,
                        max_length: max_length->0,
                        min_length: min_length->0,
                        pattern: pattern->0,
                        max_items: max_items->0,
                        min_items: min_items->0,
                        unique_items: unique_items->0,
                        max_properties: max_properties->0,
                        min_properties: min_properties->0,
                        required: required->0,
                        type_: type_->0,
                        not: not->0,
                        all_of: all_of->0,
                        one_of: one_of->0,
                        any_of: any_of->0,
                        items: items->0,
                        properties: properties->0,
                        additional_properties: additional_properties->0,
                        description: description->0,
                        format: format->0,
                        default: default->0,
                        nullable: nullable->0,
                        discriminator: discriminator->0,
                        read_only: read_only->0,
                        write_only: write_only->0,
                        xml: xml->0,
                        example: example->0,
                        deprecated: deprecated->0,
                    },
                )
            } else {
                None
            }
        },
        _ => None,
    }
}

/// The index of the first item of a list that is no schema.
pub open spec fn first_bad_schema(items: Seq<Tree>) -> int {
    choose|i: int|
        0 <= i < items.len() && schema_decoded(items[i]) is None && forall|j: int|
            0 <= j < i ==> schema_decoded(#[trigger] items[j]) is Some
}

/// The index of the first entry of an object whose value is no schema.
pub open spec fn first_bad_schema_entry(entries: Seq<(Seq<char>, Tree)>) -> int {
    choose|i: int|
        0 <= i < entries.len() && schema_decoded(entries[i].1) is None && forall|j: int|
            0 <= j < i ==> schema_decoded((#[trigger] entries[j]).1) is Some
}

/// An item that is no schema, behind items that all are, is the first such
/// item of its list.
pub proof fn lemma_first_bad_schema(items: Seq<Tree>, i: int)
    requires
        0 <= i < items.len(),
        schema_decoded(items[i]) is None,
        forall|j: int| 0 <= j < i ==> schema_decoded(#[trigger] items[j]) is Some,
    ensures
        first_bad_schema(items) == i,
{
    let k = first_bad_schema(items);
    if k < i {
        assert(schema_decoded(items[k]) is Some);
    }
    if i < k {
        assert(schema_decoded(items[i]) is Some);
    }
}

/// The same for the values of an object.
pub proof fn lemma_first_bad_schema_entry(entries: Seq<(Seq<char>, Tree)>, i: int)
    requires
        0 <= i < entries.len(),
        schema_decoded(entries[i].1) is None,
        forall|j: int| 0 <= j < i ==> schema_decoded((#[trigger] entries[j]).1) is Some,
    ensures
        first_bad_schema_entry(entries) == i,
{
    let k = first_bad_schema_entry(entries);
    if k < i {
        assert(schema_decoded(entries[k].1) is Some);
    }
    if i < k {
        assert(schema_decoded(entries[i].1) is Some);
    }
}

/// Where the nested schema under `key` does not decode: the key, and then
/// the path inside the value under it.
pub open spec fn nested_fault(e: Seq<(Seq<char>, Tree)>, key: Seq<char>) -> Seq<Seq<char>>
    decreases e,
{
    let i = last_index(e, key);
    if 0 <= i < e.len() {
        below(key, schema_fault(e[i].1))
    } else {
        Seq::empty()
    }
}

/// Where the list of nested schemas under `key` does not decode: the key,
/// and then the path inside the first item that is no schema.
pub open spec fn nested_list_fault(e: Seq<(Seq<char>, Tree)>, key: Seq<char>) -> Seq<Seq<char>>
    decreases e,
{
    let i = last_index(e, key);
    if 0 <= i < e.len() {
        match e[i].1 {
            Tree::Array(items) => {
                let k = first_bad_schema(items);
                if 0 <= k < items.len() {
                    below(key, schema_fault(items[k]))
                } else {
                    below(key, Seq::empty())
                }
            },
            _ => below(key, Seq::empty()),
        }
    } else {
        Seq::empty()
    }
}

/// Where the mapping of nested schemas under `key` does not decode: the key,
/// the name of the first entry that holds no schema, and then the path
/// inside its value.
pub open spec fn nested_dict_fault(e: Seq<(Seq<char>, Tree)>, key: Seq<char>) -> Seq<Seq<char>>
    decreases e,
{
    let i = last_index(e, key);
    if 0 <= i < e.len() {
        match e[i].1 {
            Tree::Object(entries) => {
                let k = first_bad_schema_entry(entries);
                if 0 <= k < entries.len() {
                    below(key, below(entries[k].0, schema_fault(entries[k].1)))
                } else {
                    below(key, Seq::empty())
                }
            },
            _ => below(key, Seq::empty()),
        }
    } else {
        Seq::empty()
    }
}

/// Where a tree does not decode as a schema: the keys that lead to the first
/// value that has another shape.
pub open spec fn schema_fault(tree: Tree) -> Seq<Seq<char>>
    decreases tree,
{
    match tree {
        Tree::Object(e) => {
            if at::<String>(e, "title"@) is None {
                at_fault::<String>(e, "title"@)
            } else if at::<Number>(e, "multipleOf"@) is None {
                at_fault::<Number>(e, "multipleOf"@)
            } else if at::<Number>(e, "maximum"@) is None {
                at_fault::<Number>(e, "maximum"@)
            } else if at::<bool>(e, "exclusiveMaximum"@) is None {
                at_fault::<bool>(e, "exclusiveMaximum"@)
            } else if at::<Number>(e, "minimum"@) is None {
                at_fault::<Number>(e, "minimum"@)
            } else if at::<bool>(e, "exclusiveMinimum"@) is None {
                at_fault::<bool>(e, "exclusiveMinimum"@)
            } else if at::<u32>(e, "maxLength"@) is None {
                at_fault::<u32>(e, "maxLength"@)
            } else if at::<u32>(e, "minLength"@) is None {
                at_fault::<u32>(e, "minLength"@)
            } else if at::<String>(e, "pattern"@) is None {
                at_fault::<String>(e, "pattern"@)
            } else if at::<u32>(e, "maxItems"@) is None {
                at_fault::<u32>(e, "maxItems"@)
            } else if at::<u32>(e, "minItems"@) is None {
                at_fault::<u32>(e, "minItems"@)
            } else if at::<bool>(e, "uniqueItems"@) is None {
                at_fault::<bool>(e, "uniqueItems"@)
            } else if at::<u32>(e, "maxProperties"@) is None {
                at_fault::<u32>(e, "maxProperties"@)
            } else if at::<u32>(e, "minProperties"@) is None {
                at_fault::<u32>(e, "minProperties"@)
            } else if at::<Vec<String>>(e, "required"@) is None {
                at_fault::<Vec<String>>(e, "required"@)
            } else if at::<String>(e, "type"@) is None {
                at_fault::<String>(e, "type"@)
            } else if nested_at(e, "not"@) is None {
                nested_fault(e, "not"@)
            } else if nested_list_at(e, "allOf"@) is None {
                nested_list_fault(e, "allOf"@)
            } else if nested_list_at(e, "oneOf"@) is None {
                nested_list_fault(e, "oneOf"@)
            } else if nested_list_at(e, "anyOf"@) is None {
                nested_list_fault(e, "anyOf"@)
            } else if nested_at(e, "items"@) is None {
                nested_fault(e, "items"@)
            } else if nested_dict_at(e, "properties"@) is None {
                nested_dict_fault(e, "properties"@)
            } else if nested_at(e, "additionalProperties"@) is None {
                nested_fault(e, "additionalProperties"@)
            } else if at::<String>(e, "description"@) is None {
                at_fault::<String>(e, "description"@)
            } else if at::<String>(e, "format"@) is None {
                at_fault::<String>(e, "format"@)
            } else if at::<Node>(e, "default"@) is None {
                at_fault::<Node>(e, "default"@)
            } else if at::<bool>(e, "nullable"@) is None {
                at_fault::<bool>(e, "nullable"@)
            } else if at::<Discriminator>(e, "discriminator"@) is None {
                at_fault::<Discriminator>(e, "discriminator"@)
            } else if at::<bool>(e, "readOnly"@) is None {
                at_fault::<bool>(e, "readOnly"@)
            } else if at::<bool>(e, "writeOnly"@) is None {
                at_fault::<bool>(e, "writeOnly"@)
            } else if at::<XML>(e, "xml"@) is None {
                at_fault::<XML>(e, "xml"@)
            } else if at::<Node>(e, "example"@) is None {
                at_fault::<Node>(e, "example"@)
            } else if at::<bool>(e, "deprecated"@) is None {
                at_fault::<bool>(e, "deprecated"@)
            } else {
                Seq::empty()
            }
        },
        _ => Seq::empty(),
    }
}

/// The tree of a nested schema.
pub open spec fn nested_tree(m: Option<Box<SchemaModel>>) -> Tree
    decreases m,
{
    match m {
        Some(s) => schema_encoded(*s),
        None => Tree::Null,
    }
}

/// The tree of a list of nested schemas.
pub open spec fn nested_list_tree(m: Option<Seq<SchemaModel>>) -> Tree
    decreases m,
{
    match m {
        Some(l) => Tree::Array(
            Seq::new(
                l.len(),
                |i: int|
                    if 0 <= i < l.len() {
                        schema_encoded(l[i])
                    } else {
                        arbitrary()
                    },
            ),
        ),
        None => Tree::Null,
    }
}

/// The tree of a mapping of nested schemas.
pub open spec fn nested_dict_tree(m: Option<Seq<(Seq<char>, SchemaModel)>>) -> Tree
    decreases m,
{
    match m {
        Some(d) => Tree::Object(
            Seq::new(
                d.len(),
                |i: int|
                    if 0 <= i < d.len() {
                        (d[i].0, schema_encoded(d[i].1))
                    } else {
                        arbitrary()
                    },
            ),
        ),
        None => Tree::Null,
    }
}

/// The tree that a schema is encoded as.
pub open spec fn schema_encoded(m: SchemaModel) -> Tree
    decreases m,
{
    Tree::Object(
        Seq::empty()
            .push(("title"@, tree_of::<String>(m.title)))
            .push(("multipleOf"@, tree_of::<Number>(m.multiple_of)))
            .push(("maximum"@, tree_of::<Number>(m.maximum)))
            .push(("exclusiveMaximum"@, tree_of::<bool>(m.exclusive_maximum)))
            .push(("minimum"@, tree_of::<Number>(m.minimum)))
            .push(("exclusiveMinimum"@, tree_of::<bool>(m.exclusive_minimum)))
            .push(("maxLength"@, tree_of::<u32>(m.max_length)))
            .push(("minLength"@, tree_of::<u32>(m.min_length)))
            .push(("pattern"@, tree_of::<String>(m.pattern)))
            .push(("maxItems"@, tree_of::<u32>(m.max_items)))
            .push(("minItems"@, tree_of::<u32>(m.min_items)))
            .push(("uniqueItems"@, tree_of::<bool>(m.unique_items)))
            .push(("maxProperties"@, tree_of::<u32>(m.max_properties)))
            .push(("minProperties"@, tree_of::<u32>(m.min_properties)))
            .push(("required"@, tree_of::<Vec<String>>(m.required)))
            .push(("type"@, tree_of::<String>(m.type_)))
            .push(("not"@, nested_tree(m.not)))
            .push(("allOf"@, nested_list_tree(m.all_of)))
            .push(("oneOf"@, nested_list_tree(m.one_of)))
            .push(("anyOf"@, nested_list_tree(m.any_of)))
            .push(("items"@, nested_tree(m.items)))
            .push(("properties"@, nested_dict_tree(m.properties)))
            .push(("additionalProperties"@, nested_tree(m.additional_properties)))
            .push(("description"@, tree_of::<String>(m.description)))
            .push(("format"@, tree_of::<String>(m.format)))
            .push(("default"@, tree_of::<Node>(m.default)))
            .push(("nullable"@, tree_of::<bool>(m.nullable)))
            .push(("discriminator"@, tree_of::<Discriminator>(m.discriminator)))
            .push(("readOnly"@, tree_of::<bool>(m.read_only)))
            .push(("writeOnly"@, tree_of::<bool>(m.write_only)))
            .push(("xml"@, tree_of::<XML>(m.xml)))
            .push(("example"@, tree_of::<Node>(m.example)))
            .push(("deprecated"@, tree_of::<bool>(m.deprecated))),
    )
}

/// A nested schema is valid where it is absent or a valid schema.
pub open spec fn nested_valid(m: Option<Box<SchemaModel>>) -> bool
    decreases m,
{
    match m {
        Some(s) => schema_valid(*s),
        None => true,
    }
}

/// A list of nested schemas is valid where each of them is.
pub open spec fn nested_list_valid(m: Option<Seq<SchemaModel>>) -> bool
    decreases m,
{
    match m {
        Some(l) => forall|i: int| 0 <= i < l.len() ==> schema_valid(#[trigger] l[i]),
        None => true,
    }
}

/// A mapping of nested schemas is valid where no name occurs twice and each
/// schema is valid.
pub open spec fn nested_dict_valid(m: Option<Seq<(Seq<char>, SchemaModel)>>) -> bool
    decreases m,
{
    match m {
        Some(d) => distinct_keys(d) && forall|i: int|
            0 <= i < d.len() ==> schema_valid((#[trigger] d[i]).1),
        None => true,
    }
}

/// What holds of every schema that was decoded from a well-formed tree.
pub open spec fn schema_valid(m: SchemaModel) -> bool
    decreases m,
{
    &&& nested_valid(m.not)
    &&& nested_list_valid(m.all_of)
    &&& nested_list_valid(m.one_of)
    &&& nested_list_valid(m.any_of)
    &&& nested_valid(m.items)
    &&& nested_dict_valid(m.properties)
    &&& nested_valid(m.additional_properties)
    &&& opt_valid::<Node>(m.default)
    &&& opt_valid::<Discriminator>(m.discriminator)
    &&& opt_valid::<Node>(m.example)
}

/// Decodes the nested schema under `key` of an object.
fn nested_field(e: &Vec<(String, Node)>, key: &str) -> (r: Result<Option<Box<Schema>>, Mismatch>)
    ensures
        match r {
            Ok(x) => nested_at(entries_view(e@), key@) == Some(nested_model(x)),
            Err(m) => {
                &&& nested_at(entries_view(e@), key@) is None
                &&& m.model() == nested_fault(entries_view(e@), key@)
            },
        },
    decreases e,
{
    match find(e, key) {
        None => Ok(None),
        Some(i) => match &e[i].1 {
            Node::Null => Ok(None),
            node => match decode_schema(node) {
                Ok(s) => Ok(Some(Box::new(s))),
                Err(m) => Err(m.under(key)),
            },
        },
    }
}

/// Decodes the list of nested schemas under `key` of an object.
fn nested_list_field(e: &Vec<(String, Node)>, key: &str) -> (r: Result<
    Option<Vec<Schema>>,
    Mismatch,
>)
    ensures
        match r {
            Ok(x) => nested_list_at(entries_view(e@), key@) == Some(nested_list_model(x)),
            Err(m) => {
                &&& nested_list_at(entries_view(e@), key@) is None
                &&& m.model() == nested_list_fault(entries_view(e@), key@)
            },
        },
    decreases e,
{
    match find(e, key) {
        None => Ok(None),
        Some(i) => match &e[i].1 {
            Node::Null => Ok(None),
            Node::Array(items) => {
                let ghost all = entries_view(e@);
                let ghost trees = items_view(items@);
                assert(all[i as int].1 == Tree::Array(trees));
                let mut out: Vec<Schema> = Vec::new();
                let mut j: usize = 0;
                while j < items.len()
                    invariant
                        i < e.len(),
                        e[i as int].1 == Node::Array(*items),
                        all == entries_view(e@),
                        last_index(all, key@) == i,
                        all[i as int].1 == Tree::Array(trees),
                        j <= items.len(),
                        out.len() == j,
                        trees == items_view(items@),
                        forall|k: int|
                            0 <= k < j ==> schema_decoded(trees[k]) == Some(
                                schema_model(#[trigger] out@[k]),
                            ),
                    decreases items.len() - j,
                {
                    assert(decreases_to!(e => e[i as int].1->Array_0));
                    match decode_schema(&items[j]) {
                        Ok(s) => {
                            out.push(s);
                        },
                        Err(m) => {
                            proof {
                                assert forall|k: int| 0 <= k < j implies schema_decoded(
                                    #[trigger] trees[k],
                                ) is Some by {
                                    assert(schema_decoded(trees[k]) == Some(schema_model(out@[k])));
                                }
                                lemma_first_bad_schema(trees, j as int);
                            }
                            return Err(m.under(key));
                        },
                    }
                    j = j + 1;
                }
                assert forall|k: int| 0 <= k < trees.len() implies schema_decoded(
                    #[trigger] trees[k],
                ) is Some by {
                    assert(schema_decoded(trees[k]) == Some(schema_model(out@[k])));
                }
                assert(nested_list_model(Some(out))->0 =~= nested_list_at(
                    entries_view(e@),
                    key@,
                )->0->0);
                Ok(Some(out))
            },
            _ => Err(Mismatch::here().under(key)),
        },
    }
}

/// Decodes the mapping of nested schemas under `key` of an object.
fn nested_dict_field(e: &Vec<(String, Node)>, key: &str) -> (r: Result<
    Option<Dict<Schema>>,
    Mismatch,
>)
    ensures
        match r {
            Ok(x) => nested_dict_at(entries_view(e@), key@) == Some(nested_dict_model(x)),
            Err(m) => {
                &&& nested_dict_at(entries_view(e@), key@) is None
                &&& m.model() == nested_dict_fault(entries_view(e@), key@)
            },
        },
    decreases e,
{
    match find(e, key) {
        None => Ok(None),
        Some(i) => match &e[i].1 {
            Node::Null => Ok(None),
            Node::Object(entries) => {
                let ghost all = entries_view(e@);
                let ghost trees = entries_view(entries@);
                assert(all[i as int].1 == Tree::Object(trees));
                let mut out: Vec<(String, Schema)> = Vec::new();
                let mut j: usize = 0;
                while j < entries.len()
                    invariant
                        i < e.len(),
                        e[i as int].1 == Node::Object(*entries),
                        all == entries_view(e@),
                        last_index(all, key@) == i,
                        all[i as int].1 == Tree::Object(trees),
                        j <= entries.len(),
                        out.len() == j,
                        trees == entries_view(entries@),
                        forall|k: int|
                            0 <= k < j ==> (#[trigger] out@[k]).0@ == trees[k].0 && schema_decoded(
                                trees[k].1,
                            ) == Some(schema_model(out@[k].1)),
                    decreases entries.len() - j,
                {
                    assert(decreases_to!(e => e[i as int].1->Object_0));
                    match decode_schema(&entries[j].1) {
                        Ok(s) => {
                            out.push((entries[j].0.clone(), s));
                        },
                        Err(m) => {
                            proof {
                                assert forall|k: int| 0 <= k < j implies schema_decoded(
                                    (#[trigger] trees[k]).1,
                                ) is Some by {
                                    assert(schema_decoded(trees[k].1) == Some(
                                        schema_model(out@[k].1),
                                    ));
                                }
                                lemma_first_bad_schema_entry(trees, j as int);
                            }
                            return Err(m.under(entries[j].0.as_str()).under(key));
                        },
                    }
                    j = j + 1;
                }
                assert forall|k: int| 0 <= k < trees.len() implies schema_decoded(
                    (#[trigger] trees[k]).1,
                ) is Some by {
                    assert(schema_decoded(trees[k].1) == Some(schema_model(out@[k].1)));
                }
                let dict = Dict { entries: out };
                assert(nested_dict_model(Some(dict))->0 =~= nested_dict_at(
                    entries_view(e@),
                    key@,
                )->0->0);
                Ok(Some(dict))
            },
            _ => Err(Mismatch::here().under(key)),
        },
    }
}

/// Decodes a schema from a tree.
pub fn decode_schema(node: &Node) -> (r: Result<Schema, Mismatch>)
    ensures
        match r {
            Ok(s) => schema_decoded(node@) == Some(schema_model(s)),
            Err(m) => schema_decoded(node@) is None && m.model() == schema_fault(node@),
        },
    decreases node,
{
    match node {
        Node::Object(e) => {
            let title = field::<String>(e, "title")?;
            let multiple_of = field::<Number>(e, "multipleOf")?;
            let maximum = field::<Number>(e, "maximum")?;
            let exclusive_maximum = field::<bool>(e, "exclusiveMaximum")?;
            let minimum = field::<Number>(e, "minimum")?;
            let exclusive_minimum = field::<bool>(e, "exclusiveMinimum")?;
            let max_length = field::<u32>(e, "maxLength")?;
            let min_length = field::<u32>(e, "minLength")?;
            let pattern = field::<String>(e, "pattern")?;
            let max_items = field::<u32>(e, "maxItems")?;
            let min_items = field::<u32>(e, "minItems")?;
            let unique_items = field::<bool>(e, "uniqueItems")?;
            let max_properties = field::<u32>(e, "maxProperties")?;
            let min_properties = field::<u32>(e, "minProperties")?;
            let required = field::<Vec<String>>(e, "required")?;
            let type_ = field::<String>(e, "type")?;
            let not = nested_field(e, "not")?;
            let all_of = nested_list_field(e, "allOf")?;
            let one_of = nested_list_field(e, "oneOf")?;
            let any_of = nested_list_field(e, "anyOf")?;
            let items = nested_field(e, "items")?;
            let properties = nested_dict_field(e, "properties")?;
            let additional_properties = nested_field(e, "additionalProperties")?;
            let description = field::<String>(e, "description")?;
            let format = field::<String>(e, "format")?;
            let default = field::<Node>(e, "default")?;
            let nullable = field::<bool>(e, "nullable")?;
            let discriminator = field::<Discriminator>(e, "discriminator")?;
            let read_only = field::<bool>(e, "readOnly")?;
            let write_only = field::<bool>(e, "writeOnly")?;
            let xml = field::<XML>(e, "xml")?;
            let example = field::<Node>(e, "example")?;
            let deprecated = field::<bool>(e, "deprecated")?;
            Ok(
                Schema {
                    title,
                    multiple_of,
                    maximum,
                    exclusive_maximum,
                    minimum,
                    exclusive_minimum,
                    max_length,
                    min_length,
                    pattern,
                    max_items,
                    min_items,
                    unique_items,
                    max_properties,
                    min_properties,
                    required,
                    type_,
                    not,
                    all_of,
                    one_of,
                    any_of,
                    items,
                    properties,
                    additional_properties,
                    description,
                    format,
                    default,
                    nullable,
                    discriminator,
                    read_only,
                    write_only,
                    xml,
                    example,
                    deprecated,
                },
            )
        },
        _ => Err(Mismatch::here()),
    }
}

/// Encodes a nested schema.
fn emit_nested(x: &Option<Box<Schema>>) -> (r: Node)
    ensures
        r@ == nested_tree(nested_model(*x)),
    decreases x,
{
    match x {
        Some(s) => encode_schema(s),
        None => Node::Null,
    }
}

/// Encodes a list of nested schemas.
fn emit_nested_list(x: &Option<Vec<Schema>>) -> (r: Node)
    ensures
        r@ == nested_list_tree(nested_list_model(*x)),
    decreases x,
{
    match x {
        Some(v) => {
            let ghost models = nested_list_model(*x)->0;
            let mut out: Vec<Node> = Vec::new();
            let mut i: usize = 0;
            while i < v.len()
                invariant
                    *x == Some(*v),
                    i <= v.len(),
                    out.len() == i,
                    models == nested_list_model(*x)->0,
                    forall|j: int|
                        0 <= j < i ==> (#[trigger] out@[j])@ == schema_encoded(models[j]),
                decreases v.len() - i,
            {
                assert(decreases_to!(x => x->0));
                out.push(encode_schema(&v[i]));
                i = i + 1;
            }
            assert(items_view(out@) =~= nested_list_tree(Some(models))->Array_0);
            Node::Array(out)
        },
        None => Node::Null,
    }
}

/// Encodes a mapping of nested schemas.
fn emit_nested_dict(x: &Option<Dict<Schema>>) -> (r: Node)
    ensures
        r@ == nested_dict_tree(nested_dict_model(*x)),
    decreases x,
{
    match x {
        Some(d) => {
            let ghost models = nested_dict_model(*x)->0;
            let mut out: Vec<(String, Node)> = Vec::new();
            let mut i: usize = 0;
            while i < d.entries.len()
                invariant
                    *x == Some(*d),
                    i <= d.entries.len(),
                    out.len() == i,
                    models == nested_dict_model(*x)->0,
                    forall|j: int|
                        0 <= j < i ==> (#[trigger] out@[j]).0@ == models[j].0 && out@[j].1@
                            == schema_encoded(models[j].1),
                decreases d.entries.len() - i,
            {
                assert(decreases_to!(x => x->0.entries));
                out.push((d.entries[i].0.clone(), encode_schema(&d.entries[i].1)));
                i = i + 1;
            }
            assert(entries_view(out@) =~= nested_dict_tree(Some(models))->Object_0);
            Node::Object(out)
        },
        None => Node::Null,
    }
}

/// Encodes a schema as a tree.
pub fn encode_schema(s: &Schema) -> (r: Node)
    ensures
        r@ == schema_encoded(schema_model(*s)),
    decreases s,
{
    let mut e = new_object();
    push_entry(&mut e, "title", emit(&s.title));
    push_entry(&mut e, "multipleOf", emit(&s.multiple_of));
    push_entry(&mut e, "maximum", emit(&s.maximum));
    push_entry(&mut e, "exclusiveMaximum", emit(&s.exclusive_maximum));
    push_entry(&mut e, "minimum", emit(&s.minimum));
    push_entry(&mut e, "exclusiveMinimum", emit(&s.exclusive_minimum));
    push_entry(&mut e, "maxLength", emit(&s.max_length));
    push_entry(&mut e, "minLength", emit(&s.min_length));
    push_entry(&mut e, "pattern", emit(&s.pattern));
    push_entry(&mut e, "maxItems", emit(&s.max_items));
    push_entry(&mut e, "minItems", emit(&s.min_items));
    push_entry(&mut e, "uniqueItems", emit(&s.unique_items));
    push_entry(&mut e, "maxProperties", emit(&s.max_properties));
    push_entry(&mut e, "minProperties", emit(&s.min_properties));
    push_entry(&mut e, "required", emit(&s.required));
    push_entry(&mut e, "type", emit(&s.type_));
    push_entry(&mut e, "not", emit_nested(&s.not));
    push_entry(&mut e, "allOf", emit_nested_list(&s.all_of));
    push_entry(&mut e, "oneOf", emit_nested_list(&s.one_of));
    push_entry(&mut e, "anyOf", emit_nested_list(&s.any_of));
    push_entry(&mut e, "items", emit_nested(&s.items));
    push_entry(&mut e, "properties", emit_nested_dict(&s.properties));
    push_entry(&mut e, "additionalProperties", emit_nested(&s.additional_properties));
    push_entry(&mut e, "description", emit(&s.description));
    push_entry(&mut e, "format", emit(&s.format));
    push_entry(&mut e, "default", emit(&s.default));
    push_entry(&mut e, "nullable", emit(&s.nullable));
    push_entry(&mut e, "discriminator", emit(&s.discriminator));
    push_entry(&mut e, "readOnly", emit(&s.read_only));
    push_entry(&mut e, "writeOnly", emit(&s.write_only));
    push_entry(&mut e, "xml", emit(&s.xml));
    push_entry(&mut e, "example", emit(&s.example));
    push_entry(&mut e, "deprecated", emit(&s.deprecated));
    Node::Object(e)
}

/// The tree of a list of nested schemas is well-formed where that of each
/// schema is.
proof fn lemma_nested_list_tree_well_formed(m: Option<Seq<SchemaModel>>)
    requires
        m is Some ==> forall|i: int|
            0 <= i < m->0.len() ==> schema_encoded(#[trigger] m->0[i]).well_formed(),
    ensures
        nested_list_tree(m).well_formed(),
{
    if m is Some {
        let items = nested_list_tree(m)->Array_0;
        assert forall|i: int| 0 <= i < items.len() implies (#[trigger] items[i]).well_formed() by {
            assert(schema_encoded(m->0[i]).well_formed());
        }
    }
}

/// The tree of a mapping of nested schemas is well-formed where no name
/// occurs twice and the tree of each schema is well-formed.
proof fn lemma_nested_dict_tree_well_formed(m: Option<Seq<(Seq<char>, SchemaModel)>>)
    requires
        m is Some ==> distinct_keys(m->0),
        m is Some ==> forall|i: int|
            0 <= i < m->0.len() ==> schema_encoded((#[trigger] m->0[i]).1).well_formed(),
    ensures
        nested_dict_tree(m).well_formed(),
{
    if m is Some {
        let d = m->0;
        let entries = nested_dict_tree(m)->Object_0;
        assert forall|i: int| 0 <= i < entries.len() implies (
        #[trigger] entries[i]).1.well_formed() by {
            assert(schema_encoded(d[i].1).well_formed());
        }
        assert forall|i: int, j: int| 0 <= i < j < entries.len() implies (#[trigger] entries[i]).0
            != (#[trigger] entries[j]).0 by {
            assert(d[i].0 != d[j].0);
        }
    }
}

/// The encoding of a valid schema is well-formed.
pub proof fn lemma_schema_encoded_well_formed(m: SchemaModel)
    requires
        schema_valid(m),
    ensures
        schema_encoded(m).well_formed(),
    decreases m,
{
    let e = schema_encoded(m)->Object_0;
    // No two names are the same: they differ in length, or at one of the
    // characters that are named here.
    reveal_strlit("title");
    reveal_strlit("multipleOf");
    reveal_strlit("maximum");
    reveal_strlit("exclusiveMaximum");
    reveal_strlit("minimum");
    reveal_strlit("exclusiveMinimum");
    reveal_strlit("maxLength");
    reveal_strlit("minLength");
    reveal_strlit("pattern");
    reveal_strlit("maxItems");
    reveal_strlit("minItems");
    reveal_strlit("uniqueItems");
    reveal_strlit("maxProperties");
    reveal_strlit("minProperties");
    reveal_strlit("required");
    reveal_strlit("type");
    reveal_strlit("not");
    reveal_strlit("allOf");
    reveal_strlit("oneOf");
    reveal_strlit("anyOf");
    reveal_strlit("items");
    reveal_strlit("properties");
    reveal_strlit("additionalProperties");
    reveal_strlit("description");
    reveal_strlit("format");
    reveal_strlit("default");
    reveal_strlit("nullable");
    reveal_strlit("discriminator");
    reveal_strlit("readOnly");
    reveal_strlit("writeOnly");
    reveal_strlit("xml");
    reveal_strlit("example");
    reveal_strlit("deprecated");
    assert("title"@.len() == 5 && "title"@[0] == 't' && "title"@[1] == 'i');
    assert("multipleOf"@.len() == 10 && "multipleOf"@[0] == 'm');
    assert("maximum"@.len() == 7 && "maximum"@[2] == 'x');
    assert("exclusiveMaximum"@.len() == 16 && "exclusiveMaximum"@[10] == 'a');
    assert("minimum"@.len() == 7 && "minimum"@[2] == 'n');
    assert("exclusiveMinimum"@.len() == 16 && "exclusiveMinimum"@[10] == 'i');
    assert("maxLength"@.len() == 9 && "maxLength"@[1] == 'a');
    assert("minLength"@.len() == 9 && "minLength"@[1] == 'i');
    assert("pattern"@.len() == 7 && "pattern"@[2] == 't');
    assert("maxItems"@.len() == 8 && "maxItems"@[2] == 'x');
    assert("minItems"@.len() == 8 && "minItems"@[2] == 'n');
    assert("uniqueItems"@.len() == 11 && "uniqueItems"@[0] == 'u');
    assert("maxProperties"@.len() == 13 && "maxProperties"@[2] == 'x');
    assert("minProperties"@.len() == 13 && "minProperties"@[2] == 'n');
    assert("required"@.len() == 8 && "required"@[2] == 'q');
    assert("type"@.len() == 4);
    assert("not"@.len() == 3 && "not"@[0] == 'n');
    assert("allOf"@.len() == 5 && "allOf"@[0] == 'a' && "allOf"@[1] == 'l');
    assert("oneOf"@.len() == 5 && "oneOf"@[0] == 'o' && "oneOf"@[1] == 'n');
    assert("anyOf"@.len() == 5 && "anyOf"@[0] == 'a' && "anyOf"@[1] == 'n');
    assert("items"@.len() == 5 && "items"@[0] == 'i' && "items"@[1] == 't');
    assert("properties"@.len() == 10 && "properties"@[0] == 'p');
    assert("additionalProperties"@.len() == 20);
    assert("description"@.len() == 11 && "description"@[0] == 'd');
    assert("format"@.len() == 6);
    assert("default"@.len() == 7 && "default"@[2] == 'f');
    assert("nullable"@.len() == 8 && "nullable"@[2] == 'l');
    assert("discriminator"@.len() == 13 && "discriminator"@[2] == 's');
    assert("readOnly"@.len() == 8 && "readOnly"@[2] == 'a');
    assert("writeOnly"@.len() == 9 && "writeOnly"@[1] == 'r');
    assert("xml"@.len() == 3 && "xml"@[0] == 'x');
    assert("example"@.len() == 7 && "example"@[2] == 'a');
    assert("deprecated"@.len() == 10 && "deprecated"@[0] == 'd');
    assert(distinct_keys(e));
    lemma_tree_of_well_formed::<String>(m.title);
    lemma_tree_of_well_formed::<Number>(m.multiple_of);
    lemma_tree_of_well_formed::<Number>(m.maximum);
    lemma_tree_of_well_formed::<bool>(m.exclusive_maximum);
    lemma_tree_of_well_formed::<Number>(m.minimum);
    lemma_tree_of_well_formed::<bool>(m.exclusive_minimum);
    lemma_tree_of_well_formed::<u32>(m.max_length);
    lemma_tree_of_well_formed::<u32>(m.min_length);
    lemma_tree_of_well_formed::<String>(m.pattern);
    lemma_tree_of_well_formed::<u32>(m.max_items);
    lemma_tree_of_well_formed::<u32>(m.min_items);
    lemma_tree_of_well_formed::<bool>(m.unique_items);
    lemma_tree_of_well_formed::<u32>(m.max_properties);
    lemma_tree_of_well_formed::<u32>(m.min_properties);
    lemma_tree_of_well_formed::<Vec<String>>(m.required);
    lemma_tree_of_well_formed::<String>(m.type_);
    if m.not is Some {
        lemma_schema_encoded_well_formed(*m.not->0);
    }
    if m.all_of is Some {
        assert forall|i: int| 0 <= i < m.all_of->0.len() implies schema_encoded(
            #[trigger] m.all_of->0[i],
        ).well_formed() by {
            lemma_schema_encoded_well_formed(m.all_of->0[i]);
        }
    }
    lemma_nested_list_tree_well_formed(m.all_of);
    if m.one_of is Some {
        assert forall|i: int| 0 <= i < m.one_of->0.len() implies schema_encoded(
            #[trigger] m.one_of->0[i],
        ).well_formed() by {
            lemma_schema_encoded_well_formed(m.one_of->0[i]);
        }
    }
    lemma_nested_list_tree_well_formed(m.one_of);
    if m.any_of is Some {
        assert forall|i: int| 0 <= i < m.any_of->0.len() implies schema_encoded(
            #[trigger] m.any_of->0[i],
        ).well_formed() by {
            lemma_schema_encoded_well_formed(m.any_of->0[i]);
        }
    }
    lemma_nested_list_tree_well_formed(m.any_of);
    if m.items is Some {
        lemma_schema_encoded_well_formed(*m.items->0);
    }
    if m.properties is Some {
        assert forall|i: int| 0 <= i < m.properties->0.len() implies schema_encoded(
            (#[trigger] m.properties->0[i]).1,
        ).well_formed() by {
            lemma_schema_encoded_well_formed(m.properties->0[i].1);
        }
    }
    lemma_nested_dict_tree_well_formed(m.properties);
    if m.additional_properties is Some {
        lemma_schema_encoded_well_formed(*m.additional_properties->0);
    }
    lemma_tree_of_well_formed::<String>(m.description);
    lemma_tree_of_well_formed::<String>(m.format);
    lemma_tree_of_well_formed::<Node>(m.default);
    lemma_tree_of_well_formed::<bool>(m.nullable);
    lemma_tree_of_well_formed::<Discriminator>(m.discriminator);
    lemma_tree_of_well_formed::<bool>(m.read_only);
    lemma_tree_of_well_formed::<bool>(m.write_only);
    lemma_tree_of_well_formed::<XML>(m.xml);
    lemma_tree_of_well_formed::<Node>(m.example);
    lemma_tree_of_well_formed::<bool>(m.deprecated);
    assert(e.len() == 33);
    assert forall|i: int| 0 <= i < e.len() implies (#[trigger] e[i]).1.well_formed() by {
    }
}

/// A nested schema that was encoded at index `i` of an object, under a key
/// that no other entry has, decodes to itself where the schema does.
proof fn lemma_nested_round_trip(e: Seq<(Seq<char>, Tree)>, i: int, m: Option<Box<SchemaModel>>)
    requires
        0 <= i < e.len(),
        distinct_keys(e),
        e[i].1 == nested_tree(m),
        m is Some ==> schema_decoded(schema_encoded(*m->0)) == Some(*m->0) && !(schema_encoded(
            *m->0,
        ) is Null),
    ensures
        nested_at(e, e[i].0) == Some(m),
{
    lemma_last_index_is(e, e[i].0, i);
}

/// The same for a list of nested schemas.
proof fn lemma_nested_list_round_trip(
    e: Seq<(Seq<char>, Tree)>,
    i: int,
    m: Option<Seq<SchemaModel>>,
)
    requires
        0 <= i < e.len(),
        distinct_keys(e),
        e[i].1 == nested_list_tree(m),
        m is Some ==> forall|j: int|
            0 <= j < m->0.len() ==> schema_decoded(schema_encoded(#[trigger] m->0[j])) == Some(
                m->0[j],
            ),
    ensures
        nested_list_at(e, e[i].0) == Some(m),
{
    lemma_last_index_is(e, e[i].0, i);
    if m is Some {
        let l = m->0;
        let items = e[i].1->Array_0;
        assert forall|j: int| 0 <= j < items.len() implies schema_decoded(#[trigger] items[j])
            == Some(l[j]) by {
            assert(schema_decoded(schema_encoded(l[j])) == Some(l[j]));
        }
        assert(nested_list_at(e, e[i].0)->0->0 =~= l);
    }
}

/// The same for a mapping of nested schemas.
proof fn lemma_nested_dict_round_trip(
    e: Seq<(Seq<char>, Tree)>,
    i: int,
    m: Option<Seq<(Seq<char>, SchemaModel)>>,
)
    requires
        0 <= i < e.len(),
        distinct_keys(e),
        e[i].1 == nested_dict_tree(m),
        m is Some ==> forall|j: int|
            0 <= j < m->0.len() ==> schema_decoded(schema_encoded((#[trigger] m->0[j]).1)) == Some(
                m->0[j].1,
            ),
    ensures
        nested_dict_at(e, e[i].0) == Some(m),
{
    lemma_last_index_is(e, e[i].0, i);
    if m is Some {
        let d = m->0;
        let entries = e[i].1->Object_0;
        assert forall|j: int| 0 <= j < entries.len() implies schema_decoded(
            (#[trigger] entries[j]).1,
        ) == Some(d[j].1) by {
            assert(schema_decoded(schema_encoded(d[j].1)) == Some(d[j].1));
        }
        assert(nested_dict_at(e, e[i].0)->0->0 =~= d);
    }
}


/// The fields of the first part of an encoded schema decode to themselves.
proof fn lemma_schema_round_trip_first(m: SchemaModel)
    requires
        schema_valid(m),
    ensures
        at::<String>(schema_encoded(m)->Object_0, "title"@) == Some(m.title),
        at::<Number>(schema_encoded(m)->Object_0, "multipleOf"@) == Some(m.multiple_of),
        at::<Number>(schema_encoded(m)->Object_0, "maximum"@) == Some(m.maximum),
        at::<bool>(schema_encoded(m)->Object_0, "exclusiveMaximum"@) == Some(m.exclusive_maximum),
        at::<Number>(schema_encoded(m)->Object_0, "minimum"@) == Some(m.minimum),
        at::<bool>(schema_encoded(m)->Object_0, "exclusiveMinimum"@) == Some(m.exclusive_minimum),
        at::<u32>(schema_encoded(m)->Object_0, "maxLength"@) == Some(m.max_length),
        at::<u32>(schema_encoded(m)->Object_0, "minLength"@) == Some(m.min_length),
        at::<String>(schema_encoded(m)->Object_0, "pattern"@) == Some(m.pattern),
{
    let e = schema_encoded(m)->Object_0;
    lemma_schema_encoded_well_formed(m);
    assert(e.len() == 33);
    lemma_field_round_trip::<String>(e, 0, m.title);
    lemma_field_round_trip::<Number>(e, 1, m.multiple_of);
    lemma_field_round_trip::<Number>(e, 2, m.maximum);
    lemma_field_round_trip::<bool>(e, 3, m.exclusive_maximum);
    lemma_field_round_trip::<Number>(e, 4, m.minimum);
    lemma_field_round_trip::<bool>(e, 5, m.exclusive_minimum);
    lemma_field_round_trip::<u32>(e, 6, m.max_length);
    lemma_field_round_trip::<u32>(e, 7, m.min_length);
    lemma_field_round_trip::<String>(e, 8, m.pattern);
}

/// The fields of the second part of an encoded schema decode to themselves.
proof fn lemma_schema_round_trip_second(m: SchemaModel)
    requires
        schema_valid(m),
    ensures
        at::<u32>(schema_encoded(m)->Object_0, "maxItems"@) == Some(m.max_items),
        at::<u32>(schema_encoded(m)->Object_0, "minItems"@) == Some(m.min_items),
        at::<bool>(schema_encoded(m)->Object_0, "uniqueItems"@) == Some(m.unique_items),
        at::<u32>(schema_encoded(m)->Object_0, "maxProperties"@) == Some(m.max_properties),
        at::<u32>(schema_encoded(m)->Object_0, "minProperties"@) == Some(m.min_properties),
        at::<Vec<String>>(schema_encoded(m)->Object_0, "required"@) == Some(m.required),
        at::<String>(schema_encoded(m)->Object_0, "type"@) == Some(m.type_),
        at::<String>(schema_encoded(m)->Object_0, "description"@) == Some(m.description),
        at::<String>(schema_encoded(m)->Object_0, "format"@) == Some(m.format),
{
    let e = schema_encoded(m)->Object_0;
    lemma_schema_encoded_well_formed(m);
    assert(e.len() == 33);
    lemma_field_round_trip::<u32>(e, 9, m.max_items);
    lemma_field_round_trip::<u32>(e, 10, m.min_items);
    lemma_field_round_trip::<bool>(e, 11, m.unique_items);
    lemma_field_round_trip::<u32>(e, 12, m.max_properties);
    lemma_field_round_trip::<u32>(e, 13, m.min_properties);
    lemma_field_round_trip::<Vec<String>>(e, 14, m.required);
    lemma_field_round_trip::<String>(e, 15, m.type_);
    lemma_field_round_trip::<String>(e, 23, m.description);
    lemma_field_round_trip::<String>(e, 24, m.format);
}

/// The fields of the third part of an encoded schema decode to themselves.
proof fn lemma_schema_round_trip_third(m: SchemaModel)
    requires
        schema_valid(m),
    ensures
        at::<Node>(schema_encoded(m)->Object_0, "default"@) == Some(m.default),
        at::<bool>(schema_encoded(m)->Object_0, "nullable"@) == Some(m.nullable),
        at::<Discriminator>(schema_encoded(m)->Object_0, "discriminator"@) == Some(m.discriminator),
        at::<bool>(schema_encoded(m)->Object_0, "readOnly"@) == Some(m.read_only),
        at::<bool>(schema_encoded(m)->Object_0, "writeOnly"@) == Some(m.write_only),
        at::<XML>(schema_encoded(m)->Object_0, "xml"@) == Some(m.xml),
        at::<Node>(schema_encoded(m)->Object_0, "example"@) == Some(m.example),
        at::<bool>(schema_encoded(m)->Object_0, "deprecated"@) == Some(m.deprecated),
{
    let e = schema_encoded(m)->Object_0;
    lemma_schema_encoded_well_formed(m);
    assert(e.len() == 33);
    lemma_field_round_trip::<Node>(e, 25, m.default);
    lemma_field_round_trip::<bool>(e, 26, m.nullable);
    lemma_field_round_trip::<Discriminator>(e, 27, m.discriminator);
    lemma_field_round_trip::<bool>(e, 28, m.read_only);
    lemma_field_round_trip::<bool>(e, 29, m.write_only);
    lemma_field_round_trip::<XML>(e, 30, m.xml);
    lemma_field_round_trip::<Node>(e, 31, m.example);
    lemma_field_round_trip::<bool>(e, 32, m.deprecated);
}

/// The nested schemas of an encoded schema decode to themselves where each
/// of them does.
proof fn lemma_schema_round_trip_nested(m: SchemaModel)
    requires
        schema_valid(m),
        m.not is Some ==> schema_decoded(
            schema_encoded(*m.not->0),
        ) == Some(*m.not->0) && !(schema_encoded(*m.not->0) is Null),
        m.all_of is Some ==> forall|j: int|
            0 <= j < m.all_of->0.len() ==> schema_decoded(
                schema_encoded(#[trigger] m.all_of->0[j]),
            ) == Some(m.all_of->0[j]),
        m.one_of is Some ==> forall|j: int|
            0 <= j < m.one_of->0.len() ==> schema_decoded(
                schema_encoded(#[trigger] m.one_of->0[j]),
            ) == Some(m.one_of->0[j]),
        m.any_of is Some ==> forall|j: int|
            0 <= j < m.any_of->0.len() ==> schema_decoded(
                schema_encoded(#[trigger] m.any_of->0[j]),
            ) == Some(m.any_of->0[j]),
        m.items is Some ==> schema_decoded(
            schema_encoded(*m.items->0),
        ) == Some(*m.items->0) && !(schema_encoded(*m.items->0) is Null),
        m.properties is Some ==> forall|j: int|
            0 <= j < m.properties->0.len() ==> schema_decoded(
                schema_encoded((#[trigger] m.properties->0[j]).1),
            ) == Some(m.properties->0[j].1),
        m.additional_properties is Some ==> schema_decoded(
            schema_encoded(*m.additional_properties->0),
        ) == Some(*m.additional_properties->0) && !(schema_encoded(*m.additional_properties->0) is Null),
    ensures
        nested_at(schema_encoded(m)->Object_0, "not"@) == Some(m.not),
        nested_list_at(schema_encoded(m)->Object_0, "allOf"@) == Some(m.all_of),
        nested_list_at(schema_encoded(m)->Object_0, "oneOf"@) == Some(m.one_of),
        nested_list_at(schema_encoded(m)->Object_0, "anyOf"@) == Some(m.any_of),
        nested_at(schema_encoded(m)->Object_0, "items"@) == Some(m.items),
        nested_dict_at(schema_encoded(m)->Object_0, "properties"@) == Some(m.properties),
        nested_at(schema_encoded(m)->Object_0, "additionalProperties"@) == Some(
            m.additional_properties,
        ),
{
    let e = schema_encoded(m)->Object_0;
    lemma_schema_encoded_well_formed(m);
    assert(e.len() == 33);
    lemma_nested_round_trip(e, 16, m.not);
    lemma_nested_list_round_trip(e, 17, m.all_of);
    lemma_nested_list_round_trip(e, 18, m.one_of);
    lemma_nested_list_round_trip(e, 19, m.any_of);
    lemma_nested_round_trip(e, 20, m.items);
    lemma_nested_dict_round_trip(e, 21, m.properties);
    lemma_nested_round_trip(e, 22, m.additional_properties);
}

/// Decoding the encoding of a valid schema gives the schema back, and the
/// encoding is not `null`.
pub proof fn lemma_schema_round_trip(m: SchemaModel)
    requires
        schema_valid(m),
    ensures
        schema_decoded(schema_encoded(m)) == Some(m),
        !(schema_encoded(m) is Null),
    decreases m,
{
    if m.not is Some {
        lemma_schema_round_trip(*m.not->0);
    }
    if m.all_of is Some {
        assert forall|j: int| 0 <= j < m.all_of->0.len() implies schema_decoded(
            schema_encoded(#[trigger] m.all_of->0[j]),
        ) == Some(m.all_of->0[j]) by {
            lemma_schema_round_trip(m.all_of->0[j]);
        }
    }
    if m.one_of is Some {
        assert forall|j: int| 0 <= j < m.one_of->0.len() implies schema_decoded(
            schema_encoded(#[trigger] m.one_of->0[j]),
        ) == Some(m.one_of->0[j]) by {
            lemma_schema_round_trip(m.one_of->0[j]);
        }
    }
    if m.any_of is Some {
        assert forall|j: int| 0 <= j < m.any_of->0.len() implies schema_decoded(
            schema_encoded(#[trigger] m.any_of->0[j]),
        ) == Some(m.any_of->0[j]) by {
            lemma_schema_round_trip(m.any_of->0[j]);
        }
    }
    if m.items is Some {
        lemma_schema_round_trip(*m.items->0);
    }
    if m.properties is Some {
        assert forall|j: int| 0 <= j < m.properties->0.len() implies schema_decoded(
            schema_encoded((#[trigger] m.properties->0[j]).1),
        ) == Some(m.properties->0[j].1) by {
            lemma_schema_round_trip(m.properties->0[j].1);
        }
    }
    if m.additional_properties is Some {
        lemma_schema_round_trip(*m.additional_properties->0);
    }
    lemma_schema_round_trip_nested(m);
    lemma_schema_round_trip_first(m);
    lemma_schema_round_trip_second(m);
    lemma_schema_round_trip_third(m);
}

/// A nested schema that was decoded from a well-formed object is valid.
proof fn lemma_nested_at_valid(e: Seq<(Seq<char>, Tree)>, key: Seq<char>)
    requires
        Tree::Object(e).well_formed(),
        nested_at(e, key) is Some,
    ensures
        nested_valid(nested_at(e, key)->0),
    decreases e,
{
    let i = last_index(e, key);
    if 0 <= i < e.len() && !(e[i].1 is Null) {
        lemma_schema_decoded_valid(e[i].1);
    }
}

/// The same for a list of nested schemas.
proof fn lemma_nested_list_at_valid(e: Seq<(Seq<char>, Tree)>, key: Seq<char>)
    requires
        Tree::Object(e).well_formed(),
        nested_list_at(e, key) is Some,
    ensures
        nested_list_valid(nested_list_at(e, key)->0),
    decreases e,
{
    let i = last_index(e, key);
    if 0 <= i < e.len() && !(e[i].1 is Null) {
        let l = nested_list_at(e, key)->0->0;
        assert(e[i].1.well_formed());
        assert forall|j: int| 0 <= j < l.len() implies schema_valid(#[trigger] l[j]) by {
            assert(schema_decoded(e[i].1->Array_0[j]) is Some);
            assert(e[i].1->Array_0[j].well_formed());
            lemma_schema_decoded_valid(e[i].1->Array_0[j]);
        }
    }
}

/// The same for a mapping of nested schemas.
proof fn lemma_nested_dict_at_valid(e: Seq<(Seq<char>, Tree)>, key: Seq<char>)
    requires
        Tree::Object(e).well_formed(),
        nested_dict_at(e, key) is Some,
    ensures
        nested_dict_valid(nested_dict_at(e, key)->0),
    decreases e,
{
    let i = last_index(e, key);
    if 0 <= i < e.len() && !(e[i].1 is Null) {
        let d = nested_dict_at(e, key)->0->0;
        let entries = e[i].1->Object_0;
        assert(e[i].1.well_formed());
        assert forall|j: int| 0 <= j < d.len() implies schema_valid((#[trigger] d[j]).1) by {
            assert(schema_decoded(e[i].1->Object_0[j].1) is Some);
            assert(e[i].1->Object_0[j].1.well_formed());
            lemma_schema_decoded_valid(e[i].1->Object_0[j].1);
        }
        assert forall|j: int, k: int| 0 <= j < k < d.len() implies (#[trigger] d[j]).0 != (
        #[trigger] d[k]).0 by {
            assert(entries[j].0 != entries[k].0);
        }
    }
}

/// The schema that is decoded from a well-formed tree is valid.
pub proof fn lemma_schema_decoded_valid(tree: Tree)
    requires
        tree.well_formed(),
        schema_decoded(tree) is Some,
    ensures
        schema_valid(schema_decoded(tree)->0),
    decreases tree,
{
    let e = tree->Object_0;
    lemma_nested_at_valid(e, "not"@);
    lemma_nested_list_at_valid(e, "allOf"@);
    lemma_nested_list_at_valid(e, "oneOf"@);
    lemma_nested_list_at_valid(e, "anyOf"@);
    lemma_nested_at_valid(e, "items"@);
    lemma_nested_dict_at_valid(e, "properties"@);
    lemma_nested_at_valid(e, "additionalProperties"@);
    lemma_field_valid::<Node>(e, "default"@);
    lemma_field_valid::<Discriminator>(e, "discriminator"@);
    lemma_field_valid::<Node>(e, "example"@);
}

impl Wire for Schema {
    type Model = SchemaModel;

    open spec fn model(&self) -> SchemaModel {
        schema_model(*self)
    }

    open spec fn decoded(tree: Tree) -> Option<SchemaModel> {
        schema_decoded(tree)
    }

    open spec fn encoded(model: SchemaModel) -> Tree {
        schema_encoded(model)
    }

    open spec fn valid(model: SchemaModel) -> bool {
        schema_valid(model)
    }

    open spec fn fault(tree: Tree) -> Seq<Seq<char>> {
        schema_fault(tree)
    }

    fn decode(node: &Node) -> (r: Result<Schema, Mismatch>) {
        decode_schema(node)
    }

    fn encode(&self) -> (r: Node) {
        encode_schema(self)
    }

    proof fn lemma_round_trip(model: SchemaModel) {
        lemma_schema_round_trip(model);
    }

    proof fn lemma_decoded_valid(tree: Tree) {
        lemma_schema_decoded_valid(tree);
    }

    proof fn lemma_encoded_well_formed(model: SchemaModel) {
        lemma_schema_encoded_well_formed(model);
    }

    proof fn lemma_no_fault(tree: Tree) {
    }
}

} // verus!
