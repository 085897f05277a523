//! The entities that hold no other entity.

use vstd::prelude::*;

use crate::collection::Dict;
use crate::codec::{
    at, at_fault, emit, field, lemma_field_round_trip, lemma_field_valid,
    lemma_tree_of_well_formed, new_object, opt_model, opt_valid, push_entry, tree_of, Mismatch,
    Wire,
};
use crate::tree::{distinct_keys, Node, Tree};

verus! {

/// The metadata of a document.
#[derive(Debug, PartialEq)]
pub struct Info {
    pub title: Option<String>,
    pub description: Option<String>,
    pub version: Option<String>,
}

/// The model of an [`Info`].
pub struct InfoModel {
    pub title: Option<Seq<char>>,
    pub description: Option<Seq<char>>,
    pub version: Option<Seq<char>>,
}

impl Wire for Info {
    type Model = InfoModel;

    open spec fn model(&self) -> InfoModel {
        InfoModel {
            title: opt_model(self.title),
            description: opt_model(self.description),
            version: opt_model(self.version),
        }
    }

    open spec fn decoded(tree: Tree) -> Option<InfoModel> {
        match tree {
            Tree::Object(e) => {
                let title = at::<String>(e, "title"@);
                let description = at::<String>(e, "description"@);
                let version = at::<String>(e, "version"@);
                if title is Some
                    && description is Some
                    && version is Some {
                    Some(
                        InfoModel {
                            title: title->0,
                            description: description->0,
                            version: version->0,
                        },
                    )
                } else {
                    None
                }
            },
            _ => None,
        }
    }

    open spec fn encoded(model: InfoModel) -> Tree {
        Tree::Object(
            Seq::empty()
                .push(("title"@, tree_of::<String>(model.title)))
                .push(("description"@, tree_of::<String>(model.description)))
                .push(("version"@, tree_of::<String>(model.version))),
        )
    }

    open spec fn valid(model: InfoModel) -> bool {
        true
    }

    open spec fn fault(tree: Tree) -> Seq<Seq<char>> {
        match tree {
            Tree::Object(e) => {
                if at::<String>(e, "title"@) is None {
                    at_fault::<String>(e, "title"@)
                } else if at::<String>(e, "description"@) is None {
                    at_fault::<String>(e, "description"@)
                } else if at::<String>(e, "version"@) is None {
                    at_fault::<String>(e, "version"@)
                } else {
                    Seq::empty()
                }
            },
            _ => Seq::empty(),
        }
    }

    fn decode(node: &Node) -> (r: Result<Info, Mismatch>) {
        match node {
            Node::Object(e) => {
                let title = field::<String>(e, "title")?;
                let description = field::<String>(e, "description")?;
                let version = field::<String>(e, "version")?;
                Ok(Info { title, description, version })
            },
            _ => Err(Mismatch::here()),
        }
    }

    fn encode(&self) -> (r: Node) {
        let mut e = new_object();
        push_entry(&mut e, "title", emit(&self.title));
        push_entry(&mut e, "description", emit(&self.description));
        push_entry(&mut e, "version", emit(&self.version));
        Node::Object(e)
    }

    proof fn lemma_round_trip(model: InfoModel) {
        let e = Self::encoded(model)->Object_0;
        Self::lemma_encoded_well_formed(model);
        lemma_field_round_trip::<String>(e, 0, model.title);
        lemma_field_round_trip::<String>(e, 1, model.description);
        lemma_field_round_trip::<String>(e, 2, model.version);
    }

    proof fn lemma_decoded_valid(tree: Tree) {
    }

    proof fn lemma_encoded_well_formed(model: InfoModel) {
        let e = Self::encoded(model)->Object_0;
        // No two names are the same: they differ in length, or at one of the
        // characters that are named here.
        reveal_strlit("title");
        reveal_strlit("description");
        reveal_strlit("version");
        assert("title"@.len() == 5);
        assert("description"@.len() == 11);
        assert("version"@.len() == 7);
        assert(distinct_keys(e));
        lemma_tree_of_well_formed::<String>(model.title);
        lemma_tree_of_well_formed::<String>(model.description);
        lemma_tree_of_well_formed::<String>(model.version);
    }

    proof fn lemma_no_fault(tree: Tree) {
    }
}

/// A base URL under which the API can be reached.
#[derive(Debug, PartialEq)]
pub struct Server {
    pub url: Option<String>,
    pub description: Option<String>,
}

/// The model of a [`Server`].
pub struct ServerModel {
    pub url: Option<Seq<char>>,
    pub description: Option<Seq<char>>,
}

impl Wire for Server {
    type Model = ServerModel;

    open spec fn model(&self) -> ServerModel {
        ServerModel {
            url: opt_model(self.url),
            description: opt_model(self.description),
        }
    }

    open spec fn decoded(tree: Tree) -> Option<ServerModel> {
        match tree {
            Tree::Object(e) => {
                let url = at::<String>(e, "url"@);
                let description = at::<String>(e, "description"@);
                if url is Some
                    && description is Some {
                    Some(
                        ServerModel {
                            url: url->0,
                            description: description->0,
                        },
                    )
                } else {
                    None
                }
            },
            _ => None,
        }
    }

    open spec fn encoded(model: ServerModel) -> Tree {
        Tree::Object(
            Seq::empty()
                .push(("url"@, tree_of::<String>(model.url)))
                .push(("description"@, tree_of::<String>(model.description))),
        )
    }

    open spec fn valid(model: ServerModel) -> bool {
        true
    }

    open spec fn fault(tree: Tree) -> Seq<Seq<char>> {
        match tree {
            Tree::Object(e) => {
                if at::<String>(e, "url"@) is None {
                    at_fault::<String>(e, "url"@)
                } else if at::<String>(e, "description"@) is None {
                    at_fault::<String>(e, "description"@)
                } else {
                    Seq::empty()
                }
            },
            _ => Seq::empty(),
        }
    }

    fn decode(node: &Node) -> (r: Result<Server, Mismatch>) {
        match node {
            Node::Object(e) => {
                let url = field::<String>(e, "url")?;
                let description = field::<String>(e, "description")?;
                Ok(Server { url, description })
            },
            _ => Err(Mismatch::here()),
        }
    }

    fn encode(&self) -> (r: Node) {
        let mut e = new_object();
        push_entry(&mut e, "url", emit(&self.url));
        push_entry(&mut e, "description", emit(&self.description));
        Node::Object(e)
    }

    proof fn lemma_round_trip(model: ServerModel) {
        let e = Self::encoded(model)->Object_0;
        Self::lemma_encoded_well_formed(model);
        lemma_field_round_trip::<String>(e, 0, model.url);
        lemma_field_round_trip::<String>(e, 1, model.description);
    }

    proof fn lemma_decoded_valid(tree: Tree) {
    }

    proof fn lemma_encoded_well_formed(model: ServerModel) {
        let e = Self::encoded(model)->Object_0;
        // No two names are the same: they differ in length, or at one of the
        // characters that are named here.
        reveal_strlit("url");
        reveal_strlit("description");
        assert("url"@.len() == 3);
        assert("description"@.len() == 11);
        assert(distinct_keys(e));
        lemma_tree_of_well_formed::<String>(model.url);
        lemma_tree_of_well_formed::<String>(model.description);
    }

    proof fn lemma_no_fault(tree: Tree) {
    }
}

/// How a schema is written as XML.
#[derive(Debug, PartialEq)]
pub struct XML {
    pub name: Option<String>,
    pub namespace: Option<String>,
    pub prefix: Option<String>,
    pub attribute: Option<bool>,
    pub wrapped: Option<bool>,
}

/// The model of an [`XML`].
pub struct XMLModel {
    pub name: Option<Seq<char>>,
    pub namespace: Option<Seq<char>>,
    pub prefix: Option<Seq<char>>,
    pub attribute: Option<bool>,
    pub wrapped: Option<bool>,
}

impl Wire for XML {
    type Model = XMLModel;

    open spec fn model(&self) -> XMLModel {
        XMLModel {
            name: opt_model(self.name),
            namespace: opt_model(self.namespace),
            prefix: opt_model(self.prefix),
            attribute: opt_model(self.attribute),
            wrapped: opt_model(self.wrapped),
        }
    }

    open spec fn decoded(tree: Tree) -> Option<XMLModel> {
        match tree {
            Tree::Object(e) => {
                let name = at::<String>(e, "name"@);
                let namespace = at::<String>(e, "namespace"@);
                let prefix = at::<String>(e, "prefix"@);
                let attribute = at::<bool>(e, "attribute"@);
                let wrapped = at::<bool>(e, "wrapped"@);
                if name is Some
                    && namespace is Some
                    && prefix is Some
                    && attribute is Some
                    && wrapped is Some {
                    Some(
                        XMLModel {
                            name: name->0,
                            namespace: namespace->0,
                            prefix: prefix->0,
                            attribute: attribute->0,
                            wrapped: wrapped->0,
                        },
                    )
                } else {
                    None
                }
            },
            _ => None,
        }
    }

    open spec fn encoded(model: XMLModel) -> Tree {
        Tree::Object(
            Seq::empty()
                .push(("name"@, tree_of::<String>(model.name)))
                .push(("namespace"@, tree_of::<String>(model.namespace)))
                .push(("prefix"@, tree_of::<String>(model.prefix)))
                .push(("attribute"@, tree_of::<bool>(model.attribute)))
                .push(("wrapped"@, tree_of::<bool>(model.wrapped))),
        )
    }

    open spec fn valid(model: XMLModel) -> bool {
        true
    }

    open spec fn fault(tree: Tree) -> Seq<Seq<char>> {
        match tree {
            Tree::Object(e) => {
                if at::<String>(e, "name"@) is None {
                    at_fault::<String>(e, "name"@)
                } else if at::<String>(e, "namespace"@) is None {
                    at_fault::<String>(e, "namespace"@)
                } else if at::<String>(e, "prefix"@) is None {
                    at_fault::<String>(e, "prefix"@)
                } else if at::<bool>(e, "attribute"@) is None {
                    at_fault::<bool>(e, "attribute"@)
                } else if at::<bool>(e, "wrapped"@) is None {
                    at_fault::<bool>(e, "wrapped"@)
                } else {
                    Seq::empty()
                }
            },
            _ => Seq::empty(),
        }
    }

    fn decode(node: &Node) -> (r: Result<XML, Mismatch>) {
        match node {
            Node::Object(e) => {
                let name = field::<String>(e, "name")?;
                let namespace = field::<String>(e, "namespace")?;
                let prefix = field::<String>(e, "prefix")?;
                let attribute = field::<bool>(e, "attribute")?;
                let wrapped = field::<bool>(e, "wrapped")?;
                Ok(XML { name, namespace, prefix, attribute, wrapped })
            },
            _ => Err(Mismatch::here()),
        }
    }

    fn encode(&self) -> (r: Node) {
        let mut e = new_object();
        push_entry(&mut e, "name", emit(&self.name));
        push_entry(&mut e, "namespace", emit(&self.namespace));
        push_entry(&mut e, "prefix", emit(&self.prefix));
        push_entry(&mut e, "attribute", emit(&self.attribute));
        push_entry(&mut e, "wrapped", emit(&self.wrapped));
        Node::Object(e)
    }

    proof fn lemma_round_trip(model: XMLModel) {
        let e = Self::encoded(model)->Object_0;
        Self::lemma_encoded_well_formed(model);
        lemma_field_round_trip::<String>(e, 0, model.name);
        lemma_field_round_trip::<String>(e, 1, model.namespace);
        lemma_field_round_trip::<String>(e, 2, model.prefix);
        lemma_field_round_trip::<bool>(e, 3, model.attribute);
        lemma_field_round_trip::<bool>(e, 4, model.wrapped);
    }

    proof fn lemma_decoded_valid(tree: Tree) {
    }

    proof fn lemma_encoded_well_formed(model: XMLModel) {
        let e = Self::encoded(model)->Object_0;
        // No two names are the same: they differ in length, or at one of the
        // characters that are named here.
        reveal_strlit("name");
        reveal_strlit("namespace");
        reveal_strlit("prefix");
        reveal_strlit("attribute");
        reveal_strlit("wrapped");
        assert("name"@.len() == 4);
        assert("namespace"@.len() == 9 && "namespace"@[0] == 'n');
        assert("prefix"@.len() == 6);
        assert("attribute"@.len() == 9 && "attribute"@[0] == 'a');
        assert("wrapped"@.len() == 7);
        assert(distinct_keys(e));
        lemma_tree_of_well_formed::<String>(model.name);
        lemma_tree_of_well_formed::<String>(model.namespace);
        lemma_tree_of_well_formed::<String>(model.prefix);
        lemma_tree_of_well_formed::<bool>(model.attribute);
        lemma_tree_of_well_formed::<bool>(model.wrapped);
    }

    proof fn lemma_no_fault(tree: Tree) {
    }
}

/// Which property of a value tells the schema that it follows.
#[derive(Debug, PartialEq)]
pub struct Discriminator {
    pub property_name: Option<String>,
    /// From a value of the property to the name of a schema.
    pub mapping: Option<Dict<String>>,
}

/// The model of a [`Discriminator`].
pub struct DiscriminatorModel {
    pub property_name: Option<Seq<char>>,
    pub mapping: Option<Seq<(Seq<char>, Seq<char>)>>,
}

impl Wire for Discriminator {
    type Model = DiscriminatorModel;

    open spec fn model(&self) -> DiscriminatorModel {
        DiscriminatorModel {
            property_name: opt_model(self.property_name),
            mapping: opt_model(self.mapping),
        }
    }

    open spec fn decoded(tree: Tree) -> Option<DiscriminatorModel> {
        match tree {
            Tree::Object(e) => {
                let property_name = at::<String>(e, "propertyName"@);
                let mapping = at::<Dict<String>>(e, "mapping"@);
                if property_name is Some
                    && mapping is Some {
                    Some(
                        DiscriminatorModel {
                            property_name: property_name->0,
                            mapping: mapping->0,
                        },
                    )
                } else {
                    None
                }
            },
            _ => None,
        }
    }

    open spec fn encoded(model: DiscriminatorModel) -> Tree {
        Tree::Object(
            Seq::empty()
                .push(("propertyName"@, tree_of::<String>(model.property_name)))
                .push(("mapping"@, tree_of::<Dict<String>>(model.mapping))),
        )
    }

    open spec fn valid(model: DiscriminatorModel) -> bool {
        &&& opt_valid::<Dict<String>>(model.mapping)
    }

    open spec fn fault(tree: Tree) -> Seq<Seq<char>> {
        match tree {
            Tree::Object(e) => {
                if at::<String>(e, "propertyName"@) is None {
                    at_fault::<String>(e, "propertyName"@)
                } else if at::<Dict<String>>(e, "mapping"@) is None {
                    at_fault::<Dict<String>>(e, "mapping"@)
                } else {
                    Seq::empty()
                }
            },
            _ => Seq::empty(),
        }
    }

    fn decode(node: &Node) -> (r: Result<Discriminator, Mismatch>) {
        match node {
            Node::Object(e) => {
                let property_name = field::<String>(e, "propertyName")?;
                let mapping = field::<Dict<String>>(e, "mapping")?;
                Ok(Discriminator { property_name, mapping })
            },
            _ => Err(Mismatch::here()),
        }
    }

    fn encode(&self) -> (r: Node) {
        let mut e = new_object();
        push_entry(&mut e, "propertyName", emit(&self.property_name));
        push_entry(&mut e, "mapping", emit(&self.mapping));
        Node::Object(e)
    }

    proof fn lemma_round_trip(model: DiscriminatorModel) {
        let e = Self::encoded(model)->Object_0;
        Self::lemma_encoded_well_formed(model);
        lemma_field_round_trip::<String>(e, 0, model.property_name);
        lemma_field_round_trip::<Dict<String>>(e, 1, model.mapping);
    }

    proof fn lemma_decoded_valid(tree: Tree) {
        let e = tree->Object_0;
        lemma_field_valid::<Dict<String>>(e, "mapping"@);
    }

    proof fn lemma_encoded_well_formed(model: DiscriminatorModel) {
        let e = Self::encoded(model)->Object_0;
        // No two names are the same: they differ in length, or at one of the
        // characters that are named here.
        reveal_strlit("propertyName");
        reveal_strlit("mapping");
        assert("propertyName"@.len() == 12);
        assert("mapping"@.len() == 7);
        assert(distinct_keys(e));
        lemma_tree_of_well_formed::<String>(model.property_name);
        lemma_tree_of_well_formed::<Dict<String>>(model.mapping);
    }

    proof fn lemma_no_fault(tree: Tree) {
    }
}

/// A sample value.
#[derive(Debug, PartialEq)]
pub struct Example {
    pub summary: Option<String>,
    pub description: Option<String>,
    /// The sample itself, of any shape.
    pub value: Option<Node>,
    /// A URL at which the sample can be found.
    pub external_value: Option<String>,
}

/// The model of an [`Example`].
pub struct ExampleModel {
    pub summary: Option<Seq<char>>,
    pub description: Option<Seq<char>>,
    pub value: Option<Tree>,
    pub external_value: Option<Seq<char>>,
}

impl Wire for Example {
    type Model = ExampleModel;

    open spec fn model(&self) -> ExampleModel {
        ExampleModel {
            summary: opt_model(self.summary),
            description: opt_model(self.description),
            value: opt_model(self.value),
            external_value: opt_model(self.external_value),
        }
    }

    open spec fn decoded(tree: Tree) -> Option<ExampleModel> {
        match tree {
            Tree::Object(e) => {
                let summary = at::<String>(e, "summary"@);
                let description = at::<String>(e, "description"@);
                let value = at::<Node>(e, "value"@);
                let external_value = at::<String>(e, "externalValue"@);
                if summary is Some
                    && description is Some
                    && value is Some
                    && external_value is Some {
                    Some(
                        ExampleModel {
                            summary: summary->0,
                            description: description->0,
                            value: value->0,
                            external_value: external_value->0,
                        },
                    )
                } else {
                    None
                }
            },
            _ => None,
        }
    }

    open spec fn encoded(model: ExampleModel) -> Tree {
        Tree::Object(
            Seq::empty()
                .push(("summary"@, tree_of::<String>(model.summary)))
                .push(("description"@, tree_of::<String>(model.description)))
                .push(("value"@, tree_of::<Node>(model.value)))
                .push(("externalValue"@, tree_of::<String>(model.external_value))),
        )
    }

    open spec fn valid(model: ExampleModel) -> bool {
        &&& opt_valid::<Node>(model.value)
    }

    open spec fn fault(tree: Tree) -> Seq<Seq<char>> {
        match tree {
            Tree::Object(e) => {
                if at::<String>(e, "summary"@) is None {
                    at_fault::<String>(e, "summary"@)
                } else if at::<String>(e, "description"@) is None {
                    at_fault::<String>(e, "description"@)
                } else if at::<Node>(e, "value"@) is None {
                    at_fault::<Node>(e, "value"@)
                } else if at::<String>(e, "externalValue"@) is None {
                    at_fault::<String>(e, "externalValue"@)
                } else {
                    Seq::empty()
                }
            },
            _ => Seq::empty(),
        }
    }

    fn decode(node: &Node) -> (r: Result<Example, Mismatch>) {
        match node {
            Node::Object(e) => {
                let summary = field::<String>(e, "summary")?;
                let description = field::<String>(e, "description")?;
                let value = field::<Node>(e, "value")?;
                let external_value = field::<String>(e, "externalValue")?;
                Ok(Example { summary, description, value, external_value })
            },
            _ => Err(Mismatch::here()),
        }
    }

    fn encode(&self) -> (r: Node) {
        let mut e = new_object();
        push_entry(&mut e, "summary", emit(&self.summary));
        push_entry(&mut e, "description", emit(&self.description));
        push_entry(&mut e, "value", emit(&self.value));
        push_entry(&mut e, "externalValue", emit(&self.external_value));
        Node::Object(e)
    }

    proof fn lemma_round_trip(model: ExampleModel) {
        let e = Self::encoded(model)->Object_0;
        Self::lemma_encoded_well_formed(model);
        lemma_field_round_trip::<String>(e, 0, model.summary);
        lemma_field_round_trip::<String>(e, 1, model.description);
        lemma_field_round_trip::<Node>(e, 2, model.value);
        lemma_field_round_trip::<String>(e, 3, model.external_value);
    }

    proof fn lemma_decoded_valid(tree: Tree) {
        let e = tree->Object_0;
        lemma_field_valid::<Node>(e, "value"@);
    }

    proof fn lemma_encoded_well_formed(model: ExampleModel) {
        let e = Self::encoded(model)->Object_0;
        // No two names are the same: they differ in length, or at one of the
        // characters that are named here.
        reveal_strlit("summary");
        reveal_strlit("description");
        reveal_strlit("value");
        reveal_strlit("externalValue");
        assert("summary"@.len() == 7);
        assert("description"@.len() == 11);
        assert("value"@.len() == 5);
        assert("externalValue"@.len() == 13);
        assert(distinct_keys(e));
        lemma_tree_of_well_formed::<String>(model.summary);
        lemma_tree_of_well_formed::<String>(model.description);
        lemma_tree_of_well_formed::<Node>(model.value);
        lemma_tree_of_well_formed::<String>(model.external_value);
    }

    proof fn lemma_no_fault(tree: Tree) {
    }
}

} // verus!
