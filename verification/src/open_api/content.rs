//! Parameters, payloads and responses.

use vstd::prelude::*;

use crate::codec::{
    at, at_fault, emit, field, lemma_field_round_trip, lemma_field_valid,
    lemma_tree_of_well_formed, new_object, opt_model, opt_valid, push_entry, tree_of, Mismatch,
    Wire,
};
use crate::collection::Dict;
use crate::open_api::basic::{Example, ExampleModel};
use crate::open_api::schema::{Schema, SchemaModel};
use crate::tree::{distinct_keys, Node, Tree};

verus! {

/// The shape of a payload under one content type.
#[derive(Debug, PartialEq)]
pub struct MediaType {
    pub schema: Option<Schema>,
    /// A sample payload, of any shape.
    pub example: Option<Node>,
    /// Samples by name.
    pub examples: Option<Dict<Example>>,
}

/// The model of a [`MediaType`].
pub struct MediaTypeModel {
    pub schema: Option<SchemaModel>,
    pub example: Option<Tree>,
    pub examples: Option<Seq<(Seq<char>, ExampleModel)>>,
}

impl Wire for MediaType {
    type Model = MediaTypeModel;

    open spec fn model(&self) -> MediaTypeModel {
        MediaTypeModel {
            schema: opt_model(self.schema),
            example: opt_model(self.example),
            examples: opt_model(self.examples),
        }
    }

    open spec fn decoded(tree: Tree) -> Option<MediaTypeModel> {
        match tree {
            Tree::Object(e) => {
                let schema = at::<Schema>(e, "schema"@);
                let example = at::<Node>(e, "example"@);
                let examples = at::<Dict<Example>>(e, "examples"@);
                if schema is Some
                    && example is Some
                    && examples is Some {
                    Some(
                        MediaTypeModel {
                            schema: schema->0,
                            example: example->0,
                            examples: examples->0,
                        },
                    )
                } else {
                    None
                }
            },
            _ => None,
        }
    }

    open spec fn encoded(model: MediaTypeModel) -> Tree {
        Tree::Object(
            Seq::empty()
                .push(("schema"@, tree_of::<Schema>(model.schema)))
                .push(("example"@, tree_of::<Node>(model.example)))
                .push(("examples"@, tree_of::<Dict<Example>>(model.examples))),
        )
    }

    open spec fn valid(model: MediaTypeModel) -> bool {
        &&& opt_valid::<Schema>(model.schema)
        &&& opt_valid::<Node>(model.example)
        &&& opt_valid::<Dict<Example>>(model.examples)
    }

    open spec fn fault(tree: Tree) -> Seq<Seq<char>> {
        match tree {
            Tree::Object(e) => {
                if at::<Schema>(e, "schema"@) is None {
                    at_fault::<Schema>(e, "schema"@)
                } else if at::<Node>(e, "example"@) is None {
                    at_fault::<Node>(e, "example"@)
                } else if at::<Dict<Example>>(e, "examples"@) is None {
                    at_fault::<Dict<Example>>(e, "examples"@)
                } else {
                    Seq::empty()
                }
            },
            _ => Seq::empty(),
        }
    }

    fn decode(node: &Node) -> (r: Result<MediaType, Mismatch>) {
        match node {
            Node::Object(e) => {
                let schema = field::<Schema>(e, "schema")?;
                let example = field::<Node>(e, "example")?;
                let examples = field::<Dict<Example>>(e, "examples")?;
                Ok(MediaType { schema, example, examples })
            },
            _ => Err(Mismatch::here()),
        }
    }

    fn encode(&self) -> (r: Node) {
        let mut e = new_object();
        push_entry(&mut e, "schema", emit(&self.schema));
        push_entry(&mut e, "example", emit(&self.example));
        push_entry(&mut e, "examples", emit(&self.examples));
        Node::Object(e)
    }

    proof fn lemma_round_trip(model: MediaTypeModel) {
        let e = Self::encoded(model)->Object_0;
        Self::lemma_encoded_well_formed(model);
        lemma_field_round_trip::<Schema>(e, 0, model.schema);
        lemma_field_round_trip::<Node>(e, 1, model.example);
        lemma_field_round_trip::<Dict<Example>>(e, 2, model.examples);
    }

    proof fn lemma_decoded_valid(tree: Tree) {
        let e = tree->Object_0;
        lemma_field_valid::<Schema>(e, "schema"@);
        lemma_field_valid::<Node>(e, "example"@);
        lemma_field_valid::<Dict<Example>>(e, "examples"@);
    }

    proof fn lemma_encoded_well_formed(model: MediaTypeModel) {
        let e = Self::encoded(model)->Object_0;
        // No two names are the same: they differ in length, or at one of the
        // characters that are named here.
        reveal_strlit("schema");
        reveal_strlit("example");
        reveal_strlit("examples");
        assert("schema"@.len() == 6);
        assert("example"@.len() == 7);
        assert("examples"@.len() == 8);
        assert(distinct_keys(e));
        lemma_tree_of_well_formed::<Schema>(model.schema);
        lemma_tree_of_well_formed::<Node>(model.example);
        lemma_tree_of_well_formed::<Dict<Example>>(model.examples);
    }

    proof fn lemma_no_fault(tree: Tree) {
    }
}

/// A header of a response.
#[derive(Debug, PartialEq)]
pub struct Header {
    pub description: Option<String>,
    pub schema: Option<Schema>,
    /// A sample value, of any shape.
    pub example: Option<Node>,
}

/// The model of a [`Header`].
pub struct HeaderModel {
    pub description: Option<Seq<char>>,
    pub schema: Option<SchemaModel>,
    pub example: Option<Tree>,
}

impl Wire for Header {
    type Model = HeaderModel;

    open spec fn model(&self) -> HeaderModel {
        HeaderModel {
            description: opt_model(self.description),
            schema: opt_model(self.schema),
            example: opt_model(self.example),
        }
    }

    open spec fn decoded(tree: Tree) -> Option<HeaderModel> {
        match tree {
            Tree::Object(e) => {
                let description = at::<String>(e, "description"@);
                let schema = at::<Schema>(e, "schema"@);
                let example = at::<Node>(e, "example"@);
                if description is Some
                    && schema is Some
                    && example is Some {
                    Some(
                        HeaderModel {
                            description: description->0,
                            schema: schema->0,
                            example: example->0,
                        },
                    )
                } else {
                    None
                }
            },
            _ => None,
        }
    }

    open spec fn encoded(model: HeaderModel) -> Tree {
        Tree::Object(
            Seq::empty()
                .push(("description"@, tree_of::<String>(model.description)))
                .push(("schema"@, tree_of::<Schema>(model.schema)))
                .push(("example"@, tree_of::<Node>(model.example))),
        )
    }

    open spec fn valid(model: HeaderModel) -> bool {
        &&& opt_valid::<Schema>(model.schema)
        &&& opt_valid::<Node>(model.example)
    }

    open spec fn fault(tree: Tree) -> Seq<Seq<char>> {
        match tree {
            Tree::Object(e) => {
                if at::<String>(e, "description"@) is None {
                    at_fault::<String>(e, "description"@)
                } else if at::<Schema>(e, "schema"@) is None {
                    at_fault::<Schema>(e, "schema"@)
                } else if at::<Node>(e, "example"@) is None {
                    at_fault::<Node>(e, "example"@)
                } else {
                    Seq::empty()
                }
            },
            _ => Seq::empty(),
        }
    }

    fn decode(node: &Node) -> (r: Result<Header, Mismatch>) {
        match node {
            Node::Object(e) => {
                let description = field::<String>(e, "description")?;
                let schema = field::<Schema>(e, "schema")?;
                let example = field::<Node>(e, "example")?;
                Ok(Header { description, schema, example })
            },
            _ => Err(Mismatch::here()),
        }
    }

    fn encode(&self) -> (r: Node) {
        let mut e = new_object();
        push_entry(&mut e, "description", emit(&self.description));
        push_entry(&mut e, "schema", emit(&self.schema));
        push_entry(&mut e, "example", emit(&self.example));
        Node::Object(e)
    }

    proof fn lemma_round_trip(model: HeaderModel) {
        let e = Self::encoded(model)->Object_0;
        Self::lemma_encoded_well_formed(model);
        lemma_field_round_trip::<String>(e, 0, model.description);
        lemma_field_round_trip::<Schema>(e, 1, model.schema);
        lemma_field_round_trip::<Node>(e, 2, model.example);
    }

    proof fn lemma_decoded_valid(tree: Tree) {
        let e = tree->Object_0;
        lemma_field_valid::<Schema>(e, "schema"@);
        lemma_field_valid::<Node>(e, "example"@);
    }

    proof fn lemma_encoded_well_formed(model: HeaderModel) {
        let e = Self::encoded(model)->Object_0;
        // No two names are the same: they differ in length, or at one of the
        // characters that are named here.
        reveal_strlit("description");
        reveal_strlit("schema");
        reveal_strlit("example");
        assert("description"@.len() == 11);
        assert("schema"@.len() == 6);
        assert("example"@.len() == 7);
        assert(distinct_keys(e));
        lemma_tree_of_well_formed::<String>(model.description);
        lemma_tree_of_well_formed::<Schema>(model.schema);
        lemma_tree_of_well_formed::<Node>(model.example);
    }

    proof fn lemma_no_fault(tree: Tree) {
    }
}

/// An input of a request: in the query, a header, the path or a cookie.
#[derive(Debug, PartialEq)]
pub struct Parameter {
    pub name: Option<String>,
    /// Where the parameter is sent; `in` on the wire.
    pub in_: Option<String>,
    pub required: Option<bool>,
    pub schema: Option<Schema>,
    pub description: Option<String>,
    /// A sample value, of any shape.
    pub example: Option<Node>,
    /// Samples by name.
    pub examples: Option<Dict<Example>>,
}

/// The model of a [`Parameter`].
pub struct ParameterModel {
    pub name: Option<Seq<char>>,
    pub in_: Option<Seq<char>>,
    pub required: Option<bool>,
    pub schema: Option<SchemaModel>,
    pub description: Option<Seq<char>>,
    pub example: Option<Tree>,
    pub examples: Option<Seq<(Seq<char>, ExampleModel)>>,
}

impl Wire for Parameter {
    type Model = ParameterModel;

    open spec fn model(&self) -> ParameterModel {
        ParameterModel {
            name: opt_model(self.name),
            in_: opt_model(self.in_),
            required: opt_model(self.required),
            schema: opt_model(self.schema),
            description: opt_model(self.description),
            example: opt_model(self.example),
            examples: opt_model(self.examples),
        }
    }

    open spec fn decoded(tree: Tree) -> Option<ParameterModel> {
        match tree {
            Tree::Object(e) => {
                let name = at::<String>(e, "name"@);
                let in_ = at::<String>(e, "in"@);
                let required = at::<bool>(e, "required"@);
                let schema = at::<Schema>(e, "schema"@);
                let description = at::<String>(e, "description"@);
                let example = at::<Node>(e, "example"@);
                let examples = at::<Dict<Example>>(e, "examples"@);
                if name is Some
                    && in_ is Some
                    && required is Some
                    && schema is Some
                    && description is Some
                    && example is Some
                    && examples is Some {
                    Some(
                        ParameterModel {
                            name: name->0,
                            in_: in_->0,
                            required: required->0,
                            schema: schema->0,
                            description: description->0,
                            example: example->0,
                            examples: examples->0,
                        },
                    )
                } else {
                    None
                }
            },
            _ => None,
        }
    }

    open spec fn encoded(model: ParameterModel) -> Tree {
        Tree::Object(
            Seq::empty()
                .push(("name"@, tree_of::<String>(model.name)))
                .push(("in"@, tree_of::<String>(model.in_)))
                .push(("required"@, tree_of::<bool>(model.required)))
                .push(("schema"@, tree_of::<Schema>(model.schema)))
                .push(("description"@, tree_of::<String>(model.description)))
                .push(("example"@, tree_of::<Node>(model.example)))
                .push(("examples"@, tree_of::<Dict<Example>>(model.examples))),
        )
    }

    open spec fn valid(model: ParameterModel) -> bool {
        &&& opt_valid::<Schema>(model.schema)
        &&& opt_valid::<Node>(model.example)
        &&& opt_valid::<Dict<Example>>(model.examples)
    }

    open spec fn fault(tree: Tree) -> Seq<Seq<char>> {
        match tree {
            Tree::Object(e) => {
                if at::<String>(e, "name"@) is None {
                    at_fault::<String>(e, "name"@)
                } else if at::<String>(e, "in"@) is None {
                    at_fault::<String>(e, "in"@)
                } else if at::<bool>(e, "required"@) is None {
                    at_fault::<bool>(e, "required"@)
                } else if at::<Schema>(e, "schema"@) is None {
                    at_fault::<Schema>(e, "schema"@)
                } else if at::<String>(e, "description"@) is None {
                    at_fault::<String>(e, "description"@)
                } else if at::<Node>(e, "example"@) is None {
                    at_fault::<Node>(e, "example"@)
                } else if at::<Dict<Example>>(e, "examples"@) is None {
                    at_fault::<Dict<Example>>(e, "examples"@)
                } else {
                    Seq::empty()
                }
            },
            _ => Seq::empty(),
        }
    }

    fn decode(node: &Node) -> (r: Result<Parameter, Mismatch>) {
        match node {
            Node::Object(e) => {
                let name = field::<String>(e, "name")?;
                let in_ = field::<String>(e, "in")?;
                let required = field::<bool>(e, "required")?;
                let schema = field::<Schema>(e, "schema")?;
                let description = field::<String>(e, "description")?;
                let example = field::<Node>(e, "example")?;
                let examples = field::<Dict<Example>>(e, "examples")?;
                Ok(Parameter { name, in_, required, schema, description, example, examples })
            },
            _ => Err(Mismatch::here()),
        }
    }

    fn encode(&self) -> (r: Node) {
        let mut e = new_object();
        push_entry(&mut e, "name", emit(&self.name));
        push_entry(&mut e, "in", emit(&self.in_));
        push_entry(&mut e, "required", emit(&self.required));
        push_entry(&mut e, "schema", emit(&self.schema));
        push_entry(&mut e, "description", emit(&self.description));
        push_entry(&mut e, "example", emit(&self.example));
        push_entry(&mut e, "examples", emit(&self.examples));
        Node::Object(e)
    }

    proof fn lemma_round_trip(model: ParameterModel) {
        let e = Self::encoded(model)->Object_0;
        Self::lemma_encoded_well_formed(model);
        lemma_field_round_trip::<String>(e, 0, model.name);
        lemma_field_round_trip::<String>(e, 1, model.in_);
        lemma_field_round_trip::<bool>(e, 2, model.required);
        lemma_field_round_trip::<Schema>(e, 3, model.schema);
        lemma_field_round_trip::<String>(e, 4, model.description);
        lemma_field_round_trip::<Node>(e, 5, model.example);
        lemma_field_round_trip::<Dict<Example>>(e, 6, model.examples);
    }

    proof fn lemma_decoded_valid(tree: Tree) {
        let e = tree->Object_0;
        lemma_field_valid::<Schema>(e, "schema"@);
        lemma_field_valid::<Node>(e, "example"@);
        lemma_field_valid::<Dict<Example>>(e, "examples"@);
    }

    proof fn lemma_encoded_well_formed(model: ParameterModel) {
        let e = Self::encoded(model)->Object_0;
        // No two names are the same: they differ in length, or at one of the
        // characters that are named here.
        reveal_strlit("name");
        reveal_strlit("in");
        reveal_strlit("required");
        reveal_strlit("schema");
        reveal_strlit("description");
        reveal_strlit("example");
        reveal_strlit("examples");
        assert("name"@.len() == 4);
        assert("in"@.len() == 2);
        assert("required"@.len() == 8 && "required"@[0] == 'r');
        assert("schema"@.len() == 6);
        assert("description"@.len() == 11);
        assert("example"@.len() == 7);
        assert("examples"@.len() == 8 && "examples"@[0] == 'e');
        assert(distinct_keys(e));
        lemma_tree_of_well_formed::<String>(model.name);
        lemma_tree_of_well_formed::<String>(model.in_);
        lemma_tree_of_well_formed::<bool>(model.required);
        lemma_tree_of_well_formed::<Schema>(model.schema);
        lemma_tree_of_well_formed::<String>(model.description);
        lemma_tree_of_well_formed::<Node>(model.example);
        lemma_tree_of_well_formed::<Dict<Example>>(model.examples);
    }

    proof fn lemma_no_fault(tree: Tree) {
    }
}

/// The payload of a request.
#[derive(Debug, PartialEq)]
pub struct RequestBody {
    /// The shape of the payload by content type.
    pub content: Option<Dict<MediaType>>,
    pub description: Option<String>,
    pub required: Option<bool>,
}

/// The model of a [`RequestBody`].
pub struct RequestBodyModel {
    pub content: Option<Seq<(Seq<char>, MediaTypeModel)>>,
    pub description: Option<Seq<char>>,
    pub required: Option<bool>,
}

impl Wire for RequestBody {
    type Model = RequestBodyModel;

    open spec fn model(&self) -> RequestBodyModel {
        RequestBodyModel {
            content: opt_model(self.content),
            description: opt_model(self.description),
            required: opt_model(self.required),
        }
    }

    open spec fn decoded(tree: Tree) -> Option<RequestBodyModel> {
        match tree {
            Tree::Object(e) => {
                let content = at::<Dict<MediaType>>(e, "content"@);
                let description = at::<String>(e, "description"@);
                let required = at::<bool>(e, "required"@);
                if content is Some
                    && description is Some
                    && required is Some {
                    Some(
                        RequestBodyModel {
                            content: content->0,
                            description: description->0,
                            required: required->0,
                        },
                    )
                } else {
                    None
                }
            },
            _ => None,
        }
    }

    open spec fn encoded(model: RequestBodyModel) -> Tree {
        Tree::Object(
            Seq::empty()
                .push(("content"@, tree_of::<Dict<MediaType>>(model.content)))
                .push(("description"@, tree_of::<String>(model.description)))
                .push(("required"@, tree_of::<bool>(model.required))),
        )
    }

    open spec fn valid(model: RequestBodyModel) -> bool {
        &&& opt_valid::<Dict<MediaType>>(model.content)
    }

    open spec fn fault(tree: Tree) -> Seq<Seq<char>> {
        match tree {
            Tree::Object(e) => {
                if at::<Dict<MediaType>>(e, "content"@) is None {
                    at_fault::<Dict<MediaType>>(e, "content"@)
                } else if at::<String>(e, "description"@) is None {
                    at_fault::<String>(e, "description"@)
                } else if at::<bool>(e, "required"@) is None {
                    at_fault::<bool>(e, "required"@)
                } else {
                    Seq::empty()
                }
            },
            _ => Seq::empty(),
        }
    }

    fn decode(node: &Node) -> (r: Result<RequestBody, Mismatch>) {
        match node {
            Node::Object(e) => {
                let content = field::<Dict<MediaType>>(e, "content")?;
                let description = field::<String>(e, "description")?;
                let required = field::<bool>(e, "required")?;
                Ok(RequestBody { content, description, required })
            },
            _ => Err(Mismatch::here()),
        }
    }

    fn encode(&self) -> (r: Node) {
        let mut e = new_object();
        push_entry(&mut e, "content", emit(&self.content));
        push_entry(&mut e, "description", emit(&self.description));
        push_entry(&mut e, "required", emit(&self.required));
        Node::Object(e)
    }

    proof fn lemma_round_trip(model: RequestBodyModel) {
        let e = Self::encoded(model)->Object_0;
        Self::lemma_encoded_well_formed(model);
        lemma_field_round_trip::<Dict<MediaType>>(e, 0, model.content);
        lemma_field_round_trip::<String>(e, 1, model.description);
        lemma_field_round_trip::<bool>(e, 2, model.required);
    }

    proof fn lemma_decoded_valid(tree: Tree) {
        let e = tree->Object_0;
        lemma_field_valid::<Dict<MediaType>>(e, "content"@);
    }

    proof fn lemma_encoded_well_formed(model: RequestBodyModel) {
        let e = Self::encoded(model)->Object_0;
        // No two names are the same: they differ in length, or at one of the
        // characters that are named here.
        reveal_strlit("content");
        reveal_strlit("description");
        reveal_strlit("required");
        assert("content"@.len() == 7);
        assert("description"@.len() == 11);
        assert("required"@.len() == 8);
        assert(distinct_keys(e));
        lemma_tree_of_well_formed::<Dict<MediaType>>(model.content);
        lemma_tree_of_well_formed::<String>(model.description);
        lemma_tree_of_well_formed::<bool>(model.required);
    }

    proof fn lemma_no_fault(tree: Tree) {
    }
}

/// One response of an operation.
#[derive(Debug, PartialEq)]
pub struct Response {
    pub description: Option<String>,
    /// The shape of the payload by content type.
    pub content: Option<Dict<MediaType>>,
    /// The headers of the response by name.
    pub headers: Option<Dict<Header>>,
}

/// The model of a [`Response`].
pub struct ResponseModel {
    pub description: Option<Seq<char>>,
    pub content: Option<Seq<(Seq<char>, MediaTypeModel)>>,
    pub headers: Option<Seq<(Seq<char>, HeaderModel)>>,
}

impl Wire for Response {
    type Model = ResponseModel;

    open spec fn model(&self) -> ResponseModel {
        ResponseModel {
            description: opt_model(self.description),
            content: opt_model(self.content),
            headers: opt_model(self.headers),
        }
    }

    open spec fn decoded(tree: Tree) -> Option<ResponseModel> {
        match tree {
            Tree::Object(e) => {
                let description = at::<String>(e, "description"@);
                let content = at::<Dict<MediaType>>(e, "content"@);
                let headers = at::<Dict<Header>>(e, "headers"@);
                if description is Some
                    && content is Some
                    && headers is Some {
                    Some(
                        ResponseModel {
                            description: description->0,
                            content: content->0,
                            headers: headers->0,
                        },
                    )
                } else {
                    None
                }
            },
            _ => None,
        }
    }

    open spec fn encoded(model: ResponseModel) -> Tree {
        Tree::Object(
            Seq::empty()
                .push(("description"@, tree_of::<String>(model.description)))
                .push(("content"@, tree_of::<Dict<MediaType>>(model.content)))
                .push(("headers"@, tree_of::<Dict<Header>>(model.headers))),
        )
    }

    open spec fn valid(model: ResponseModel) -> bool {
        &&& opt_valid::<Dict<MediaType>>(model.content)
        &&& opt_valid::<Dict<Header>>(model.headers)
    }

    open spec fn fault(tree: Tree) -> Seq<Seq<char>> {
        match tree {
            Tree::Object(e) => {
                if at::<String>(e, "description"@) is None {
                    at_fault::<String>(e, "description"@)
                } else if at::<Dict<MediaType>>(e, "content"@) is None {
                    at_fault::<Dict<MediaType>>(e, "content"@)
                } else if at::<Dict<Header>>(e, "headers"@) is None {
                    at_fault::<Dict<Header>>(e, "headers"@)
                } else {
                    Seq::empty()
                }
            },
            _ => Seq::empty(),
        }
    }

    fn decode(node: &Node) -> (r: Result<Response, Mismatch>) {
        match node {
            Node::Object(e) => {
                let description = field::<String>(e, "description")?;
                let content = field::<Dict<MediaType>>(e, "content")?;
                let headers = field::<Dict<Header>>(e, "headers")?;
                Ok(Response { description, content, headers })
            },
            _ => Err(Mismatch::here()),
        }
    }

    fn encode(&self) -> (r: Node) {
        let mut e = new_object();
        push_entry(&mut e, "description", emit(&self.description));
        push_entry(&mut e, "content", emit(&self.content));
        push_entry(&mut e, "headers", emit(&self.headers));
        Node::Object(e)
    }

    proof fn lemma_round_trip(model: ResponseModel) {
        let e = Self::encoded(model)->Object_0;
        Self::lemma_encoded_well_formed(model);
        lemma_field_round_trip::<String>(e, 0, model.description);
        lemma_field_round_trip::<Dict<MediaType>>(e, 1, model.content);
        lemma_field_round_trip::<Dict<Header>>(e, 2, model.headers);
    }

    proof fn lemma_decoded_valid(tree: Tree) {
        let e = tree->Object_0;
        lemma_field_valid::<Dict<MediaType>>(e, "content"@);
        lemma_field_valid::<Dict<Header>>(e, "headers"@);
    }

    proof fn lemma_encoded_well_formed(model: ResponseModel) {
        let e = Self::encoded(model)->Object_0;
        // No two names are the same: they differ in length, or at one of the
        // characters that are named here.
        reveal_strlit("description");
        reveal_strlit("content");
        reveal_strlit("headers");
        assert("description"@.len() == 11);
        assert("content"@.len() == 7 && "content"@[0] == 'c');
        assert("headers"@.len() == 7 && "headers"@[0] == 'h');
        assert(distinct_keys(e));
        lemma_tree_of_well_formed::<String>(model.description);
        lemma_tree_of_well_formed::<Dict<MediaType>>(model.content);
        lemma_tree_of_well_formed::<Dict<Header>>(model.headers);
    }

    proof fn lemma_no_fault(tree: Tree) {
    }
}

} // verus!
