//! Paths and their operations.

use vstd::prelude::*;

use crate::codec::{
    at, at_fault, emit, field, lemma_field_round_trip, lemma_field_valid,
    lemma_tree_of_well_formed, new_object, opt_model, opt_valid, push_entry, tree_of, Mismatch,
    Wire,
};
use crate::open_api::content::{Parameter, ParameterModel, RequestBody, RequestBodyModel};
use crate::open_api::responses::{Responses, ResponsesModel};
use crate::tree::{distinct_keys, Node, Tree};

verus! {

/// One HTTP verb on one path.
#[derive(Debug, PartialEq)]
pub struct Operation {
    pub tags: Option<Vec<String>>,
    pub summary: Option<String>,
    pub description: Option<String>,
    pub operation_id: Option<String>,
    pub parameters: Option<Vec<Parameter>>,
    pub request_body: Option<RequestBody>,
    pub responses: Option<Responses>,
}

/// The model of an [`Operation`].
pub struct OperationModel {
    pub tags: Option<Seq<Seq<char>>>,
    pub summary: Option<Seq<char>>,
    pub description: Option<Seq<char>>,
    pub operation_id: Option<Seq<char>>,
    pub parameters: Option<Seq<ParameterModel>>,
    pub request_body: Option<RequestBodyModel>,
    pub responses: Option<ResponsesModel>,
}

impl Wire for Operation {
    type Model = OperationModel;

    open spec fn model(&self) -> OperationModel {
        OperationModel {
            tags: opt_model(self.tags),
            summary: opt_model(self.summary),
            description: opt_model(self.description),
            operation_id: opt_model(self.operation_id),
            parameters: opt_model(self.parameters),
            request_body: opt_model(self.request_body),
            responses: opt_model(self.responses),
        }
    }

    open spec fn decoded(tree: Tree) -> Option<OperationModel> {
        match tree {
            Tree::Object(e) => {
                let tags = at::<Vec<String>>(e, "tags"@);
                let summary = at::<String>(e, "summary"@);
                let description = at::<String>(e, "description"@);
                let operation_id = at::<String>(e, "operationId"@);
                let parameters = at::<Vec<Parameter>>(e, "parameters"@);
                let request_body = at::<RequestBody>(e, "requestBody"@);
                let responses = at::<Responses>(e, "responses"@);
                if tags is Some
                    && summary is Some
                    && description is Some
                    && operation_id is Some
                    && parameters is Some
                    && request_body is Some
                    && responses is Some {
                    Some(
                        OperationModel {
                            tags: tags->0,
                            summary: summary->0,
                            description: description->0,
                            operation_id: operation_id->0,
                            parameters: parameters->0,
                            request_body: request_body->0,
                            responses: responses->0,
                        },
                    )
                } else {
                    None
                }
            },
            _ => None,
        }
    }

    open spec fn encoded(model: OperationModel) -> Tree {
        Tree::Object(
            Seq::empty()
                .push(("tags"@, tree_of::<Vec<String>>(model.tags)))
                .push(("summary"@, tree_of::<String>(model.summary)))
                .push(("description"@, tree_of::<String>(model.description)))
                .push(("operationId"@, tree_of::<String>(model.operation_id)))
                .push(("parameters"@, tree_of::<Vec<Parameter>>(model.parameters)))
                .push(("requestBody"@, tree_of::<RequestBody>(model.request_body)))
                .push(("responses"@, tree_of::<Responses>(model.responses))),
        )
    }

    open spec fn valid(model: OperationModel) -> bool {
        &&& opt_valid::<Vec<Parameter>>(model.parameters)
        &&& opt_valid::<RequestBody>(model.request_body)
        &&& opt_valid::<Responses>(model.responses)
    }

    open spec fn fault(tree: Tree) -> Seq<Seq<char>> {
        match tree {
            Tree::Object(e) => {
                if at::<Vec<String>>(e, "tags"@) is None {
                    at_fault::<Vec<String>>(e, "tags"@)
                } else if at::<String>(e, "summary"@) is None {
                    at_fault::<String>(e, "summary"@)
                } else if at::<String>(e, "description"@) is None {
                    at_fault::<String>(e, "description"@)
                } else if at::<String>(e, "operationId"@) is None {
                    at_fault::<String>(e, "operationId"@)
                } else if at::<Vec<Parameter>>(e, "parameters"@) is None {
                    at_fault::<Vec<Parameter>>(e, "parameters"@)
                } else if at::<RequestBody>(e, "requestBody"@) is None {
                    at_fault::<RequestBody>(e, "requestBody"@)
                } else if at::<Responses>(e, "responses"@) is None {
                    at_fault::<Responses>(e, "responses"@)
                } else {
                    Seq::empty()
                }
            },
            _ => Seq::empty(),
        }
    }

    fn decode(node: &Node) -> (r: Result<Operation, Mismatch>) {
        match node {
            Node::Object(e) => {
                let tags = field::<Vec<String>>(e, "tags")?;
                let summary = field::<String>(e, "summary")?;
                let description = field::<String>(e, "description")?;
                let operation_id = field::<String>(e, "operationId")?;
                let parameters = field::<Vec<Parameter>>(e, "parameters")?;
                let request_body = field::<RequestBody>(e, "requestBody")?;
                let responses = field::<Responses>(e, "responses")?;
                Ok(
                    Operation {
                        tags,
                        summary,
                        description,
                        operation_id,
                        parameters,
                        request_body,
                        responses,
                    },
                )
            },
            _ => Err(Mismatch::here()),
        }
    }

    fn encode(&self) -> (r: Node) {
        let mut e = new_object();
        push_entry(&mut e, "tags", emit(&self.tags));
        push_entry(&mut e, "summary", emit(&self.summary));
        push_entry(&mut e, "description", emit(&self.description));
        push_entry(&mut e, "operationId", emit(&self.operation_id));
        push_entry(&mut e, "parameters", emit(&self.parameters));
        push_entry(&mut e, "requestBody", emit(&self.request_body));
        push_entry(&mut e, "responses", emit(&self.responses));
        Node::Object(e)
    }

    proof fn lemma_round_trip(model: OperationModel) {
        let e = Self::encoded(model)->Object_0;
        Self::lemma_encoded_well_formed(model);
        lemma_field_round_trip::<Vec<String>>(e, 0, model.tags);
        lemma_field_round_trip::<String>(e, 1, model.summary);
        lemma_field_round_trip::<String>(e, 2, model.description);
        lemma_field_round_trip::<String>(e, 3, model.operation_id);
        lemma_field_round_trip::<Vec<Parameter>>(e, 4, model.parameters);
        lemma_field_round_trip::<RequestBody>(e, 5, model.request_body);
        lemma_field_round_trip::<Responses>(e, 6, model.responses);
    }

    proof fn lemma_decoded_valid(tree: Tree) {
        let e = tree->Object_0;
        lemma_field_valid::<Vec<Parameter>>(e, "parameters"@);
        lemma_field_valid::<RequestBody>(e, "requestBody"@);
        lemma_field_valid::<Responses>(e, "responses"@);
    }

    proof fn lemma_encoded_well_formed(model: OperationModel) {
        let e = Self::encoded(model)->Object_0;
        // No two names are the same: they differ in length, or at one of the
        // characters that are named here.
        reveal_strlit("tags");
        reveal_strlit("summary");
        reveal_strlit("description");
        reveal_strlit("operationId");
        reveal_strlit("parameters");
        reveal_strlit("requestBody");
        reveal_strlit("responses");
        assert("tags"@.len() == 4);
        assert("summary"@.len() == 7);
        assert("description"@.len() == 11 && "description"@[0] == 'd');
        assert("operationId"@.len() == 11 && "operationId"@[0] == 'o');
        assert("parameters"@.len() == 10);
        assert("requestBody"@.len() == 11 && "requestBody"@[0] == 'r');
        assert("responses"@.len() == 9);
        assert(distinct_keys(e));
        lemma_tree_of_well_formed::<Vec<String>>(model.tags);
        lemma_tree_of_well_formed::<String>(model.summary);
        lemma_tree_of_well_formed::<String>(model.description);
        lemma_tree_of_well_formed::<String>(model.operation_id);
        lemma_tree_of_well_formed::<Vec<Parameter>>(model.parameters);
        lemma_tree_of_well_formed::<RequestBody>(model.request_body);
        lemma_tree_of_well_formed::<Responses>(model.responses);
    }

    proof fn lemma_no_fault(tree: Tree) {
    }
}

/// The operations that one path offers, one for each HTTP verb.
#[derive(Debug, PartialEq)]
pub struct PathItem {
    pub get: Option<Operation>,
    pub post: Option<Operation>,
    pub put: Option<Operation>,
    pub delete: Option<Operation>,
    pub patch: Option<Operation>,
    pub options: Option<Operation>,
    pub head: Option<Operation>,
    pub trace: Option<Operation>,
}

/// The model of a [`PathItem`].
pub struct PathItemModel {
    pub get: Option<OperationModel>,
    pub post: Option<OperationModel>,
    pub put: Option<OperationModel>,
    pub delete: Option<OperationModel>,
    pub patch: Option<OperationModel>,
    pub options: Option<OperationModel>,
    pub head: Option<OperationModel>,
    pub trace: Option<OperationModel>,
}

impl Wire for PathItem {
    type Model = PathItemModel;

    open spec fn model(&self) -> PathItemModel {
        PathItemModel {
            get: opt_model(self.get),
            post: opt_model(self.post),
            put: opt_model(self.put),
            delete: opt_model(self.delete),
            patch: opt_model(self.patch),
            options: opt_model(self.options),
            head: opt_model(self.head),
            trace: opt_model(self.trace),
        }
    }

    open spec fn decoded(tree: Tree) -> Option<PathItemModel> {
        match tree {
            Tree::Object(e) => {
                let get = at::<Operation>(e, "get"@);
                let post = at::<Operation>(e, "post"@);
                let put = at::<Operation>(e, "put"@);
                let delete = at::<Operation>(e, "delete"@);
                let patch = at::<Operation>(e, "patch"@);
                let options = at::<Operation>(e, "options"@);
                let head = at::<Operation>(e, "head"@);
                let trace = at::<Operation>(e, "trace"@);
                if get is Some
                    && post is Some
                    && put is Some
                    && delete is Some
                    && patch is Some
                    && options is Some
                    && head is Some
                    && trace is Some {
                    Some(
                        PathItemModel {
                            get: get->0,
                            post: post->0,
                            put: put->0,
                            delete: delete->0,
                            patch: patch->0,
                            options: options->0,
                            head: head->0,
                            trace: trace->0,
                        },
                    )
                } else {
                    None
                }
            },
            _ => None,
        }
    }

    open spec fn encoded(model: PathItemModel) -> Tree {
        Tree::Object(
            Seq::empty()
                .push(("get"@, tree_of::<Operation>(model.get)))
                .push(("post"@, tree_of::<Operation>(model.post)))
                .push(("put"@, tree_of::<Operation>(model.put)))
                .push(("delete"@, tree_of::<Operation>(model.delete)))
                .push(("patch"@, tree_of::<Operation>(model.patch)))
                .push(("options"@, tree_of::<Operation>(model.options)))
                .push(("head"@, tree_of::<Operation>(model.head)))
                .push(("trace"@, tree_of::<Operation>(model.trace))),
        )
    }

    open spec fn valid(model: PathItemModel) -> bool {
        &&& opt_valid::<Operation>(model.get)
        &&& opt_valid::<Operation>(model.post)
        &&& opt_valid::<Operation>(model.put)
        &&& opt_valid::<Operation>(model.delete)
        &&& opt_valid::<Operation>(model.patch)
        &&& opt_valid::<Operation>(model.options)
        &&& opt_valid::<Operation>(model.head)
        &&& opt_valid::<Operation>(model.trace)
    }

    open spec fn fault(tree: Tree) -> Seq<Seq<char>> {
        match tree {
            Tree::Object(e) => {
                if at::<Operation>(e, "get"@) is None {
                    at_fault::<Operation>(e, "get"@)
                } else if at::<Operation>(e, "post"@) is None {
                    at_fault::<Operation>(e, "post"@)
                } else if at::<Operation>(e, "put"@) is None {
                    at_fault::<Operation>(e, "put"@)
                } else if at::<Operation>(e, "delete"@) is None {
                    at_fault::<Operation>(e, "delete"@)
                } else if at::<Operation>(e, "patch"@) is None {
                    at_fault::<Operation>(e, "patch"@)
                } else if at::<Operation>(e, "options"@) is None {
                    at_fault::<Operation>(e, "options"@)
                } else if at::<Operation>(e, "head"@) is None {
                    at_fault::<Operation>(e, "head"@)
                } else if at::<Operation>(e, "trace"@) is None {
                    at_fault::<Operation>(e, "trace"@)
                } else {
                    Seq::empty()
                }
            },
            _ => Seq::empty(),
        }
    }

    fn decode(node: &Node) -> (r: Result<PathItem, Mismatch>) {
        match node {
            Node::Object(e) => {
                let get = field::<Operation>(e, "get")?;
                let post = field::<Operation>(e, "post")?;
                let put = field::<Operation>(e, "put")?;
                let delete = field::<Operation>(e, "delete")?;
                let patch = field::<Operation>(e, "patch")?;
                let options = field::<Operation>(e, "options")?;
                let head = field::<Operation>(e, "head")?;
                let trace = field::<Operation>(e, "trace")?;
                Ok(PathItem { get, post, put, delete, patch, options, head, trace })
            },
            _ => Err(Mismatch::here()),
        }
    }

    fn encode(&self) -> (r: Node) {
        let mut e = new_object();
        push_entry(&mut e, "get", emit(&self.get));
        push_entry(&mut e, "post", emit(&self.post));
        push_entry(&mut e, "put", emit(&self.put));
        push_entry(&mut e, "delete", emit(&self.delete));
        push_entry(&mut e, "patch", emit(&self.patch));
        push_entry(&mut e, "options", emit(&self.options));
        push_entry(&mut e, "head", emit(&self.head));
        push_entry(&mut e, "trace", emit(&self.trace));
        Node::Object(e)
    }

    proof fn lemma_round_trip(model: PathItemModel) {
        let e = Self::encoded(model)->Object_0;
        Self::lemma_encoded_well_formed(model);
        lemma_field_round_trip::<Operation>(e, 0, model.get);
        lemma_field_round_trip::<Operation>(e, 1, model.post);
        lemma_field_round_trip::<Operation>(e, 2, model.put);
        lemma_field_round_trip::<Operation>(e, 3, model.delete);
        lemma_field_round_trip::<Operation>(e, 4, model.patch);
        lemma_field_round_trip::<Operation>(e, 5, model.options);
        lemma_field_round_trip::<Operation>(e, 6, model.head);
        lemma_field_round_trip::<Operation>(e, 7, model.trace);
    }

    proof fn lemma_decoded_valid(tree: Tree) {
        let e = tree->Object_0;
        lemma_field_valid::<Operation>(e, "get"@);
        lemma_field_valid::<Operation>(e, "post"@);
        lemma_field_valid::<Operation>(e, "put"@);
        lemma_field_valid::<Operation>(e, "delete"@);
        lemma_field_valid::<Operation>(e, "patch"@);
        lemma_field_valid::<Operation>(e, "options"@);
        lemma_field_valid::<Operation>(e, "head"@);
        lemma_field_valid::<Operation>(e, "trace"@);
    }

    proof fn lemma_encoded_well_formed(model: PathItemModel) {
        let e = Self::encoded(model)->Object_0;
        // No two names are the same: they differ in length, or at one of the
        // characters that are named here.
        reveal_strlit("get");
        reveal_strlit("post");
        reveal_strlit("put");
        reveal_strlit("delete");
        reveal_strlit("patch");
        reveal_strlit("options");
        reveal_strlit("head");
        reveal_strlit("trace");
        assert("get"@.len() == 3 && "get"@[0] == 'g');
        assert("post"@.len() == 4 && "post"@[0] == 'p');
        assert("put"@.len() == 3 && "put"@[0] == 'p');
        assert("delete"@.len() == 6);
        assert("patch"@.len() == 5 && "patch"@[0] == 'p');
        assert("options"@.len() == 7);
        assert("head"@.len() == 4 && "head"@[0] == 'h');
        assert("trace"@.len() == 5 && "trace"@[0] == 't');
        assert(distinct_keys(e));
        lemma_tree_of_well_formed::<Operation>(model.get);
        lemma_tree_of_well_formed::<Operation>(model.post);
        lemma_tree_of_well_formed::<Operation>(model.put);
        lemma_tree_of_well_formed::<Operation>(model.delete);
        lemma_tree_of_well_formed::<Operation>(model.patch);
        lemma_tree_of_well_formed::<Operation>(model.options);
        lemma_tree_of_well_formed::<Operation>(model.head);
        lemma_tree_of_well_formed::<Operation>(model.trace);
    }

    proof fn lemma_no_fault(tree: Tree) {
    }
}

} // verus!
