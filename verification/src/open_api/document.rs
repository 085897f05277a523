//! The document and its reusable definitions.

use vstd::prelude::*;

use crate::codec::{
    at, at_fault, emit, field, lemma_field_round_trip, lemma_field_valid,
    lemma_tree_of_well_formed, new_object, opt_model, opt_valid, push_entry, tree_of, Mismatch,
    Wire,
};
use crate::collection::Dict;
use crate::open_api::basic::{Example, ExampleModel, Info, InfoModel, Server, ServerModel};
use crate::open_api::content::{
    Header, HeaderModel, Parameter, ParameterModel, RequestBody, RequestBodyModel, Response,
    ResponseModel,
};
use crate::open_api::paths::{PathItem, PathItemModel};
use crate::open_api::schema::{Schema, SchemaModel};
use crate::open_api::security::{SecurityScheme, SecuritySchemeModel};
use crate::tree::{distinct_keys, Node, Tree};

verus! {

/// The definitions that a document offers for reuse, by name. References
/// between them are not followed.
#[derive(Debug, PartialEq)]
pub struct Components {
    pub schemas: Option<Dict<Schema>>,
    pub responses: Option<Dict<Response>>,
    pub parameters: Option<Dict<Parameter>>,
    pub examples: Option<Dict<Example>>,
    pub request_bodies: Option<Dict<RequestBody>>,
    pub headers: Option<Dict<Header>>,
    pub security_schemes: Option<Dict<SecurityScheme>>,
}

/// The model of a [`Components`].
pub struct ComponentsModel {
    pub schemas: Option<Seq<(Seq<char>, SchemaModel)>>,
    pub responses: Option<Seq<(Seq<char>, ResponseModel)>>,
    pub parameters: Option<Seq<(Seq<char>, ParameterModel)>>,
    pub examples: Option<Seq<(Seq<char>, ExampleModel)>>,
    pub request_bodies: Option<Seq<(Seq<char>, RequestBodyModel)>>,
    pub headers: Option<Seq<(Seq<char>, HeaderModel)>>,
    pub security_schemes: Option<Seq<(Seq<char>, SecuritySchemeModel)>>,
}

impl Wire for Components {
    type Model = ComponentsModel;

    open spec fn model(&self) -> ComponentsModel {
        ComponentsModel {
            schemas: opt_model(self.schemas),
            responses: opt_model(self.responses),
            parameters: opt_model(self.parameters),
            examples: opt_model(self.examples),
            request_bodies: opt_model(self.request_bodies),
            headers: opt_model(self.headers),
            security_schemes: opt_model(self.security_schemes),
        }
    }

    open spec fn decoded(tree: Tree) -> Option<ComponentsModel> {
        match tree {
            Tree::Object(e) => {
                let schemas = at::<Dict<Schema>>(e, "schemas"@);
                let responses = at::<Dict<Response>>(e, "responses"@);
                let parameters = at::<Dict<Parameter>>(e, "parameters"@);
                let examples = at::<Dict<Example>>(e, "examples"@);
                let request_bodies = at::<Dict<RequestBody>>(e, "requestBodies"@);
                let headers = at::<Dict<Header>>(e, "headers"@);
                let security_schemes = at::<Dict<SecurityScheme>>(e, "securitySchemes"@);
                if schemas is Some
                    && responses is Some
                    && parameters is Some
                    && examples is Some
                    && request_bodies is Some
                    && headers is Some
                    && security_schemes is Some {
                    Some(
                        ComponentsModel {
                            schemas: schemas->0,
                            responses: responses->0,
                            parameters: parameters->0,
                            examples: examples->0,
                            request_bodies: request_bodies->0,
                            headers: headers->0,
                            security_schemes: security_schemes->0,
                        },
                    )
                } else {
                    None
                }
            },
            _ => None,
        }
    }

    open spec fn encoded(model: ComponentsModel) -> Tree {
        Tree::Object(
            Seq::empty()
                .push(("schemas"@, tree_of::<Dict<Schema>>(model.schemas)))
                .push(("responses"@, tree_of::<Dict<Response>>(model.responses)))
                .push(("parameters"@, tree_of::<Dict<Parameter>>(model.parameters)))
                .push(("examples"@, tree_of::<Dict<Example>>(model.examples)))
                .push(("requestBodies"@, tree_of::<Dict<RequestBody>>(model.request_bodies)))
                .push(("headers"@, tree_of::<Dict<Header>>(model.headers)))
                .push(
                    ("securitySchemes"@, tree_of::<Dict<SecurityScheme>>(model.security_schemes)),
                ),
        )
    }

    open spec fn valid(model: ComponentsModel) -> bool {
        &&& opt_valid::<Dict<Schema>>(model.schemas)
        &&& opt_valid::<Dict<Response>>(model.responses)
        &&& opt_valid::<Dict<Parameter>>(model.parameters)
        &&& opt_valid::<Dict<Example>>(model.examples)
        &&& opt_valid::<Dict<RequestBody>>(model.request_bodies)
        &&& opt_valid::<Dict<Header>>(model.headers)
        &&& opt_valid::<Dict<SecurityScheme>>(model.security_schemes)
    }

    open spec fn fault(tree: Tree) -> Seq<Seq<char>> {
        match tree {
            Tree::Object(e) => {
                if at::<Dict<Schema>>(e, "schemas"@) is None {
                    at_fault::<Dict<Schema>>(e, "schemas"@)
                } else if at::<Dict<Response>>(e, "responses"@) is None {
                    at_fault::<Dict<Response>>(e, "responses"@)
                } else if at::<Dict<Parameter>>(e, "parameters"@) is None {
                    at_fault::<Dict<Parameter>>(e, "parameters"@)
                } else if at::<Dict<Example>>(e, "examples"@) is None {
                    at_fault::<Dict<Example>>(e, "examples"@)
                } else if at::<Dict<RequestBody>>(e, "requestBodies"@) is None {
                    at_fault::<Dict<RequestBody>>(e, "requestBodies"@)
                } else if at::<Dict<Header>>(e, "headers"@) is None {
                    at_fault::<Dict<Header>>(e, "headers"@)
                } else if at::<Dict<SecurityScheme>>(e, "securitySchemes"@) is None {
                    at_fault::<Dict<SecurityScheme>>(e, "securitySchemes"@)
                } else {
                    Seq::empty()
                }
            },
            _ => Seq::empty(),
        }
    }

    fn decode(node: &Node) -> (r: Result<Components, Mismatch>) {
        match node {
            Node::Object(e) => {
                let schemas = field::<Dict<Schema>>(e, "schemas")?;
                let responses = field::<Dict<Response>>(e, "responses")?;
                let parameters = field::<Dict<Parameter>>(e, "parameters")?;
                let examples = field::<Dict<Example>>(e, "examples")?;
                let request_bodies = field::<Dict<RequestBody>>(e, "requestBodies")?;
                let headers = field::<Dict<Header>>(e, "headers")?;
                let security_schemes = field::<Dict<SecurityScheme>>(e, "securitySchemes")?;
                Ok(
                    Components {
                        schemas,
                        responses,
                        parameters,
                        examples,
                        request_bodies,
                        headers,
                        security_schemes,
                    },
                )
            },
            _ => Err(Mismatch::here()),
        }
    }

    fn encode(&self) -> (r: Node) {
        let mut e = new_object();
        push_entry(&mut e, "schemas", emit(&self.schemas));
        push_entry(&mut e, "responses", emit(&self.responses));
        push_entry(&mut e, "parameters", emit(&self.parameters));
        push_entry(&mut e, "examples", emit(&self.examples));
        push_entry(&mut e, "requestBodies", emit(&self.request_bodies));
        push_entry(&mut e, "headers", emit(&self.headers));
        push_entry(&mut e, "securitySchemes", emit(&self.security_schemes));
        Node::Object(e)
    }

    proof fn lemma_round_trip(model: ComponentsModel) {
        let e = Self::encoded(model)->Object_0;
        Self::lemma_encoded_well_formed(model);
        lemma_field_round_trip::<Dict<Schema>>(e, 0, model.schemas);
        lemma_field_round_trip::<Dict<Response>>(e, 1, model.responses);
        lemma_field_round_trip::<Dict<Parameter>>(e, 2, model.parameters);
        lemma_field_round_trip::<Dict<Example>>(e, 3, model.examples);
        lemma_field_round_trip::<Dict<RequestBody>>(e, 4, model.request_bodies);
        lemma_field_round_trip::<Dict<Header>>(e, 5, model.headers);
        lemma_field_round_trip::<Dict<SecurityScheme>>(e, 6, model.security_schemes);
    }

    proof fn lemma_decoded_valid(tree: Tree) {
        let e = tree->Object_0;
        lemma_field_valid::<Dict<Schema>>(e, "schemas"@);
        lemma_field_valid::<Dict<Response>>(e, "responses"@);
        lemma_field_valid::<Dict<Parameter>>(e, "parameters"@);
        lemma_field_valid::<Dict<Example>>(e, "examples"@);
        lemma_field_valid::<Dict<RequestBody>>(e, "requestBodies"@);
        lemma_field_valid::<Dict<Header>>(e, "headers"@);
        lemma_field_valid::<Dict<SecurityScheme>>(e, "securitySchemes"@);
    }

    proof fn lemma_encoded_well_formed(model: ComponentsModel) {
        let e = Self::encoded(model)->Object_0;
        // No two names are the same: they differ in length, or at one of the
        // characters that are named here.
        reveal_strlit("schemas");
        reveal_strlit("responses");
        reveal_strlit("parameters");
        reveal_strlit("examples");
        reveal_strlit("requestBodies");
        reveal_strlit("headers");
        reveal_strlit("securitySchemes");
        assert("schemas"@.len() == 7 && "schemas"@[0] == 's');
        assert("responses"@.len() == 9);
        assert("parameters"@.len() == 10);
        assert("examples"@.len() == 8);
        assert("requestBodies"@.len() == 13);
        assert("headers"@.len() == 7 && "headers"@[0] == 'h');
        assert("securitySchemes"@.len() == 15);
        assert(distinct_keys(e));
        lemma_tree_of_well_formed::<Dict<Schema>>(model.schemas);
        lemma_tree_of_well_formed::<Dict<Response>>(model.responses);
        lemma_tree_of_well_formed::<Dict<Parameter>>(model.parameters);
        lemma_tree_of_well_formed::<Dict<Example>>(model.examples);
        lemma_tree_of_well_formed::<Dict<RequestBody>>(model.request_bodies);
        lemma_tree_of_well_formed::<Dict<Header>>(model.headers);
        lemma_tree_of_well_formed::<Dict<SecurityScheme>>(model.security_schemes);
    }

    proof fn lemma_no_fault(tree: Tree) {
    }
}

/// A whole document.
#[derive(Debug, PartialEq)]
pub struct OpenApiSpec {
    /// The version of the format that the document follows.
    pub openapi: Option<String>,
    pub info: Option<Info>,
    /// The paths of the API, each with its operations.
    pub paths: Option<Dict<PathItem>>,
    pub components: Option<Components>,
    pub servers: Option<Vec<Server>>,
}

/// The model of an [`OpenApiSpec`].
pub struct OpenApiSpecModel {
    pub openapi: Option<Seq<char>>,
    pub info: Option<InfoModel>,
    pub paths: Option<Seq<(Seq<char>, PathItemModel)>>,
    pub components: Option<ComponentsModel>,
    pub servers: Option<Seq<ServerModel>>,
}

impl Wire for OpenApiSpec {
    type Model = OpenApiSpecModel;

    open spec fn model(&self) -> OpenApiSpecModel {
        OpenApiSpecModel {
            openapi: opt_model(self.openapi),
            info: opt_model(self.info),
            paths: opt_model(self.paths),
            components: opt_model(self.components),
            servers: opt_model(self.servers),
        }
    }

    open spec fn decoded(tree: Tree) -> Option<OpenApiSpecModel> {
        match tree {
            Tree::Object(e) => {
                let openapi = at::<String>(e, "openapi"@);
                let info = at::<Info>(e, "info"@);
                let paths = at::<Dict<PathItem>>(e, "paths"@);
                let components = at::<Components>(e, "components"@);
                let servers = at::<Vec<Server>>(e, "servers"@);
                if openapi is Some
                    && info is Some
                    && paths is Some
                    && components is Some
                    && servers is Some {
                    Some(
                        OpenApiSpecModel {
                            openapi: openapi->0,
                            info: info->0,
                            paths: paths->0,
                            components: components->0,
                            servers: servers->0,
                        },
                    )
                } else {
                    None
                }
            },
            _ => None,
        }
    }

    open spec fn encoded(model: OpenApiSpecModel) -> Tree {
        Tree::Object(
            Seq::empty()
                .push(("openapi"@, tree_of::<String>(model.openapi)))
                .push(("info"@, tree_of::<Info>(model.info)))
                .push(("paths"@, tree_of::<Dict<PathItem>>(model.paths)))
                .push(("components"@, tree_of::<Components>(model.components)))
                .push(("servers"@, tree_of::<Vec<Server>>(model.servers))),
        )
    }

    open spec fn valid(model: OpenApiSpecModel) -> bool {
        &&& opt_valid::<Info>(model.info)
        &&& opt_valid::<Dict<PathItem>>(model.paths)
        &&& opt_valid::<Components>(model.components)
        &&& opt_valid::<Vec<Server>>(model.servers)
    }

    open spec fn fault(tree: Tree) -> Seq<Seq<char>> {
        match tree {
            Tree::Object(e) => {
                if at::<String>(e, "openapi"@) is None {
                    at_fault::<String>(e, "openapi"@)
                } else if at::<Info>(e, "info"@) is None {
                    at_fault::<Info>(e, "info"@)
                } else if at::<Dict<PathItem>>(e, "paths"@) is None {
                    at_fault::<Dict<PathItem>>(e, "paths"@)
                } else if at::<Components>(e, "components"@) is None {
                    at_fault::<Components>(e, "components"@)
                } else if at::<Vec<Server>>(e, "servers"@) is None {
                    at_fault::<Vec<Server>>(e, "servers"@)
                } else {
                    Seq::empty()
                }
            },
            _ => Seq::empty(),
        }
    }

    fn decode(node: &Node) -> (r: Result<OpenApiSpec, Mismatch>) {
        match node {
            Node::Object(e) => {
                let openapi = field::<String>(e, "openapi")?;
                let info = field::<Info>(e, "info")?;
                let paths = field::<Dict<PathItem>>(e, "paths")?;
                let components = field::<Components>(e, "components")?;
                let servers = field::<Vec<Server>>(e, "servers")?;
                Ok(OpenApiSpec { openapi, info, paths, components, servers })
            },
            _ => Err(Mismatch::here()),
        }
    }

    fn encode(&self) -> (r: Node) {
        let mut e = new_object();
        push_entry(&mut e, "openapi", emit(&self.openapi));
        push_entry(&mut e, "info", emit(&self.info));
        push_entry(&mut e, "paths", emit(&self.paths));
        push_entry(&mut e, "components", emit(&self.components));
        push_entry(&mut e, "servers", emit(&self.servers));
        Node::Object(e)
    }

    proof fn lemma_round_trip(model: OpenApiSpecModel) {
        let e = Self::encoded(model)->Object_0;
        Self::lemma_encoded_well_formed(model);
        lemma_field_round_trip::<String>(e, 0, model.openapi);
        lemma_field_round_trip::<Info>(e, 1, model.info);
        lemma_field_round_trip::<Dict<PathItem>>(e, 2, model.paths);
        lemma_field_round_trip::<Components>(e, 3, model.components);
        lemma_field_round_trip::<Vec<Server>>(e, 4, model.servers);
    }

    proof fn lemma_decoded_valid(tree: Tree) {
        let e = tree->Object_0;
        lemma_field_valid::<Info>(e, "info"@);
        lemma_field_valid::<Dict<PathItem>>(e, "paths"@);
        lemma_field_valid::<Components>(e, "components"@);
        lemma_field_valid::<Vec<Server>>(e, "servers"@);
    }

    proof fn lemma_encoded_well_formed(model: OpenApiSpecModel) {
        let e = Self::encoded(model)->Object_0;
        // No two names are the same: they differ in length, or at one of the
        // characters that are named here.
        reveal_strlit("openapi");
        reveal_strlit("info");
        reveal_strlit("paths");
        reveal_strlit("components");
        reveal_strlit("servers");
        assert("openapi"@.len() == 7 && "openapi"@[0] == 'o');
        assert("info"@.len() == 4);
        assert("paths"@.len() == 5);
        assert("components"@.len() == 10);
        assert("servers"@.len() == 7 && "servers"@[0] == 's');
        assert(distinct_keys(e));
        lemma_tree_of_well_formed::<String>(model.openapi);
        lemma_tree_of_well_formed::<Info>(model.info);
        lemma_tree_of_well_formed::<Dict<PathItem>>(model.paths);
        lemma_tree_of_well_formed::<Components>(model.components);
        lemma_tree_of_well_formed::<Vec<Server>>(model.servers);
    }

    proof fn lemma_no_fault(tree: Tree) {
    }
}

} // verus!
