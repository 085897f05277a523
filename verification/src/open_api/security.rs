//! Security schemes and their OAuth2 flows.

use vstd::prelude::*;

use crate::collection::Dict;
use crate::codec::{
    at, at_fault, emit, field, lemma_field_round_trip, lemma_field_valid,
    lemma_tree_of_well_formed, new_object, opt_model, opt_valid, push_entry, tree_of, Mismatch,
    Wire,
};
use crate::tree::{distinct_keys, Node, Tree};

verus! {

/// The endpoints of one OAuth2 flow.
#[derive(Debug, PartialEq)]
pub struct OAuthFlow {
    pub authorization_url: Option<String>,
    pub token_url: Option<String>,
    pub refresh_url: Option<String>,
    /// From the name of a scope to its description.
    pub scopes: Option<Dict<String>>,
}

/// The model of an [`OAuthFlow`].
pub struct OAuthFlowModel {
    pub authorization_url: Option<Seq<char>>,
    pub token_url: Option<Seq<char>>,
    pub refresh_url: Option<Seq<char>>,
    pub scopes: Option<Seq<(Seq<char>, Seq<char>)>>,
}

impl Wire for OAuthFlow {
    type Model = OAuthFlowModel;

    open spec fn model(&self) -> OAuthFlowModel {
        OAuthFlowModel {
            authorization_url: opt_model(self.authorization_url),
            token_url: opt_model(self.token_url),
            refresh_url: opt_model(self.refresh_url),
            scopes: opt_model(self.scopes),
        }
    }

    open spec fn decoded(tree: Tree) -> Option<OAuthFlowModel> {
        match tree {
            Tree::Object(e) => {
                let authorization_url = at::<String>(e, "authorizationUrl"@);
                let token_url = at::<String>(e, "tokenUrl"@);
                let refresh_url = at::<String>(e, "refreshUrl"@);
                let scopes = at::<Dict<String>>(e, "scopes"@);
                if authorization_url is Some
                    && token_url is Some
                    && refresh_url is Some
                    && scopes is Some {
                    Some(
                        OAuthFlowModel {
                            authorization_url: authorization_url->0,
                            token_url: token_url->0,
                            refresh_url: refresh_url->0,
                            scopes: scopes->0,
                        },
                    )
                } else {
                    None
                }
            },
            _ => None,
        }
    }

    open spec fn encoded(model: OAuthFlowModel) -> Tree {
        Tree::Object(
            Seq::empty()
                .push(("authorizationUrl"@, tree_of::<String>(model.authorization_url)))
                .push(("tokenUrl"@, tree_of::<String>(model.token_url)))
                .push(("refreshUrl"@, tree_of::<String>(model.refresh_url)))
                .push(("scopes"@, tree_of::<Dict<String>>(model.scopes))),
        )
    }

    open spec fn valid(model: OAuthFlowModel) -> bool {
        &&& opt_valid::<Dict<String>>(model.scopes)
    }

    open spec fn fault(tree: Tree) -> Seq<Seq<char>> {
        match tree {
            Tree::Object(e) => {
                if at::<String>(e, "authorizationUrl"@) is None {
                    at_fault::<String>(e, "authorizationUrl"@)
                } else if at::<String>(e, "tokenUrl"@) is None {
                    at_fault::<String>(e, "tokenUrl"@)
                } else if at::<String>(e, "refreshUrl"@) is None {
                    at_fault::<String>(e, "refreshUrl"@)
                } else if at::<Dict<String>>(e, "scopes"@) is None {
                    at_fault::<Dict<String>>(e, "scopes"@)
                } else {
                    Seq::empty()
                }
            },
            _ => Seq::empty(),
        }
    }

    fn decode(node: &Node) -> (r: Result<OAuthFlow, Mismatch>) {
        match node {
            Node::Object(e) => {
                let authorization_url = field::<String>(e, "authorizationUrl")?;
                let token_url = field::<String>(e, "tokenUrl")?;
                let refresh_url = field::<String>(e, "refreshUrl")?;
                let scopes = field::<Dict<String>>(e, "scopes")?;
                Ok(OAuthFlow { authorization_url, token_url, refresh_url, scopes })
            },
            _ => Err(Mismatch::here()),
        }
    }

    fn encode(&self) -> (r: Node) {
        let mut e = new_object();
        push_entry(&mut e, "authorizationUrl", emit(&self.authorization_url));
        push_entry(&mut e, "tokenUrl", emit(&self.token_url));
        push_entry(&mut e, "refreshUrl", emit(&self.refresh_url));
        push_entry(&mut e, "scopes", emit(&self.scopes));
        Node::Object(e)
    }

    proof fn lemma_round_trip(model: OAuthFlowModel) {
        let e = Self::encoded(model)->Object_0;
        Self::lemma_encoded_well_formed(model);
        lemma_field_round_trip::<String>(e, 0, model.authorization_url);
        lemma_field_round_trip::<String>(e, 1, model.token_url);
        lemma_field_round_trip::<String>(e, 2, model.refresh_url);
        lemma_field_round_trip::<Dict<String>>(e, 3, model.scopes);
    }

    proof fn lemma_decoded_valid(tree: Tree) {
        let e = tree->Object_0;
        lemma_field_valid::<Dict<String>>(e, "scopes"@);
    }

    proof fn lemma_encoded_well_formed(model: OAuthFlowModel) {
        let e = Self::encoded(model)->Object_0;
        // No two names are the same: they differ in length, or at one of the
        // characters that are named here.
        reveal_strlit("authorizationUrl");
        reveal_strlit("tokenUrl");
        reveal_strlit("refreshUrl");
        reveal_strlit("scopes");
        assert("authorizationUrl"@.len() == 16);
        assert("tokenUrl"@.len() == 8);
        assert("refreshUrl"@.len() == 10);
        assert("scopes"@.len() == 6);
        assert(distinct_keys(e));
        lemma_tree_of_well_formed::<String>(model.authorization_url);
        lemma_tree_of_well_formed::<String>(model.token_url);
        lemma_tree_of_well_formed::<String>(model.refresh_url);
        lemma_tree_of_well_formed::<Dict<String>>(model.scopes);
    }

    proof fn lemma_no_fault(tree: Tree) {
    }
}

/// The OAuth2 flows that a security scheme offers.
#[derive(Debug, PartialEq)]
pub struct OAuthFlows {
    pub implicit: Option<OAuthFlow>,
    pub password: Option<OAuthFlow>,
    pub client_credentials: Option<OAuthFlow>,
    pub authorization_code: Option<OAuthFlow>,
}

/// The model of an [`OAuthFlows`].
pub struct OAuthFlowsModel {
    pub implicit: Option<OAuthFlowModel>,
    pub password: Option<OAuthFlowModel>,
    pub client_credentials: Option<OAuthFlowModel>,
    pub authorization_code: Option<OAuthFlowModel>,
}

impl Wire for OAuthFlows {
    type Model = OAuthFlowsModel;

    open spec fn model(&self) -> OAuthFlowsModel {
        OAuthFlowsModel {
            implicit: opt_model(self.implicit),
            password: opt_model(self.password),
            client_credentials: opt_model(self.client_credentials),
            authorization_code: opt_model(self.authorization_code),
        }
    }

    open spec fn decoded(tree: Tree) -> Option<OAuthFlowsModel> {
        match tree {
            Tree::Object(e) => {
                let implicit = at::<OAuthFlow>(e, "implicit"@);
                let password = at::<OAuthFlow>(e, "password"@);
                let client_credentials = at::<OAuthFlow>(e, "clientCredentials"@);
                let authorization_code = at::<OAuthFlow>(e, "authorizationCode"@);
                if implicit is Some
                    && password is Some
                    && client_credentials is Some
                    && authorization_code is Some {
                    Some(
                        OAuthFlowsModel {
                            implicit: implicit->0,
                            password: password->0,
                            client_credentials: client_credentials->0,
                            authorization_code: authorization_code->0,
                        },
                    )
                } else {
                    None
                }
            },
            _ => None,
        }
    }

    open spec fn encoded(model: OAuthFlowsModel) -> Tree {
        Tree::Object(
            Seq::empty()
                .push(("implicit"@, tree_of::<OAuthFlow>(model.implicit)))
                .push(("password"@, tree_of::<OAuthFlow>(model.password)))
                .push(("clientCredentials"@, tree_of::<OAuthFlow>(model.client_credentials)))
                .push(("authorizationCode"@, tree_of::<OAuthFlow>(model.authorization_code))),
        )
    }

    open spec fn valid(model: OAuthFlowsModel) -> bool {
        &&& opt_valid::<OAuthFlow>(model.implicit)
        &&& opt_valid::<OAuthFlow>(model.password)
        &&& opt_valid::<OAuthFlow>(model.client_credentials)
        &&& opt_valid::<OAuthFlow>(model.authorization_code)
    }

    open spec fn fault(tree: Tree) -> Seq<Seq<char>> {
        match tree {
            Tree::Object(e) => {
                if at::<OAuthFlow>(e, "implicit"@) is None {
                    at_fault::<OAuthFlow>(e, "implicit"@)
                } else if at::<OAuthFlow>(e, "password"@) is None {
                    at_fault::<OAuthFlow>(e, "password"@)
                } else if at::<OAuthFlow>(e, "clientCredentials"@) is None {
                    at_fault::<OAuthFlow>(e, "clientCredentials"@)
                } else if at::<OAuthFlow>(e, "authorizationCode"@) is None {
                    at_fault::<OAuthFlow>(e, "authorizationCode"@)
                } else {
                    Seq::empty()
                }
            },
            _ => Seq::empty(),
        }
    }

    fn decode(node: &Node) -> (r: Result<OAuthFlows, Mismatch>) {
        match node {
            Node::Object(e) => {
                let implicit = field::<OAuthFlow>(e, "implicit")?;
                let password = field::<OAuthFlow>(e, "password")?;
                let client_credentials = field::<OAuthFlow>(e, "clientCredentials")?;
                let authorization_code = field::<OAuthFlow>(e, "authorizationCode")?;
                Ok(OAuthFlows { implicit, password, client_credentials, authorization_code })
            },
            _ => Err(Mismatch::here()),
        }
    }

    fn encode(&self) -> (r: Node) {
        let mut e = new_object();
        push_entry(&mut e, "implicit", emit(&self.implicit));
        push_entry(&mut e, "password", emit(&self.password));
        push_entry(&mut e, "clientCredentials", emit(&self.client_credentials));
        push_entry(&mut e, "authorizationCode", emit(&self.authorization_code));
        Node::Object(e)
    }

    proof fn lemma_round_trip(model: OAuthFlowsModel) {
        let e = Self::encoded(model)->Object_0;
        Self::lemma_encoded_well_formed(model);
        lemma_field_round_trip::<OAuthFlow>(e, 0, model.implicit);
        lemma_field_round_trip::<OAuthFlow>(e, 1, model.password);
        lemma_field_round_trip::<OAuthFlow>(e, 2, model.client_credentials);
        lemma_field_round_trip::<OAuthFlow>(e, 3, model.authorization_code);
    }

    proof fn lemma_decoded_valid(tree: Tree) {
        let e = tree->Object_0;
        lemma_field_valid::<OAuthFlow>(e, "implicit"@);
        lemma_field_valid::<OAuthFlow>(e, "password"@);
        lemma_field_valid::<OAuthFlow>(e, "clientCredentials"@);
        lemma_field_valid::<OAuthFlow>(e, "authorizationCode"@);
    }

    proof fn lemma_encoded_well_formed(model: OAuthFlowsModel) {
        let e = Self::encoded(model)->Object_0;
        // No two names are the same: they differ in length, or at one of the
        // characters that are named here.
        reveal_strlit("implicit");
        reveal_strlit("password");
        reveal_strlit("clientCredentials");
        reveal_strlit("authorizationCode");
        assert("implicit"@.len() == 8 && "implicit"@[0] == 'i');
        assert("password"@.len() == 8 && "password"@[0] == 'p');
        assert("clientCredentials"@.len() == 17 && "clientCredentials"@[0] == 'c');
        assert("authorizationCode"@.len() == 17 && "authorizationCode"@[0] == 'a');
        assert(distinct_keys(e));
        lemma_tree_of_well_formed::<OAuthFlow>(model.implicit);
        lemma_tree_of_well_formed::<OAuthFlow>(model.password);
        lemma_tree_of_well_formed::<OAuthFlow>(model.client_credentials);
        lemma_tree_of_well_formed::<OAuthFlow>(model.authorization_code);
    }

    proof fn lemma_no_fault(tree: Tree) {
    }
}

/// A way to authenticate against the API.
#[derive(Debug, PartialEq)]
pub struct SecurityScheme {
    /// The kind of the scheme; `type` on the wire.
    pub type_: Option<String>,
    pub description: Option<String>,
    pub name: Option<String>,
    /// Where the credential is sent; `in` on the wire.
    pub in_: Option<String>,
    pub scheme: Option<String>,
    pub bearer_format: Option<String>,
    pub flows: Option<OAuthFlows>,
    pub open_id_connect_url: Option<String>,
}

/// The model of a [`SecurityScheme`].
pub struct SecuritySchemeModel {
    pub type_: Option<Seq<char>>,
    pub description: Option<Seq<char>>,
    pub name: Option<Seq<char>>,
    pub in_: Option<Seq<char>>,
    pub scheme: Option<Seq<char>>,
    pub bearer_format: Option<Seq<char>>,
    pub flows: Option<OAuthFlowsModel>,
    pub open_id_connect_url: Option<Seq<char>>,
}

impl Wire for SecurityScheme {
    type Model = SecuritySchemeModel;

    open spec fn model(&self) -> SecuritySchemeModel {
        SecuritySchemeModel {
            type_: opt_model(self.type_),
            description: opt_model(self.description),
            name: opt_model(self.name),
            in_: opt_model(self.in_),
            scheme: opt_model(self.scheme),
            bearer_format: opt_model(self.bearer_format),
            flows: opt_model(self.flows),
            open_id_connect_url: opt_model(self.open_id_connect_url),
        }
    }

    open spec fn decoded(tree: Tree) -> Option<SecuritySchemeModel> {
        match tree {
            Tree::Object(e) => {
                let type_ = at::<String>(e, "type"@);
                let description = at::<String>(e, "description"@);
                let name = at::<String>(e, "name"@);
                let in_ = at::<String>(e, "in"@);
                let scheme = at::<String>(e, "scheme"@);
                let bearer_format = at::<String>(e, "bearerFormat"@);
                let flows = at::<OAuthFlows>(e, "flows"@);
                let open_id_connect_url = at::<String>(e, "openIdConnectUrl"@);
                if type_ is Some
                    && description is Some
                    && name is Some
                    && in_ is Some
                    && scheme is Some
                    && bearer_format is Some
                    && flows is Some
                    && open_id_connect_url is Some {
                    Some(
                        SecuritySchemeModel {
                            type_: type_->0,
                            description: description->0,
                            name: name->0,
                            in_: in_->0,
                            scheme: scheme->0,
                            bearer_format: bearer_format->0,
                            flows: flows->0,
                            open_id_connect_url: open_id_connect_url->0,
                        },
                    )
                } else {
                    None
                }
            },
            _ => None,
        }
    }

    open spec fn encoded(model: SecuritySchemeModel) -> Tree {
        Tree::Object(
            Seq::empty()
                .push(("type"@, tree_of::<String>(model.type_)))
                .push(("description"@, tree_of::<String>(model.description)))
                .push(("name"@, tree_of::<String>(model.name)))
                .push(("in"@, tree_of::<String>(model.in_)))
                .push(("scheme"@, tree_of::<String>(model.scheme)))
                .push(("bearerFormat"@, tree_of::<String>(model.bearer_format)))
                .push(("flows"@, tree_of::<OAuthFlows>(model.flows)))
                .push(("openIdConnectUrl"@, tree_of::<String>(model.open_id_connect_url))),
        )
    }

    open spec fn valid(model: SecuritySchemeModel) -> bool {
        &&& opt_valid::<OAuthFlows>(model.flows)
    }

    open spec fn fault(tree: Tree) -> Seq<Seq<char>> {
        match tree {
            Tree::Object(e) => {
                if at::<String>(e, "type"@) is None {
                    at_fault::<String>(e, "type"@)
                } else if at::<String>(e, "description"@) is None {
                    at_fault::<String>(e, "description"@)
                } else if at::<String>(e, "name"@) is None {
                    at_fault::<String>(e, "name"@)
                } else if at::<String>(e, "in"@) is None {
                    at_fault::<String>(e, "in"@)
                } else if at::<String>(e, "scheme"@) is None {
                    at_fault::<String>(e, "scheme"@)
                } else if at::<String>(e, "bearerFormat"@) is None {
                    at_fault::<String>(e, "bearerFormat"@)
                } else if at::<OAuthFlows>(e, "flows"@) is None {
                    at_fault::<OAuthFlows>(e, "flows"@)
                } else if at::<String>(e, "openIdConnectUrl"@) is None {
                    at_fault::<String>(e, "openIdConnectUrl"@)
                } else {
                    Seq::empty()
                }
            },
            _ => Seq::empty(),
        }
    }

    fn decode(node: &Node) -> (r: Result<SecurityScheme, Mismatch>) {
        match node {
            Node::Object(e) => {
                let type_ = field::<String>(e, "type")?;
                let description = field::<String>(e, "description")?;
                let name = field::<String>(e, "name")?;
                let in_ = field::<String>(e, "in")?;
                let scheme = field::<String>(e, "scheme")?;
                let bearer_format = field::<String>(e, "bearerFormat")?;
                let flows = field::<OAuthFlows>(e, "flows")?;
                let open_id_connect_url = field::<String>(e, "openIdConnectUrl")?;
                Ok(
                    SecurityScheme {
                        type_,
                        description,
                        name,
                        in_,
                        scheme,
                        bearer_format,
                        flows,
                        open_id_connect_url,
                    },
                )
            },
            _ => Err(Mismatch::here()),
        }
    }

    fn encode(&self) -> (r: Node) {
        let mut e = new_object();
        push_entry(&mut e, "type", emit(&self.type_));
        push_entry(&mut e, "description", emit(&self.description));
        push_entry(&mut e, "name", emit(&self.name));
        push_entry(&mut e, "in", emit(&self.in_));
        push_entry(&mut e, "scheme", emit(&self.scheme));
        push_entry(&mut e, "bearerFormat", emit(&self.bearer_format));
        push_entry(&mut e, "flows", emit(&self.flows));
        push_entry(&mut e, "openIdConnectUrl", emit(&self.open_id_connect_url));
        Node::Object(e)
    }

    proof fn lemma_round_trip(model: SecuritySchemeModel) {
        let e = Self::encoded(model)->Object_0;
        Self::lemma_encoded_well_formed(model);
        lemma_field_round_trip::<String>(e, 0, model.type_);
        lemma_field_round_trip::<String>(e, 1, model.description);
        lemma_field_round_trip::<String>(e, 2, model.name);
        lemma_field_round_trip::<String>(e, 3, model.in_);
        lemma_field_round_trip::<String>(e, 4, model.scheme);
        lemma_field_round_trip::<String>(e, 5, model.bearer_format);
        lemma_field_round_trip::<OAuthFlows>(e, 6, model.flows);
        lemma_field_round_trip::<String>(e, 7, model.open_id_connect_url);
    }

    proof fn lemma_decoded_valid(tree: Tree) {
        let e = tree->Object_0;
        lemma_field_valid::<OAuthFlows>(e, "flows"@);
    }

    proof fn lemma_encoded_well_formed(model: SecuritySchemeModel) {
        let e = Self::encoded(model)->Object_0;
        // No two names are the same: they differ in length, or at one of the
        // characters that are named here.
        reveal_strlit("type");
        reveal_strlit("description");
        reveal_strlit("name");
        reveal_strlit("in");
        reveal_strlit("scheme");
        reveal_strlit("bearerFormat");
        reveal_strlit("flows");
        reveal_strlit("openIdConnectUrl");
        assert("type"@.len() == 4 && "type"@[0] == 't');
        assert("description"@.len() == 11);
        assert("name"@.len() == 4 && "name"@[0] == 'n');
        assert("in"@.len() == 2);
        assert("scheme"@.len() == 6);
        assert("bearerFormat"@.len() == 12);
        assert("flows"@.len() == 5);
        assert("openIdConnectUrl"@.len() == 16);
        assert(distinct_keys(e));
        lemma_tree_of_well_formed::<String>(model.type_);
        lemma_tree_of_well_formed::<String>(model.description);
        lemma_tree_of_well_formed::<String>(model.name);
        lemma_tree_of_well_formed::<String>(model.in_);
        lemma_tree_of_well_formed::<String>(model.scheme);
        lemma_tree_of_well_formed::<String>(model.bearer_format);
        lemma_tree_of_well_formed::<OAuthFlows>(model.flows);
        lemma_tree_of_well_formed::<String>(model.open_id_connect_url);
    }

    proof fn lemma_no_fault(tree: Tree) {
    }
}

} // verus!
