//! The typed model of an OpenAPI document.
//!
//! Every field of every entity may be absent. An entity is read from an
//! object: each field from the key that bears its name on the wire, where a
//! key that is missing, or that holds `null`, gives an absent field, and the
//! last entry counts where a key occurs twice. A key that the entity does
//! not know is passed over. An entity is written as an object with one key
//! for each of its fields, in the order of the fields, with `null` for an
//! absent one.
//!
//! Names on the wire are in camel case (`operationId`); the two fields that
//! cannot bear their wire name here are `in_`, written `in`, and `type_`,
//! written `type`. A mapping from names to entities is a
//! [`Dict`](crate::collection::Dict), a number without a fixed kind is a
//! [`Number`](crate::tree::Number), and a value of any shape is a
//! [`Node`](crate::tree::Node).

pub mod basic;
pub mod content;
pub mod document;
pub mod paths;
pub mod responses;
pub mod schema;
pub mod security;

pub use basic::{Discriminator, Example, Info, Server, XML};
pub use content::{Header, MediaType, Parameter, RequestBody, Response};
pub use document::{Components, OpenApiSpec};
pub use paths::{Operation, PathItem};
pub use responses::Responses;
pub use schema::Schema;
pub use security::{OAuthFlow, OAuthFlows, SecurityScheme};
