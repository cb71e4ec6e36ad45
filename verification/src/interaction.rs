//! Concrete HTTP interactions: the request/response pair a diff run compares
//! against the projected spec.

use vstd::prelude::*;

verus! {

/// A structural description of a body value: a tree of object, array and
/// primitive nodes. The diff core only tests its presence; body-vs-shape
/// traversal happens further down the pipeline.
#[derive(Debug)]
pub enum BodyDescriptor {
    Object(Vec<(String, BodyDescriptor)>),
    Array(Vec<BodyDescriptor>),
    Text(String),
    /// A number, kept as the decimal text it appeared as on the wire.
    Number(String),
    Boolean(bool),
    Null,
}

/// The body of a request or response: an optional content type and an
/// optional structural value.
#[derive(Debug)]
pub struct Body {
    pub content_type: Option<String>,
    pub value: Option<BodyDescriptor>,
}

/// The request half of an interaction.
#[derive(Debug)]
pub struct Request {
    pub path: String,
    pub method: String,
    pub query: Option<BodyDescriptor>,
    pub body: Body,
}

/// The response half of an interaction.
#[derive(Debug)]
pub struct Response {
    pub status_code: u16,
    pub body: Body,
}

/// One concrete HTTP interaction.
#[derive(Debug)]
pub struct HttpInteraction {
    pub request: Request,
    pub response: Response,
}

} // verus!
