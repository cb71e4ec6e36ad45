//! Core diff engine of an API-specification system: an event-sourced model of
//! an HTTP API contract (endpoints, bodies, shapes) together with a
//! visitor-driven algorithm that compares concrete HTTP interactions against
//! that contract and emits structured diff results.

pub mod chunks;
pub mod endpoint;
pub mod endpoint_projection;
pub mod engine;
pub mod events;
pub mod interaction;
pub mod projection;
pub mod queries;
pub mod results;
pub mod shape;
pub mod spec_choices;
pub mod visitors;
