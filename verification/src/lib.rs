//! Typed bindings for a handful of REST resources.
//!
//! Every operation of a binding is a pure function from its typed inputs to
//! the single outbound [`request::Request`] that the transport has to send:
//! a verb, a path whose identifiers are percent-encoded segment by segment,
//! an optional form-encoded query, and an optional body.

pub mod text;
pub mod percent;
pub mod query;
pub mod request;
pub mod response;
pub mod envelope_workflow_definition;
pub mod webhooks;
pub mod admin_emoji;
