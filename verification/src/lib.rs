//! Shared infrastructure of the layer servers: the provider seam and its request
//! formats, the platform token, the MCP entrypoint, identifiers and errors.
//!
//! Everything here is a decision or a computation on plain values. Sockets, the
//! environment and the database belong to the host around it.
//!
//! - [`ai`]: the seam to a model provider, and the fencing of untrusted text;
//! - [`openai`]: the request formats of an OpenAI-compatible provider;
//! - [`auth`]: the platform-to-tool token;
//! - [`serve`]: the rules of a layer server;
//! - [`store`]: where a layer's database lives, and what is asked of it;
//! - [`id`], [`error`], [`time`]: identifiers, errors and timestamps;
//! - [`json`], [`text`]: the values that the others work on;
//! - [`test_support`]: consistency of a tool catalogue.
pub mod ai;
pub mod auth;
pub mod error;
pub mod id;
pub mod json;
pub mod openai;
pub mod serve;
pub mod store;
pub mod test_support;
pub mod text;
pub mod time;
