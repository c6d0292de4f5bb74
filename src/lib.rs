//! A small static-content HTTP server library: request-line parsing, a
//! sandboxed path resolver, content classification, directory listings and
//! response framing, each stated and proved over a mathematical model.

pub mod text;
pub mod status;
pub mod request;
pub mod resolve;
pub mod mime;
pub mod listing;
pub mod response;
