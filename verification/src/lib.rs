//! Discovery of a business participant's document-exchange capabilities in a
//! federated directory network.
//!
//! The pipeline has three steps, run in strict sequence:
//! 1. directory resolution: a hostname is derived from a hash of the
//!    participant identifier and checked against name resolution;
//! 2. metadata retrieval: an HTTP request against the resolved hostname
//!    returns a body from which supported document-type identifiers are
//!    extracted;
//! 3. capability matching: the extracted identifiers are compared against a
//!    fixed table of known document types.
//!
//! Name resolution and the HTTP request themselves are performed by the
//! caller; everything that computes or decides lives here, with contracts.

pub mod hex;
pub mod matcher;
pub mod identifier;
pub mod metadata;
pub mod resolver;
pub mod strfind;
