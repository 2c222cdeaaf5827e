//! Client core for a remote "shocker" control service: typed wire shapes,
//! per-action validation of intensity and duration, JSON encoding and
//! decoding of the two documented endpoints, and classification of
//! transport outcomes into a small error taxonomy.
//!
//! The crate is transport-free: it builds complete request plans (method,
//! path, headers, body) and interprets raw HTTP outcomes, while the actual
//! network round trip is left to the embedding program.

pub mod client;
pub mod error;
pub mod json;
pub mod laws;
pub mod model;
pub mod validate;
pub mod wire;
