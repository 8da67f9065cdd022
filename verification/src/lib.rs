//! Verified core of a small container-image puller: image references,
//! registry endpoints, manifest selection and layer bookkeeping.

pub mod text;
pub mod reference;
pub mod endpoint;
pub mod header;
pub mod manifest;
pub mod lookup;
pub mod layer;
pub mod cli;
