//! The local engine of a Git-compatible version-control client: a
//! content-addressed object store, repository discovery, path
//! normalisation and reference-update transactions, with every rule
//! stated as a contract and proved.

pub mod clock;
pub mod error;
pub mod hash;
pub mod mr;
pub mod path;
pub mod pathspec;
pub mod reference;
pub mod repo;
pub mod store;
pub mod text;
pub mod url;
