//! Semantic version numbers and version requirements, as Cargo reads them.
//!
//! A `Version` is `major.minor.patch` with an optional pre-release identifier
//! and optional build metadata. A `VersionReq` is a comma-separated list of
//! `Comparator`s that a version must all satisfy. Parsing, the canonical
//! text, precedence and matching are each specified over an abstract model
//! (see the `*_model` types and the spec functions of each module) and proved.

pub mod chars;
pub mod display;
pub mod error;
pub mod eval;
pub mod identifier;
pub mod match_laws;
pub mod operator_laws;
pub mod order_laws;
pub mod text_laws;
pub mod order;
pub mod parse;
pub mod version;

pub use error::{Error, ErrorKind, Position};
pub use identifier::{BuildMetadata, Prerelease};
pub use order::Comparison;
pub use version::{Comparator, Op, Version, VersionReq};
