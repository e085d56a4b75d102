//! Structural diagrams of a library's module tree and public surface.
//!
//! The tree is built from a snapshot of the disk ([`SourceTree`]): building
//! either succeeds, fails for good, or names the one path it needs to know
//! about next, which the caller probes, records, and builds again.
pub mod declaration;
pub mod path;
pub mod render;
pub mod source_tree;
pub mod syntax;
pub mod tree;

pub use declaration::{DeclKind, Declaration, ImportTree, PublicItem};
pub use source_tree::{Entry, SourceTree};
pub use syntax::parse_declarations;
pub use tree::{find_cargo_toml, AnalysisError, ErrorKind, Lib, Module};
