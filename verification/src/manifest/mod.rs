//! The `iris-agentic-dev.toml` package manifest and dependency resolution.
pub mod resolve;
pub mod schema;

pub use resolve::Resolve;
pub use schema::{DependencySpec, Manifest, PackageInfo, Provides};
