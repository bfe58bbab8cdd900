//! The manifest's tables, as the library holds them.
use vstd::prelude::*;

verus! {

/// Root manifest: the package, what it provides, and its dependencies.
pub struct Manifest {
    pub package: PackageInfo,
    pub provides: Option<Provides>,
    /// The `[dependencies]` table: name and specification, in table order.
    pub dependencies: Vec<(String, DependencySpec)>,
}

/// The `[package]` table.
pub struct PackageInfo {
    pub name: String,
    pub version: String,
    pub description: Option<String>,
    pub authors: Vec<String>,
    pub license: Option<String>,
    pub repository: Option<String>,
}

/// Developer tooling package contents.
pub struct Provides {
    /// Relative paths to SKILL.md files
    pub skills: Vec<String>,
    /// Relative paths to KB markdown files
    pub kb_items: Vec<String>,
    /// iris-dev-* binary names this package provides
    pub plugins: Vec<String>,
}

impl Default for Provides {
    fn default() -> (r: Self)
        ensures
            r.skills@.len() == 0,
            r.kb_items@.len() == 0,
            r.plugins@.len() == 0,
    {
        Provides { skills: Vec::new(), kb_items: Vec::new(), plugins: Vec::new() }
    }
}

/// One dependency: a version requirement and where to get it.
pub struct DependencySpec {
    pub version: String,
    pub git: Option<String>,
    pub github: Option<String>,
    pub openexchange: Option<String>,
    pub repository: Option<String>,
}

} // verus!
