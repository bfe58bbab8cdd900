//! `init`: refusing to overwrite, and the container the new configuration
//! names.
use vstd::prelude::*;

verus! {

/// Options of the `init` subcommand.
pub struct InitCommand {
    /// Overwrite an existing .iris-agentic-dev.toml
    pub force: bool,
    /// Workspace directory (default: current directory)
    pub workspace: String,
    /// Output format: text or json
    pub format: String,
}

/// The error when the configuration exists and `--force` is not given.
pub fn init_exists_error(path: &str) -> (r: String)
    ensures
        r@ == ".iris-agentic-dev.toml already exists at "@ + path@ + ". Use --force to overwrite."@,
{
    let mut r = String::from_str(".iris-agentic-dev.toml already exists at ");
    r.append(path);
    r.append(". Use --force to overwrite.");
    r
}

/// Whether `init` may write the configuration.
pub fn may_write_config(present: bool, force: bool) -> (r: bool)
    ensures
        r == (!present || force),
{
    !present || force
}

/// The container the configuration names: the best-scoring running one,
/// else `<workspace>-iris`.
pub fn suggested_container(best: Option<&str>, workspace_basename: &str) -> (r: String)
    ensures
        match best {
            Some(n) => r@ == n@,
            None => r@ == workspace_basename@ + "-iris"@,
        },
{
    match best {
        Some(n) => String::from_str(n),
        None => {
            let mut r = String::from_str(workspace_basename);
            r.append("-iris");
            r
        },
    }
}

/// The text report of a written configuration.
pub fn init_report(path: &str, container: &str) -> (r: Vec<String>)
    ensures
        r@.len() == 3,
        r@[0]@ == "✓ Created "@ + path@,
        r@[1]@ == "  container = \""@ + container@ + "\""@,
        r@[2]@ == "  namespace = \"USER\""@,
{
    let mut a = String::from_str("✓ Created ");
    a.append(path);
    let mut b = String::from_str("  container = \"");
    b.append(container);
    b.append("\"");
    let c = String::from_str("  namespace = \"USER\"");
    let mut r: Vec<String> = Vec::new();
    r.push(a);
    r.push(b);
    r.push(c);
    r
}

} // verus!
