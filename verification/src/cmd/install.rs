//! `install`: the report of a resolution, dry or written.
use vstd::prelude::*;
use crate::manifest::resolve::{PackageLock, ResolveLock};
use crate::text::{digits_s, u64_to_string};

verus! {

/// Options of the `install` subcommand.
pub struct InstallCommand {
    pub locked: bool,
    pub dry_run: bool,
}

/// `Resolving <n> dependencies...`
pub fn resolving_line(n: usize) -> (r: String)
    ensures
        r@ == "Resolving "@ + digits_s(n as nat) + " dependencies..."@,
{
    let mut r = String::from_str("Resolving ");
    r.append(u64_to_string(n as u64).as_str());
    r.append(" dependencies...");
    r
}

/// The lines a dry run prints: a count, then `  <name> v<version>
/// (<repository>)` per package.
pub fn dry_run_lines(lock: &ResolveLock) -> (r: Vec<String>)
    ensures
        r@.len() == lock.packages@.len() + 1,
        r@[0]@ == "Would install "@ + digits_s(lock.packages@.len()) + " packages:"@,
        forall|i: int|
            0 <= i < lock.packages@.len() ==> (#[trigger] r@[i + 1])@ == "  "@ + lock.packages@[i].name@
                + " v"@ + lock.packages@[i].version@ + " ("@ + lock.packages@[i].repository@ + ")"@,
{
    let mut r: Vec<String> = Vec::new();
    let mut h = String::from_str("Would install ");
    h.append(u64_to_string(lock.packages.len() as u64).as_str());
    h.append(" packages:");
    r.push(h);
    let mut i: usize = 0;
    while i < lock.packages.len()
        invariant
            0 <= i <= lock.packages@.len(),
            r@.len() == i + 1,
            r@[0]@ == "Would install "@ + digits_s(lock.packages@.len()) + " packages:"@,
            forall|j: int|
                0 <= j < i ==> (#[trigger] r@[j + 1])@ == "  "@ + lock.packages@[j].name@ + " v"@
                    + lock.packages@[j].version@ + " ("@ + lock.packages@[j].repository@ + ")"@,
        decreases lock.packages.len() - i,
    {
        let p: &PackageLock = &lock.packages[i];
        let mut l = String::from_str("  ");
        l.append(p.name.as_str());
        l.append(" v");
        l.append(p.version.as_str());
        l.append(" (");
        l.append(p.repository.as_str());
        l.append(")");
        r.push(l);
        i = i + 1;
    }
    r
}

/// The lines after writing the lock file: a count, then `  ✓ <name>
/// v<version>` per package.
pub fn installed_lines(lock: &ResolveLock) -> (r: Vec<String>)
    ensures
        r@.len() == lock.packages@.len() + 1,
        r@[0]@ == "Wrote iris-agentic-dev.lock with "@ + digits_s(lock.packages@.len()) + " packages"@,
        forall|i: int|
            0 <= i < lock.packages@.len() ==> (#[trigger] r@[i + 1])@ == "  ✓ "@
                + lock.packages@[i].name@ + " v"@ + lock.packages@[i].version@,
{
    let mut r: Vec<String> = Vec::new();
    let mut h = String::from_str("Wrote iris-agentic-dev.lock with ");
    h.append(u64_to_string(lock.packages.len() as u64).as_str());
    h.append(" packages");
    r.push(h);
    let mut i: usize = 0;
    while i < lock.packages.len()
        invariant
            0 <= i <= lock.packages@.len(),
            r@.len() == i + 1,
            r@[0]@ == "Wrote iris-agentic-dev.lock with "@ + digits_s(lock.packages@.len())
                + " packages"@,
            forall|j: int|
                0 <= j < i ==> (#[trigger] r@[j + 1])@ == "  ✓ "@ + lock.packages@[j].name@ + " v"@
                    + lock.packages@[j].version@,
        decreases lock.packages.len() - i,
    {
        let p: &PackageLock = &lock.packages[i];
        let mut l = String::from_str("  ✓ ");
        l.append(p.name.as_str());
        l.append(" v");
        l.append(p.version.as_str());
        r.push(l);
        i = i + 1;
    }
    r
}

} // verus!
