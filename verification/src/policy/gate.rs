//! The unified dispatch gate: which checks run before a tool call, in which
//! fixed order, and on which parameters. The first check that blocks decides.
use vstd::prelude::*;
use crate::text::str_eq;

verus! {

/// The parameters the gates read, each as found in the call's JSON (a
/// field that is absent or of another type is `None`).
pub struct GateParams {
    /// `code` (a string)
    pub code: Option<String>,
    /// `mode` (a string)
    pub mode: Option<String>,
    /// `query` (a string)
    pub query: Option<String>,
    /// `global_name` (a string)
    pub global_name: Option<String>,
    /// `globalName` (a string)
    pub global_name_alt: Option<String>,
    /// `action` (a string)
    pub action: Option<String>,
    /// `acknowledgePhi` (a boolean)
    pub acknowledge_phi: Option<bool>,
}

/// A security rule applied before a tool call.
pub enum GateCheck {
    /// Editing class or routine code through arbitrary ObjectScript.
    ObjectScriptCodeEdit { code: String },
    /// Editing code through write SQL.
    SqlCodeEdit { query: String },
    /// The connection's environment template (default: dev).
    EnvTemplate,
    /// The bulk-PHI block of the data policy (default: block).
    BulkPhi,
    /// The system global blocklist, for the global and whether the call
    /// kills it.
    SystemBlocklist { global_name: String, is_kill: bool },
    /// The PHI name pattern of the global.
    PhiName { global_name: String, acknowledge_phi: bool },
}

/// The text of an optional string.
pub open spec fn opt_t(o: Option<String>) -> Option<Seq<char>> {
    match o {
        Some(s) => Some(s@),
        None => None,
    }
}

/// The code-edit check of a call: for `iris_execute`, on its `code`; for
/// `iris_query` in `write` mode, on its `query`; else none.
pub open spec fn code_edit_check(tool: Seq<char>, p: GateParams) -> Option<GateCheck> {
    if tool == "iris_execute"@ {
        match p.code {
            Some(c) => Some(GateCheck::ObjectScriptCodeEdit { code: c }),
            None => None,
        }
    } else if tool == "iris_query"@ && opt_t(p.mode) == Some("write"@) {
        match p.query {
            Some(q) => Some(GateCheck::SqlCodeEdit { query: q }),
            None => None,
        }
    } else {
        None
    }
}

/// The global a call names: `global_name`, else `globalName`.
pub open spec fn gate_global(p: GateParams) -> Option<Seq<char>> {
    match p.global_name {
        Some(g) => Some(g@),
        None => opt_t(p.global_name_alt),
    }
}

/// Whether `c` is the check `want`, the strings compared by text.
pub open spec fn same_check(c: GateCheck, want: GateCheck) -> bool {
    match (c, want) {
        (GateCheck::ObjectScriptCodeEdit { code: a }, GateCheck::ObjectScriptCodeEdit { code: b }) => a@
            == b@,
        (GateCheck::SqlCodeEdit { query: a }, GateCheck::SqlCodeEdit { query: b }) => a@ == b@,
        (GateCheck::EnvTemplate, GateCheck::EnvTemplate) => true,
        (GateCheck::BulkPhi, GateCheck::BulkPhi) => true,
        (
            GateCheck::SystemBlocklist { global_name: a, is_kill: x },
            GateCheck::SystemBlocklist { global_name: b, is_kill: y },
        ) => a@ == b@ && x == y,
        (
            GateCheck::PhiName { global_name: a, acknowledge_phi: x },
            GateCheck::PhiName { global_name: b, acknowledge_phi: y },
        ) => a@ == b@ && x == y,
        _ => false,
    }
}

fn clone_str(o: &Option<String>) -> (r: Option<String>)
    ensures
        opt_t(r) == opt_t(*o),
{
    match o {
        Some(s) => Some(s.clone()),
        None => None,
    }
}

/// The checks to run for a call, in order: the code-edit check (whether or
/// not there is a policy); then, with a policy, the environment template,
/// the bulk-PHI block and — when the call names a global — the system
/// blocklist and the PHI name gate.
pub fn gate_checks(tool_name: &str, has_policy: bool, p: &GateParams) -> (r: Vec<GateCheck>)
    ensures
        ({
            let first = code_edit_check(tool_name@, *p);
            let k: int = if first is Some {
                1
            } else {
                0
            };
            &&& first matches Some(c) ==> r@.len() > 0 && same_check(r@[0], c)
            &&& !has_policy ==> r@.len() == k
            &&& has_policy ==> {
                &&& same_check(r@[k], GateCheck::EnvTemplate)
                &&& same_check(r@[k + 1], GateCheck::BulkPhi)
                &&& match gate_global(*p) {
                    None => r@.len() == k + 2,
                    Some(g) => r@.len() == k + 4 && (r@[k + 2] matches GateCheck::SystemBlocklist {
                        global_name,
                        is_kill,
                    } && global_name@ == g && is_kill == (opt_t(p.action) == Some("kill"@)))
                        && (r@[k + 3] matches GateCheck::PhiName { global_name, acknowledge_phi }
                        && global_name@ == g && acknowledge_phi == (p.acknowledge_phi == Some(true))),
                }
            }
        }),
{
    let mut checks: Vec<GateCheck> = Vec::new();
    if str_eq(tool_name, "iris_execute") {
        if let Some(c) = &p.code {
            checks.push(GateCheck::ObjectScriptCodeEdit { code: c.clone() });
        }
    } else if str_eq(tool_name, "iris_query") {
        let is_write = match &p.mode {
            Some(m) => str_eq(m.as_str(), "write"),
            None => false,
        };
        if is_write {
            if let Some(q) = &p.query {
                checks.push(GateCheck::SqlCodeEdit { query: q.clone() });
            }
        }
    }
    if !has_policy {
        return checks;
    }
    checks.push(GateCheck::EnvTemplate);
    checks.push(GateCheck::BulkPhi);
    let global = match &p.global_name {
        Some(g) => Some(g.clone()),
        None => clone_str(&p.global_name_alt),
    };
    if let Some(g) = global {
        let is_kill = match &p.action {
            Some(a) => str_eq(a.as_str(), "kill"),
            None => false,
        };
        let ack = match p.acknowledge_phi {
            Some(b) => b,
            None => false,
        };
        checks.push(GateCheck::SystemBlocklist { global_name: g.clone(), is_kill });
        checks.push(GateCheck::PhiName { global_name: g, acknowledge_phi: ack });
    }
    checks
}

} // verus!
