//! iris_global — read, write, kill and list IRIS globals: subscript checks,
//! global references, and the ObjectScript each action runs.
use vstd::prelude::*;
use crate::deps::{regex_is_match, regex_is_match_result, parse_json, json_text_parses, json_value_of};
use crate::text::{
    has_prefix, trim_s, replace_char_s, join_s, views, decimal_s, contains_s, chars_of,
    string_of, trim, starts_with, replace_char, join, i64_to_string, contains, str_eq,
};

verus! {

/// The allow-list every subscript must match.
pub const SUBSCRIPT_PATTERN: &'static str = "^[a-zA-Z0-9 _.:\\-]+$";

/// A refused `iris_global` call: `error_code` and `message`; `subscript` names
/// the offending subscript of an `INVALID_SUBSCRIPT` error.
#[derive(Debug)]
pub struct GlobalError {
    pub error_code: String,
    pub message: String,
    pub subscript: Option<String>,
}

/// Parameters of an `iris_global` call.
pub struct IrisGlobalParams {
    /// Action: get, set, kill, list
    pub action: String,
    /// Global name (with or without leading ^)
    pub global_name: String,
    /// Subscripts (each must match ^[a-zA-Z0-9 _.:\-]+$)
    pub subscripts: Option<Vec<String>>,
    /// Value to set (required for action=set)
    pub value: Option<String>,
    /// IRIS namespace (defaults to connection default)
    pub namespace: Option<String>,
    /// get only: return all descendant nodes
    pub subtree: Option<bool>,
    /// get+subtree: max nodes returned (default 100, max 1000)
    pub max_nodes: Option<i64>,
    /// list: max subscripts returned (default 50, max 500)
    pub max_subscripts: Option<i64>,
    /// Bypass PHI name gate
    pub acknowledge_phi: Option<bool>,
}

// ---------------------------------------------------------------------------
// Subscript validation
// ---------------------------------------------------------------------------
/// A subscript passes when the allow-list pattern matches it.
pub open spec fn subscript_ok(sub: Seq<char>) -> bool {
    regex_is_match_result(SUBSCRIPT_PATTERN@, sub) == Some(true)
}

/// Message of an `INVALID_SUBSCRIPT` error.
pub open spec fn invalid_subscript_message(sub: Seq<char>) -> Seq<char> {
    "subscript '"@ + sub
        + "' contains disallowed characters (allowed: a-z A-Z 0-9 space . _ : -)"@
}

/// Validate that each subscript matches the allow-list pattern.
/// Returns an `INVALID_SUBSCRIPT` error on the first failing subscript.
pub fn validate_subscripts(subscripts: &[String]) -> (r: Result<(), GlobalError>)
    ensures
        r is Ok <==> forall|i: int| 0 <= i < subscripts@.len() ==> subscript_ok(
            #[trigger] subscripts@[i]@,
        ),
        r matches Err(e) ==> exists|i: int|
            0 <= i < subscripts@.len() && !subscript_ok(#[trigger] subscripts@[i]@) && (forall|j: int|
                0 <= j < i ==> subscript_ok(subscripts@[j]@)) && e.error_code@
                == "INVALID_SUBSCRIPT"@ && e.subscript == Some(subscripts@[i]) && e.message@
                == invalid_subscript_message(subscripts@[i]@),
{
    let mut i: usize = 0;
    while i < subscripts.len()
        invariant
            0 <= i <= subscripts@.len(),
            forall|j: int| 0 <= j < i ==> subscript_ok(#[trigger] subscripts@[j]@),
        decreases subscripts.len() - i,
    {
        let sub = &subscripts[i];
        let ok = match regex_is_match(SUBSCRIPT_PATTERN, sub.as_str()) {
            Some(b) => b,
            None => false,
        };
        if !ok {
            let mut message = String::from_str("subscript '");
            message.append(sub.as_str());
            message.append(
                "' contains disallowed characters (allowed: a-z A-Z 0-9 space . _ : -)",
            );
            let e = GlobalError {
                error_code: String::from_str("INVALID_SUBSCRIPT"),
                message,
                subscript: Some(sub.clone()),
            };
            assert(!subscript_ok(subscripts@[i as int]@));
            return Err(e);
        }
        i = i + 1;
    }
    Ok(())
}

// ---------------------------------------------------------------------------
// Names and references
// ---------------------------------------------------------------------------
/// `^MyApp` → `MyApp`: one leading `^` is dropped.
pub open spec fn normalize_global_name_s(name: Seq<char>) -> Seq<char> {
    if name.len() > 0 && name[0] == '^' {
        name.drop_first()
    } else {
        name
    }
}

/// Strip a leading `^` from a global name. `^MyApp` → `MyApp`.
pub fn normalize_global_name(name: &str) -> (r: String)
    ensures
        r@ == normalize_global_name_s(name@),
{
    let v = chars_of(name);
    if v.len() > 0 && v[0] == '^' {
        string_of(&v, 1, v.len())
    } else {
        string_of(&v, 0, v.len())
    }
}

/// A subscript written as an ObjectScript string literal.
pub open spec fn quoted(s: Seq<char>) -> Seq<char> {
    "\""@ + s + "\""@
}

/// The quoted form of each subscript.
pub open spec fn quoted_all(subs: Seq<Seq<char>>) -> Seq<Seq<char>> {
    Seq::new(subs.len(), |i: int| quoted(subs[i]))
}

/// `^Name` when there are no subscripts, `^Name("a","b")` otherwise.
pub open spec fn global_ref_s(name: Seq<char>, subs: Seq<Seq<char>>) -> Seq<char> {
    if subs.len() == 0 {
        "^"@ + name
    } else {
        "^"@ + name + "("@ + join_s(quoted_all(subs), ","@) + ")"@
    }
}

/// Build an IRIS global reference string for use in ObjectScript.
/// `build_global_ref("MyApp", &["a","b"])` → `^MyApp("a","b")`,
/// `build_global_ref("MyApp", &[])` → `^MyApp`.
/// Subscripts are expected to be validated already.
pub fn build_global_ref(name: &str, subscripts: &[String]) -> (r: String)
    ensures
        r@ == global_ref_s(name@, views(subscripts@)),
{
    let mut r = String::from_str("^");
    r.append(name);
    if subscripts.len() == 0 {
        return r;
    }
    let mut subs: Vec<String> = Vec::new();
    let mut i: usize = 0;
    while i < subscripts.len()
        invariant
            0 <= i <= subscripts@.len(),
            views(subs@) == quoted_all(views(subscripts@)).take(i as int),
        decreases subscripts.len() - i,
    {
        let mut q = String::from_str("\"");
        q.append(subscripts[i].as_str());
        q.append("\"");
        let ghost old_subs = subs@;
        subs.push(q);
        assert(q@ == quoted(views(subscripts@)[i as int]));
        assert(views(subs@) =~= views(old_subs).push(q@));
        assert(views(subs@) =~= quoted_all(views(subscripts@)).take(i + 1));
        i = i + 1;
    }
    assert(views(subs@) =~= quoted_all(views(subscripts@)));
    let joined = join(&subs, ",");
    r.append("(");
    r.append(joined.as_str());
    r.append(")");
    r
}

// ---------------------------------------------------------------------------
// Output parsing and limits
// ---------------------------------------------------------------------------
/// The message carried by an `ERROR: ` line, or the trimmed output.
pub open spec fn execute_output_s(output: Seq<char>) -> Result<Seq<char>, Seq<char>> {
    let t = trim_s(output);
    if has_prefix(t, "ERROR: "@) {
        Err(trim_s(t.skip(7)))
    } else {
        Ok(t)
    }
}

/// Parse the output of an ObjectScript run: a trimmed output starting with
/// `ERROR: ` becomes an `IRIS_EXECUTE_ERROR` carrying the trimmed rest.
pub fn parse_execute_output(output: &str) -> (r: Result<String, GlobalError>)
    ensures
        r matches Ok(s) ==> execute_output_s(output@) == Ok::<Seq<char>, Seq<char>>(s@),
        r matches Err(e) ==> execute_output_s(output@) == Err::<Seq<char>, Seq<char>>(e.message@)
            && e.error_code@ == "IRIS_EXECUTE_ERROR"@ && e.subscript is None,
{
    let t = trim(output);
    proof {
        reveal_strlit("ERROR: ");
    }
    if starts_with(t.as_str(), "ERROR: ") {
        let v = chars_of(t.as_str());
        let rest = string_of(&v, 7, v.len());
        let msg = trim(rest.as_str());
        assert(rest@ == t@.skip(7));
        return Err(
            GlobalError {
                error_code: String::from_str("IRIS_EXECUTE_ERROR"),
                message: msg,
                subscript: None,
            },
        );
    }
    Ok(t)
}

/// `v` clamped to `[lo, hi]` (`i64::clamp`).
pub open spec fn clamp_s(v: int, lo: int, hi: int) -> int {
    if v < lo {
        lo
    } else if v > hi {
        hi
    } else {
        v
    }
}

/// Clamp the subtree node cap to `[1, 1000]`.
pub fn clamp_max_nodes(v: i64) -> (r: i64)
    ensures
        r == clamp_s(v as int, 1, 1000),
{
    if v < 1 {
        1
    } else if v > 1000 {
        1000
    } else {
        v
    }
}

/// Clamp the listed-subscript cap to `[1, 500]`.
pub fn clamp_max_subscripts(v: i64) -> (r: i64)
    ensures
        r == clamp_s(v as int, 1, 500),
{
    if v < 1 {
        1
    } else if v > 500 {
        500
    } else {
        v
    }
}

// ---------------------------------------------------------------------------
// ObjectScript generators
// ---------------------------------------------------------------------------
pub const GET_CODE_HEAD: &'static str = " Set gref = \"";

pub const GET_CODE_TAIL: &'static str = r#""
 Set val = $Get(@gref)
 Set def = ($Data(@gref) > 0)
 If def {
   Write "{""success"":true,""defined"":true,""value"":""",val,"""}",$C(10)
 } Else {
   Write "{""success"":true,""defined"":false,""value"":null}",$C(10)
 }"#;

pub const SUBTREE_CODE_HEAD: &'static str = " Set startTime = $ZH\n Set maxNodes = ";

pub const SUBTREE_CODE_MID: &'static str = "\n Set grefBase = \"";

pub const SUBTREE_CODE_TAIL: &'static str = r#""
 Set node = grefBase
 Set count = 0
 Set truncated = 0
 Set out = "["
 For {
   Set node = $Query(@node)
   Quit:node=""
   Quit:$Extract(node,1,$Length(grefBase))'=grefBase
   If count >= maxNodes { Set truncated = 1  Quit }
   If ($ZH - startTime) > 5 { Set truncated = 1  Quit }
   Set val = @node
   If count > 0 { Set out = out_","  }
   Set out = out_"{""path"":"""_node_""",""value"":"""_val_"""}"
   Set count = count + 1
 }
 Set out = out_"]"
 Write "{""success"":true,""truncated"":"_truncated_",""node_count"":"_count_",""nodes"":"_out_"}",$C(10)"#;

pub const SET_CODE_MID: &'static str = "\"\n Set @gref = \"";

pub const SET_CODE_TAIL: &'static str = r#""
 Write "{""success"":true}",$C(10)"#;

pub const KILL_CODE_TAIL: &'static str = r#""
 Kill @gref
 Write "{""success"":true}",$C(10)"#;

pub const LIST_CODE_HEAD: &'static str = " Set maxSubs = ";

pub const LIST_CODE_MID: &'static str = "\n Set gref = \"";

pub const LIST_CODE_TAIL: &'static str = r#""
 Set sub = ""
 Set count = 0
 Set truncated = 0
 Set out = "["
 For {
   Set sub = $Order(@gref@(sub))
   Quit:sub=""
   If count >= maxSubs { Set truncated = 1  Quit }
   If count > 0 { Set out = out_","  }
   Set out = out_""""_sub_""""
   Set count = count + 1
 }
 Set out = out_"]"
 Write "{""success"":true,""truncated"":"_truncated_",""subscripts"":"_out_"}",$C(10)"#;

/// ObjectScript for a single-node `get`.
pub open spec fn get_code_s(gref: Seq<char>) -> Seq<char> {
    GET_CODE_HEAD@ + gref + GET_CODE_TAIL@
}

/// ObjectScript for a subtree `get` (walks `$Query` under `gref`, at most
/// `max_nodes` nodes and five seconds).
pub open spec fn subtree_code_s(gref: Seq<char>, max_nodes: int) -> Seq<char> {
    SUBTREE_CODE_HEAD@ + decimal_s(max_nodes) + SUBTREE_CODE_MID@ + gref + SUBTREE_CODE_TAIL@
}

/// ObjectScript for a `set`: the value's double quotes are doubled.
pub open spec fn set_code_s(gref: Seq<char>, value: Seq<char>) -> Seq<char> {
    GET_CODE_HEAD@ + gref + SET_CODE_MID@ + replace_char_s(value, '"', "\"\""@) + SET_CODE_TAIL@
}

/// ObjectScript for a `kill`.
pub open spec fn kill_code_s(gref: Seq<char>) -> Seq<char> {
    GET_CODE_HEAD@ + gref + KILL_CODE_TAIL@
}

/// ObjectScript for a `list` of first-level subscripts under `gref`.
pub open spec fn list_code_s(gref: Seq<char>, max_subscripts: int) -> Seq<char> {
    LIST_CODE_HEAD@ + decimal_s(max_subscripts) + LIST_CODE_MID@ + gref + LIST_CODE_TAIL@
}

/// Build ObjectScript for a single-node `get`.
pub fn build_get_code(gref: &str) -> (r: String)
    ensures
        r@ == get_code_s(gref@),
{
    let mut r = String::from_str(GET_CODE_HEAD);
    r.append(gref);
    r.append(GET_CODE_TAIL);
    r
}

/// Build ObjectScript for a subtree `get`.
pub fn build_subtree_get_code(gref: &str, max_nodes: i64) -> (r: String)
    ensures
        r@ == subtree_code_s(gref@, max_nodes as int),
{
    let mut r = String::from_str(SUBTREE_CODE_HEAD);
    let n = i64_to_string(max_nodes);
    r.append(n.as_str());
    r.append(SUBTREE_CODE_MID);
    r.append(gref);
    r.append(SUBTREE_CODE_TAIL);
    r
}

/// Build ObjectScript for a `set` operation.
pub fn build_set_objectscript(gref: &str, value: &str) -> (r: String)
    ensures
        r@ == set_code_s(gref@, value@),
{
    let escaped_value = replace_char(value, '"', "\"\"");
    let mut r = String::from_str(GET_CODE_HEAD);
    r.append(gref);
    r.append(SET_CODE_MID);
    r.append(escaped_value.as_str());
    r.append(SET_CODE_TAIL);
    r
}

/// Build ObjectScript for a `kill` operation.
pub fn build_kill_code(gref: &str) -> (r: String)
    ensures
        r@ == kill_code_s(gref@),
{
    let mut r = String::from_str(GET_CODE_HEAD);
    r.append(gref);
    r.append(KILL_CODE_TAIL);
    r
}

/// Build ObjectScript for a `list` operation.
pub fn build_list_code(gref: &str, max_subscripts: i64) -> (r: String)
    ensures
        r@ == list_code_s(gref@, max_subscripts as int),
{
    let mut r = String::from_str(LIST_CODE_HEAD);
    let n = i64_to_string(max_subscripts);
    r.append(n.as_str());
    r.append(LIST_CODE_MID);
    r.append(gref);
    r.append(LIST_CODE_TAIL);
    r
}

// ---------------------------------------------------------------------------
// The iris_global call, around its one ObjectScript run
// ---------------------------------------------------------------------------
/// What an `iris_global` call runs: the ObjectScript `code`, in `namespace`;
/// `is_get` marks a `get`, whose run errors are classified more finely.
pub struct GlobalPlan {
    pub is_get: bool,
    pub code: String,
    pub namespace: String,
}

/// The end of an `iris_global` call: the JSON document the ObjectScript wrote,
/// or an error.
pub enum GlobalOutcome {
    Value(serde_json::Value),
    Failed(GlobalError),
}

/// The code run for `action`, or `None` for a `set` without a value or an
/// unknown action.
pub open spec fn global_code_s(p: IrisGlobalParams, gref: Seq<char>) -> Option<Seq<char>> {
    if p.action@ == "get"@ {
        if p.subtree == Some(true) {
            Some(
                subtree_code_s(
                    gref,
                    clamp_s(
                        match p.max_nodes {
                            Some(n) => n as int,
                            None => 100,
                        },
                        1,
                        1000,
                    ),
                ),
            )
        } else {
            Some(get_code_s(gref))
        }
    } else if p.action@ == "set"@ {
        match p.value {
            Some(v) => Some(set_code_s(gref, v@)),
            None => None,
        }
    } else if p.action@ == "kill"@ {
        Some(kill_code_s(gref))
    } else if p.action@ == "list"@ {
        Some(
            list_code_s(
                gref,
                clamp_s(
                    match p.max_subscripts {
                        Some(n) => n as int,
                        None => 50,
                    },
                    1,
                    500,
                ),
            ),
        )
    } else {
        None
    }
}

/// The subscripts of a call (none when absent).
pub open spec fn subs_of(p: IrisGlobalParams) -> Seq<String> {
    match p.subscripts {
        Some(v) => v@,
        None => Seq::empty(),
    }
}

/// Decide what an `iris_global` call runs. Subscripts are validated first
/// (`INVALID_SUBSCRIPT`); then a `set` without a value is `INVALID_PARAMS`
/// and an unknown action `INVALID_ACTION`. The namespace defaults to
/// `default_namespace`.
pub fn plan_iris_global(p: &IrisGlobalParams, default_namespace: &str) -> (r: Result<
    GlobalPlan,
    GlobalError,
>)
    ensures
        (exists|i: int|
            0 <= i < subs_of(*p).len() && !subscript_ok(#[trigger] subs_of(*p)[i]@)) ==> (r matches Err(
            e) && exists|i: int|
            0 <= i < subs_of(*p).len() && !subscript_ok(#[trigger] subs_of(*p)[i]@) && (forall|j: int|
                0 <= j < i ==> subscript_ok(subs_of(*p)[j]@)) && e.error_code@ == "INVALID_SUBSCRIPT"@
                && e.subscript == Some(subs_of(*p)[i]) && e.message@ == invalid_subscript_message(
                subs_of(*p)[i]@,
            )),
        (forall|i: int| 0 <= i < subs_of(*p).len() ==> subscript_ok(#[trigger] subs_of(*p)[i]@))
            ==> {
            let gref = global_ref_s(normalize_global_name_s(p.global_name@), views(subs_of(*p)));
            match global_code_s(*p, gref) {
                Some(code) => (r matches Ok(plan) && plan.code@ == code && plan.is_get == (
                p.action@ == "get"@) && plan.namespace@ == match p.namespace {
                    Some(ns) => ns@,
                    None => default_namespace@,
                }),
                None => (r matches Err(e) && if p.action@ == "set"@ {
                    e.error_code@ == "INVALID_PARAMS"@ && e.message@
                        == "action=set requires a 'value' parameter"@
                } else {
                    e.error_code@ == "INVALID_ACTION"@ && e.message@ == "unknown action: "@
                        + p.action@ + " (expected: get, set, kill, list)"@
                }),
            }
        },
{
    let empty: Vec<String> = Vec::new();
    let subs: &Vec<String> = match &p.subscripts {
        Some(v) => v,
        None => &empty,
    };
    assert(subs@ == subs_of(*p));
    match validate_subscripts(subs.as_slice()) {
        Err(e) => {
            return Err(e);
        },
        Ok(()) => {},
    }
    let name = normalize_global_name(p.global_name.as_str());
    let gref = build_global_ref(name.as_str(), subs.as_slice());
    let namespace = match &p.namespace {
        Some(ns) => ns.clone(),
        None => String::from_str(default_namespace),
    };
    let action = p.action.as_str();
    proof {
        reveal_strlit("get");
        reveal_strlit("set");
        reveal_strlit("kill");
        reveal_strlit("list");
    }
    if str_eq(action, "get") {
        let code = if p.subtree == Some(true) {
            let max_nodes = clamp_max_nodes(
                match p.max_nodes {
                    Some(n) => n,
                    None => 100,
                },
            );
            build_subtree_get_code(gref.as_str(), max_nodes)
        } else {
            build_get_code(gref.as_str())
        };
        Ok(GlobalPlan { is_get: true, code, namespace })
    } else if str_eq(action, "set") {
        match &p.value {
            Some(v) => {
                let code = build_set_objectscript(gref.as_str(), v.as_str());
                Ok(GlobalPlan { is_get: false, code, namespace })
            },
            None => Err(
                GlobalError {
                    error_code: String::from_str("INVALID_PARAMS"),
                    message: String::from_str("action=set requires a 'value' parameter"),
                    subscript: None,
                },
            ),
        }
    } else if str_eq(action, "kill") {
        let code = build_kill_code(gref.as_str());
        Ok(GlobalPlan { is_get: false, code, namespace })
    } else if str_eq(action, "list") {
        let max_subs = clamp_max_subscripts(
            match p.max_subscripts {
                Some(n) => n,
                None => 50,
            },
        );
        let code = build_list_code(gref.as_str(), max_subs);
        Ok(GlobalPlan { is_get: false, code, namespace })
    } else {
        let mut message = String::from_str("unknown action: ");
        message.append(action);
        message.append(" (expected: get, set, kill, list)");
        Err(
            GlobalError {
                error_code: String::from_str("INVALID_ACTION"),
                message,
                subscript: None,
            },
        )
    }
}

/// Error code for a failed ObjectScript run: a `get` that failed over HTTP or
/// the connection is `IRIS_UNREACHABLE`, any other `get` failure
/// `IRIS_EXECUTE_ERROR`; every other action's failure is `IRIS_UNREACHABLE`.
pub open spec fn run_error_code_s(is_get: bool, msg: Seq<char>) -> Seq<char> {
    if !is_get || contains_s(msg, "HTTP 4"@) || contains_s(msg, "HTTP 5"@) || contains_s(
        msg,
        "connection"@,
    ) {
        "IRIS_UNREACHABLE"@
    } else {
        "IRIS_EXECUTE_ERROR"@
    }
}

/// Turn the result of the ObjectScript run into the call's answer: a failed
/// run is an error (see `run_error_code_s`); an `ERROR: ` output is
/// `IRIS_EXECUTE_ERROR`; otherwise the trimmed output must be JSON, and the
/// answer is the value it reads as, else it is `IRIS_EXECUTE_ERROR` with
/// `unexpected output: <text>`.
pub fn finish_iris_global(is_get: bool, run: Result<String, String>) -> (r: GlobalOutcome)
    ensures
        run matches Err(msg) ==> (r matches GlobalOutcome::Failed(e) && e.error_code@
            == run_error_code_s(is_get, msg@) && e.message@ == msg@),
        run matches Ok(out) ==> match execute_output_s(out@) {
            Err(m) => (r matches GlobalOutcome::Failed(e) && e.error_code@ == "IRIS_EXECUTE_ERROR"@
                && e.message@ == m),
            Ok(t) => if json_text_parses(t) {
                (r matches GlobalOutcome::Value(v) && v == json_value_of(t))
            } else {
                (r matches GlobalOutcome::Failed(e) && e.error_code@ == "IRIS_EXECUTE_ERROR"@
                    && e.message@ == "unexpected output: "@ + t)
            },
        },
{
    match run {
        Err(msg) => {
            let unreachable = !is_get || contains(msg.as_str(), "HTTP 4") || contains(
                msg.as_str(),
                "HTTP 5",
            ) || contains(msg.as_str(), "connection");
            let code = if unreachable {
                "IRIS_UNREACHABLE"
            } else {
                "IRIS_EXECUTE_ERROR"
            };
            GlobalOutcome::Failed(
                GlobalError { error_code: String::from_str(code), message: msg, subscript: None },
            )
        },
        Ok(output) => match parse_execute_output(output.as_str()) {
            Err(e) => GlobalOutcome::Failed(e),
            Ok(json_str) => match parse_json(json_str.as_str()) {
                Some(v) => GlobalOutcome::Value(v),
                None => {
                    let mut message = String::from_str("unexpected output: ");
                    message.append(json_str.as_str());
                    GlobalOutcome::Failed(
                        GlobalError {
                            error_code: String::from_str("IRIS_EXECUTE_ERROR"),
                            message,
                            subscript: None,
                        },
                    )
                },
            },
        },
    }
}

} // verus!
