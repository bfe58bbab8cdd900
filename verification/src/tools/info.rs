//! iris_info, iris_macro, iris_debug, iris_generate and iris_table_info: what
//! each asks IRIS for, and how its answer is read.
use vstd::prelude::*;
use crate::deps::{to_uppercase, unicode_upper, url_encode, url_encoded};
use crate::text::{
    chars_of, string_of, str_eq, trim, trim_s, lines, lines_s, views, replace_char, replace_char_s,
    find_char, find_char_s, lemma_find_char_props, parse_unsigned, parse_unsigned_s,
};
use super::{ToolError, tool_error};

verus! {

// ---------------------------------------------------------------------------
// iris_info
// ---------------------------------------------------------------------------
/// Parameters of `iris_info`.
pub struct InfoParams {
    /// What to fetch: documents, modified, namespace, metadata, jobs,
    /// csp_apps, csp_debug, sa_schema
    pub what: String,
    /// Document type filter for what=documents: CLS, MAC, INT, INC, CSP, ALL
    pub doc_type: Option<String>,
    /// Schema/cube name for what=sa_schema
    pub name: Option<String>,
    pub namespace: String,
    /// Return all results inline regardless of count.
    pub inline: bool,
}

/// Where an `iris_info` request goes.
pub enum InfoTarget {
    /// A path under the namespace's API root.
    Namespace(String),
    /// A path under the server's API root.
    Root(String),
}

/// The path of each `what`.
pub open spec fn info_path_s(what: Seq<char>, doc_type: Option<Seq<char>>, name: Seq<char>) -> Option<(bool, Seq<char>)> {
    if what == "documents"@ {
        let cat = match doc_type {
            None => "CLS"@,
            Some(t) => if t == "ALL"@ {
                "CLS"@
            } else {
                unicode_upper(t)
            },
        };
        Some((true, "/docnames/"@ + cat))
    } else if what == "modified"@ {
        Some((true, "/modified/0"@))
    } else if what == "namespace"@ {
        Some((true, Seq::empty()))
    } else if what == "metadata"@ {
        Some((false, "/"@))
    } else if what == "jobs"@ {
        Some((true, "/jobs"@))
    } else if what == "csp_apps"@ {
        Some((true, "/cspapps"@))
    } else if what == "csp_debug"@ {
        Some((true, "/cspdebugid"@))
    } else if what == "sa_schema"@ {
        Some((true, "/saschema/"@ + url_encoded(name)))
    } else {
        None
    }
}

/// The text of an optional string, empty when absent.
pub open spec fn text_of(o: Option<String>) -> Seq<char> {
    match o {
        Some(s) => s@,
        None => Seq::empty(),
    }
}

/// Where an `iris_info` request goes; an unknown `what` is refused.
pub fn info_target(p: &InfoParams) -> (r: Result<InfoTarget, ToolError>)
    ensures
        ({
            let dt = match p.doc_type {
                Some(t) => Some(t@),
                None => None,
            };
            match info_path_s(p.what@, dt, text_of(p.name)) {
                Some((in_ns, path)) => match r {
                    Ok(InfoTarget::Namespace(x)) => in_ns && x@ == path,
                    Ok(InfoTarget::Root(x)) => !in_ns && x@ == path,
                    Err(_) => false,
                },
                None => r matches Err(e) && e.error_code@ == "INVALID_PARAM"@ && e.error@
                    == "Unknown what='"@ + p.what@
                    + "'. Use: documents, modified, namespace, metadata, jobs, csp_apps, csp_debug, sa_schema"@,
            }
        }),
{
    let w = p.what.as_str();
    if str_eq(w, "documents") {
        let cat = match &p.doc_type {
            None => String::from_str("CLS"),
            Some(t) => if str_eq(t.as_str(), "ALL") {
                String::from_str("CLS")
            } else {
                to_uppercase(t.as_str())
            },
        };
        let mut path = String::from_str("/docnames/");
        path.append(cat.as_str());
        Ok(InfoTarget::Namespace(path))
    } else if str_eq(w, "modified") {
        Ok(InfoTarget::Namespace(String::from_str("/modified/0")))
    } else if str_eq(w, "namespace") {
        Ok(InfoTarget::Namespace(String::new()))
    } else if str_eq(w, "metadata") {
        Ok(InfoTarget::Root(String::from_str("/")))
    } else if str_eq(w, "jobs") {
        Ok(InfoTarget::Namespace(String::from_str("/jobs")))
    } else if str_eq(w, "csp_apps") {
        Ok(InfoTarget::Namespace(String::from_str("/cspapps")))
    } else if str_eq(w, "csp_debug") {
        Ok(InfoTarget::Namespace(String::from_str("/cspdebugid")))
    } else if str_eq(w, "sa_schema") {
        let name = match &p.name {
            Some(n) => n.as_str(),
            None => {
                proof {
                    reveal_strlit("");
                }
                ""
            },
        };
        let mut path = String::from_str("/saschema/");
        path.append(url_encode(name).as_str());
        Ok(InfoTarget::Namespace(path))
    } else {
        let mut m = String::from_str("Unknown what='");
        m.append(w);
        m.append(
            "'. Use: documents, modified, namespace, metadata, jobs, csp_apps, csp_debug, sa_schema",
        );
        Err(ToolError { error_code: String::from_str("INVALID_PARAM"), error: m })
    }
}

// ---------------------------------------------------------------------------
// iris_macro
// ---------------------------------------------------------------------------
/// Parameters of `iris_macro`.
pub struct MacroParams {
    /// Action: list, signature, location, definition, expand
    pub action: String,
    pub name: Option<String>,
    pub args: Vec<String>,
    pub namespace: String,
}

/// What an `iris_macro` call does.
pub enum MacroAction {
    /// List the include files.
    List,
    /// Ask `/action/getmacro` with this action.
    Lookup(String),
}

/// The action of an `iris_macro` call; an unknown one is refused.
pub fn macro_action(action: &str) -> (r: Result<MacroAction, ToolError>)
    ensures
        action@ == "list"@ ==> r matches Ok(MacroAction::List),
        (action@ == "signature"@ || action@ == "location"@ || action@ == "definition"@ || action@
            == "expand"@) ==> (r matches Ok(MacroAction::Lookup(a)) && a@ == action@),
        !(action@ == "list"@ || action@ == "signature"@ || action@ == "location"@ || action@
            == "definition"@ || action@ == "expand"@) ==> (r matches Err(e) && e.error_code@
            == "INVALID_PARAM"@ && e.error@ == "Unknown action='"@ + action@
            + "'. Use: list, signature, location, definition, expand"@),
{
    proof {
        reveal_strlit("list");
        reveal_strlit("signature");
        reveal_strlit("location");
        reveal_strlit("definition");
        reveal_strlit("expand");
        assert("list"@.len() == 4);
        assert("signature"@.len() == 9 && "location"@.len() == 8);
        assert("definition"@.len() == 10 && "expand"@.len() == 6);
    }
    if str_eq(action, "list") {
        Ok(MacroAction::List)
    } else if str_eq(action, "signature") || str_eq(action, "location") || str_eq(
        action,
        "definition",
    ) || str_eq(action, "expand") {
        Ok(MacroAction::Lookup(String::from_str(action)))
    } else {
        let mut m = String::from_str("Unknown action='");
        m.append(action);
        m.append("'. Use: list, signature, location, definition, expand");
        Err(ToolError { error_code: String::from_str("INVALID_PARAM"), error: m })
    }
}

// ---------------------------------------------------------------------------
// iris_debug
// ---------------------------------------------------------------------------
/// Parameters of `iris_debug`.
pub struct DebugParams {
    /// Action: map_int, error_logs, capture, source_map
    pub action: String,
    /// Error string for map_int e.g. "<UNDEFINED>x+3^MyApp.Foo.1"
    pub error_string: Option<String>,
    /// Class name for source_map
    pub class_name: Option<String>,
    pub limit: usize,
    pub namespace: String,
}

/// `s` with each `"` written `\"`.
pub open spec fn bq_s(s: Seq<char>) -> Seq<char> {
    replace_char_s(s, '"', "\\\""@)
}

pub const MAP_INT_A: &'static str = "set err=\"";

pub const MAP_INT_C: &'static str = "\" set routine=$piece($piece(err,\"^\",2),\".\",1) set offset=$piece(err,\"+\",2) set offset=$piece(offset,\"^\",1) write ##class(%Studio.Debugger).SourceLine(routine,+offset)";

pub const CAPTURE_CODE: &'static str = "set err=$ZERROR write \"error:\"_err,! set loc=$ZPOSITION write \"position:\"_loc,!";

pub const SOURCE_MAP_A: &'static str = "set map=\"\" set line=1 do {set int=##class(%Studio.Debugger).MapToINT(\"";

pub const SOURCE_MAP_C: &'static str = "\",line,.intline) if int=\"\" quit set map=map_line_\"->\"_intline_\",\" set line=line+1 } while 1 write map";

/// What an `iris_debug` call does.
pub enum DebugPlan {
    /// Run `code`; `label` names the action in a docker error.
    Run { code: String, label: String },
    /// Answer with the empty error log and its note.
    ErrorLogs,
}

/// The plan of an `iris_debug` call; an unknown action is refused.
pub fn debug_plan(p: &DebugParams) -> (r: Result<DebugPlan, ToolError>)
    ensures
        p.action@ == "map_int"@ ==> (r matches Ok(DebugPlan::Run { code, label }) && label@
            == "map_int"@ && code@ == MAP_INT_A@ + bq_s(text_of(p.error_string)) + MAP_INT_C@),
        p.action@ == "error_logs"@ ==> r matches Ok(DebugPlan::ErrorLogs),
        p.action@ == "capture"@ ==> (r matches Ok(DebugPlan::Run { code, label }) && label@
            == "capture"@ && code@ == CAPTURE_CODE@),
        p.action@ == "source_map"@ ==> (r matches Ok(DebugPlan::Run { code, label }) && label@
            == "source_map"@ && code@ == SOURCE_MAP_A@ + bq_s(text_of(p.class_name))
            + SOURCE_MAP_C@),
        !(p.action@ == "map_int"@ || p.action@ == "error_logs"@ || p.action@ == "capture"@
            || p.action@ == "source_map"@) ==> (r matches Err(e) && e.error_code@
            == "INVALID_PARAM"@ && e.error@ == "Unknown action='"@ + p.action@
            + "'. Use: map_int, error_logs, capture, source_map"@),
{
    let a = p.action.as_str();
    proof {
        reveal_strlit("map_int");
        reveal_strlit("error_logs");
        reveal_strlit("capture");
        reveal_strlit("source_map");
        assert("capture"@[0] != "map_int"@[0]);
        assert("source_map"@[0] != "error_logs"@[0]);
    }
    if str_eq(a, "map_int") {
        let err = match &p.error_string {
            Some(e) => replace_char(e.as_str(), '"', "\\\""),
            None => replace_char("", '"', "\\\""),
        };
        proof {
            reveal_strlit("");
        }
        let mut code = String::from_str(MAP_INT_A);
        code.append(err.as_str());
        code.append(MAP_INT_C);
        Ok(DebugPlan::Run { code, label: String::from_str("map_int") })
    } else if str_eq(a, "error_logs") {
        Ok(DebugPlan::ErrorLogs)
    } else if str_eq(a, "capture") {
        Ok(DebugPlan::Run { code: String::from_str(CAPTURE_CODE), label: String::from_str("capture") })
    } else if str_eq(a, "source_map") {
        let cls = match &p.class_name {
            Some(c) => replace_char(c.as_str(), '"', "\\\""),
            None => replace_char("", '"', "\\\""),
        };
        proof {
            reveal_strlit("");
        }
        let mut code = String::from_str(SOURCE_MAP_A);
        code.append(cls.as_str());
        code.append(SOURCE_MAP_C);
        Ok(DebugPlan::Run { code, label: String::from_str("source_map") })
    } else {
        let mut m = String::from_str("Unknown action='");
        m.append(a);
        m.append("'. Use: map_int, error_logs, capture, source_map");
        Err(ToolError { error_code: String::from_str("INVALID_PARAM"), error: m })
    }
}

/// The error of a debug run that could not execute: `DOCKER_REQUIRED` when
/// the executor says so, else `EXECUTION_FAILED` with its message.
pub fn debug_exec_error(label: &str, error: &str) -> (e: ToolError)
    ensures
        error@ == "DOCKER_REQUIRED"@ ==> e.error_code@ == "DOCKER_REQUIRED"@ && e.error@
            == "iris_debug "@ + label@ + " requires docker exec. Set IRIS_CONTAINER=<container_name>."@,
        error@ != "DOCKER_REQUIRED"@ ==> e.error_code@ == "EXECUTION_FAILED"@ && e.error@ == error@,
{
    if str_eq(error, "DOCKER_REQUIRED") {
        let mut m = String::from_str("iris_debug ");
        m.append(label);
        m.append(" requires docker exec. Set IRIS_CONTAINER=<container_name>.");
        ToolError { error_code: String::from_str("DOCKER_REQUIRED"), error: m }
    } else {
        tool_error("EXECUTION_FAILED", error)
    }
}

// ---------------------------------------------------------------------------
// iris_generate
// ---------------------------------------------------------------------------
/// Parameters of `iris_generate`.
pub struct GenerateParams {
    /// What to generate — natural language description
    pub description: String,
    /// Type: "class" (default) or "test"
    pub gen_type: String,
    /// Existing class name to generate tests for (gen_type=test only)
    pub class_name: Option<String>,
    pub namespace: String,
}

/// `s` with each `'` doubled (SQL quoting).
pub open spec fn sq_s(s: Seq<char>) -> Seq<char> {
    replace_char_s(s, '\'', "''"@)
}

/// The query listing a class's compiled methods.
pub open spec fn test_methods_sql_s(cls: Seq<char>) -> Seq<char> {
    "SELECT Name, FormalSpec, ReturnType, Description FROM %Dictionary.CompiledMethod WHERE parent = '"@
        + sq_s(cls) + "' ORDER BY Name"@
}

/// The query listing a class's compiled methods.
pub fn test_methods_sql(cls: &str) -> (r: String)
    ensures
        r@ == test_methods_sql_s(cls@),
{
    let mut r = String::from_str(
        "SELECT Name, FormalSpec, ReturnType, Description FROM %Dictionary.CompiledMethod WHERE parent = '",
    );
    r.append(replace_char(cls, '\'', "''").as_str());
    r.append("' ORDER BY Name");
    r
}

/// The query listing up to ten existing classes, for naming context.
pub const EXISTING_CLASSES_SQL: &'static str = "SELECT TOP 10 Name FROM %Dictionary.ClassDefinition WHERE Name NOT LIKE '%\\%%' ESCAPE '\\' ORDER BY Name";

pub const TEST_PROMPT_A: &'static str = "Write an InterSystems IRIS %UnitTest.TestCase subclass to test '";

pub const TEST_PROMPT_C: &'static str = "'. Requirements: ";

pub const TEST_PROMPT_E: &'static str = ". The class has these methods: ";

pub const TEST_PROMPT_G: &'static str = ". Rules: extend %UnitTest.TestCase, prefix test methods with 'Test', use $$$AssertEquals/$$$AssertTrue macros, include ##class(";

pub const TEST_PROMPT_I: &'static str = ").%New() in setup. Write only valid ObjectScript — no explanations, no markdown fences.";

/// The prompt for writing a test class for `cls`; `methods` is the JSON text
/// of the class's methods.
pub open spec fn test_prompt_s(cls: Seq<char>, description: Seq<char>, methods: Seq<char>) -> Seq<char> {
    TEST_PROMPT_A@ + cls + TEST_PROMPT_C@ + description + TEST_PROMPT_E@ + methods + TEST_PROMPT_G@
        + cls + TEST_PROMPT_I@
}

/// The prompt for writing a test class for `cls`.
pub fn test_prompt(cls: &str, description: &str, methods: &str) -> (r: String)
    ensures
        r@ == test_prompt_s(cls@, description@, methods@),
{
    let mut r = String::from_str(TEST_PROMPT_A);
    r.append(cls);
    r.append(TEST_PROMPT_C);
    r.append(description);
    r.append(TEST_PROMPT_E);
    r.append(methods);
    r.append(TEST_PROMPT_G);
    r.append(cls);
    r.append(TEST_PROMPT_I);
    r
}

/// The class a test class is suggested under.
pub fn suggested_test_class(cls: &str) -> (r: String)
    ensures
        r@ == cls@ + ".Test"@,
{
    let mut r = String::from_str(cls);
    r.append(".Test");
    r
}

/// The package prefix of the first existing class (its text before the
/// first `.`), or `MyApp` when there is none.
pub open spec fn package_prefix_s(existing: Seq<Seq<char>>) -> Seq<char> {
    if existing.len() == 0 {
        "MyApp"@
    } else {
        match find_char_s(existing[0], '.') {
            Some(i) => existing[0].take(i),
            None => existing[0],
        }
    }
}

/// The package prefix new classes should use.
pub fn package_prefix(existing: &[String]) -> (r: String)
    ensures
        r@ == package_prefix_s(views(existing@)),
{
    if existing.len() == 0 {
        return String::from_str("MyApp");
    }
    let v = chars_of(existing[0].as_str());
    proof {
        lemma_find_char_props(v@, '.');
        assert(views(existing@)[0] == existing@[0]@);
    }
    match find_char(&v, '.') {
        Some(i) => string_of(&v, 0, i),
        None => {
            proof {
                assert(v@.subrange(0, v@.len() as int) == v@);
            }
            string_of(&v, 0, v.len())
        },
    }
}

pub const CLASS_PROMPT_A: &'static str = "Write an InterSystems IRIS ObjectScript class. Requirements: ";

pub const CLASS_PROMPT_C: &'static str = ". Use package prefix '";

pub const CLASS_PROMPT_E: &'static str = "' to match existing classes in this namespace. Rules: valid ObjectScript syntax, extend %Persistent or %RegisteredObject as appropriate, include property definitions with types, add basic accessor methods if needed. Write only the class code — no explanations, no markdown fences.";

/// The prompt for writing a new class.
pub open spec fn class_prompt_s(description: Seq<char>, package: Seq<char>) -> Seq<char> {
    CLASS_PROMPT_A@ + description + CLASS_PROMPT_C@ + package + CLASS_PROMPT_E@
}

/// The prompt for writing a new class in `package`.
pub fn class_prompt(description: &str, package: &str) -> (r: String)
    ensures
        r@ == class_prompt_s(description@, package@),
{
    let mut r = String::from_str(CLASS_PROMPT_A);
    r.append(description);
    r.append(CLASS_PROMPT_C);
    r.append(package);
    r.append(CLASS_PROMPT_E);
    r
}

// ---------------------------------------------------------------------------
// iris_table_info
// ---------------------------------------------------------------------------
/// Parameters of `iris_table_info`.
pub struct TableInfoParams {
    /// SQL table name in Schema.Table format (e.g. "SQLUser.MyTable").
    pub table: String,
    /// IRIS namespace to query. Defaults to "USER".
    pub namespace: String,
    /// Include approximate row count (runs SELECT COUNT(*)).
    pub include_row_count: bool,
}

/// `Schema.Table` split at the first `.`; without one, the `SQLUser`
/// schema.
pub open spec fn split_table_s(t: Seq<char>) -> (Seq<char>, Seq<char>) {
    match find_char_s(t, '.') {
        Some(i) => (t.take(i), t.skip(i + 1)),
        None => ("SQLUser"@, t),
    }
}

/// Split a table name into schema and table.
pub fn split_table(t: &str) -> (r: (String, String))
    ensures
        (r.0@, r.1@) == split_table_s(t@),
{
    let v = chars_of(t);
    proof {
        lemma_find_char_props(v@, '.');
    }
    match find_char(&v, '.') {
        Some(i) => (string_of(&v, 0, i), string_of(&v, i + 1, v.len())),
        None => (String::from_str("SQLUser"), String::from_str(t)),
    }
}

pub const LOOKUP_A: &'static str = "\nset sqlSchema = \"";

pub const LOOKUP_C: &'static str = "\", sqlTable = \"";

pub const LOOKUP_E: &'static str = "\"\n// Check table exists at all via INFORMATION_SCHEMA\nset rsEx = ##class(%SQL.Statement).%ExecDirect(,\"SELECT COUNT(*) FROM INFORMATION_SCHEMA.TABLES WHERE TABLE_SCHEMA = ? AND TABLE_NAME = ?\", sqlSchema, sqlTable)\nif rsEx.%Next() && (rsEx.%GetData(1) = 0) { write \"NOT_FOUND\",! quit }\n// Look for backing class\nset rs = ##class(%SQL.Statement).%ExecDirect(,\"SELECT c.Name, c.ClassType, s.DataLocation, s.IndexLocation, s.IDLocation FROM %Dictionary.CompiledClass c LEFT JOIN %Dictionary.CompiledStorage s ON s.parent = c.Name WHERE c.SqlSchemaName = ? AND c.SqlTableName = ?\", sqlSchema, sqlTable)\nif rs.%Next() {\n    write \"CLASS:\",rs.Name,!\n    write \"CLASSTYPE:\",rs.ClassType,!\n    write \"DATA:\",rs.DataLocation,!\n    write \"INDEX:\",rs.IndexLocation,!\n    write \"ID:\",rs.IDLocation,!\n} else {\n    write \"DDL_TABLE\",!\n}\n";

/// The snippet that finds how a table is stored.
pub open spec fn table_lookup_code_s(schema: Seq<char>, table: Seq<char>) -> Seq<char> {
    LOOKUP_A@ + bq_s(schema) + LOOKUP_C@ + bq_s(table) + LOOKUP_E@
}

/// The snippet that finds how a table is stored.
pub fn table_lookup_code(schema: &str, table: &str) -> (r: String)
    ensures
        r@ == table_lookup_code_s(schema@, table@),
{
    let mut r = String::from_str(LOOKUP_A);
    r.append(replace_char(schema, '"', "\\\"").as_str());
    r.append(LOOKUP_C);
    r.append(replace_char(table, '"', "\\\"").as_str());
    r.append(LOOKUP_E);
    r
}

/// How a table is stored.
pub enum TableStorage {
    /// The table does not exist.
    NotFound,
    /// A class projects the table: its name and data and index globals
    /// (`None` when empty).
    Class { class_name: String, data_global: Option<String>, index_global: Option<String> },
    /// A table created by DDL.
    Ddl,
}

/// The value of the last line `key:value` (split at the first `:`), if any.
pub open spec fn keyed_value_s(ls: Seq<Seq<char>>, key: Seq<char>) -> Option<Seq<char>>
    decreases ls.len(),
{
    if ls.len() == 0 {
        None
    } else {
        let l = ls.last();
        match find_char_s(l, ':') {
            Some(i) => if l.take(i) == key {
                Some(l.skip(i + 1))
            } else {
                keyed_value_s(ls.drop_last(), key)
            },
            None => keyed_value_s(ls.drop_last(), key),
        }
    }
}

/// A trimmed value, or `None` when empty.
pub open spec fn nonempty_s(v: Option<Seq<char>>) -> Option<Seq<char>> {
    match v {
        Some(x) => if trim_s(x).len() > 0 {
            Some(trim_s(x))
        } else {
            None
        },
        None => None,
    }
}

fn keyed_value(ls: &Vec<String>, key: &str) -> (r: Option<String>)
    ensures
        match r {
            Some(v) => keyed_value_s(views(ls@), key@) == Some(v@),
            None => keyed_value_s(views(ls@), key@) is None,
        },
{
    let ghost lv = views(ls@);
    let mut i: usize = ls.len();
    assert(lv.take(lv.len() as int) == lv);
    while i > 0
        invariant
            lv == views(ls@),
            0 <= i <= ls@.len(),
            keyed_value_s(lv, key@) == keyed_value_s(lv.take(i as int), key@),
        decreases i,
    {
        let v = chars_of(ls[i - 1].as_str());
        proof {
            lemma_find_char_props(v@, ':');
            assert(lv.take(i as int).last() == ls@[i - 1]@);
            assert(lv.take(i as int).drop_last() == lv.take(i - 1));
        }
        match find_char(&v, ':') {
            Some(k) => {
                let head = string_of(&v, 0, k);
                proof {
                    assert(v@.take(k as int) == v@.subrange(0, k as int));
                }
                if str_eq(head.as_str(), key) {
                    assert(k < v@.len() && v@.len() == v.len());
                    return Some(string_of(&v, k + 1, v.len()));
                }
            },
            None => {},
        }
        i = i - 1;
    }
    proof {
        assert(lv.take(0) == Seq::<Seq<char>>::empty());
    }
    None
}

fn nonempty(v: Option<String>) -> (r: Option<String>)
    ensures
        opt_text(r) == nonempty_s(opt_text(v)),
{
    match v {
        Some(x) => {
            let t = trim(x.as_str());
            if t.as_str().is_empty() {
                None
            } else {
                Some(t)
            }
        },
        None => None,
    }
}

/// The text of an optional string.
pub open spec fn opt_text(o: Option<String>) -> Option<Seq<char>> {
    match o {
        Some(s) => Some(s@),
        None => None,
    }
}

/// Read the lookup's output: `NOT_FOUND` (the whole output, trimmed) means
/// no such table; a `CLASS:` line means a class projection, with the last
/// `CLASS:`, `DATA:` and `INDEX:` values (trimmed); otherwise a DDL table.
pub fn table_storage(output: &str) -> (r: TableStorage)
    ensures
        ({
            let ls = lines_s(output@);
            if trim_s(output@) == "NOT_FOUND"@ {
                r is NotFound
            } else if keyed_value_s(ls, "CLASS"@) is Some {
                r matches TableStorage::Class { class_name, data_global, index_global }
                    && class_name@ == trim_s(keyed_value_s(ls, "CLASS"@)->0) && opt_text(data_global)
                    == nonempty_s(keyed_value_s(ls, "DATA"@)) && opt_text(index_global)
                    == nonempty_s(keyed_value_s(ls, "INDEX"@))
            } else {
                r is Ddl
            }
        }),
{
    let t = trim(output);
    if str_eq(t.as_str(), "NOT_FOUND") {
        return TableStorage::NotFound;
    }
    let ls = lines(output);
    match keyed_value(&ls, "CLASS") {
        Some(c) => TableStorage::Class {
            class_name: trim(c.as_str()),
            data_global: nonempty(keyed_value(&ls, "DATA")),
            index_global: nonempty(keyed_value(&ls, "INDEX")),
        },
        None => TableStorage::Ddl,
    }
}

/// `Table '<table>' not found in namespace '<namespace>'`.
pub fn table_not_found_msg(table: &str, namespace: &str) -> (r: String)
    ensures
        r@ == "Table '"@ + table@ + "' not found in namespace '"@ + namespace@ + "'"@,
{
    let mut m = String::from_str("Table '");
    m.append(table);
    m.append("' not found in namespace '");
    m.append(namespace);
    m.append("'");
    m
}

/// The globals IRIS names for a DDL table: data, index, id counter.
pub fn ddl_globals(schema: &str, table: &str) -> (r: (String, String, String))
    ensures
        r.0@ == "^"@ + schema@ + "."@ + table@ + "D"@,
        r.1@ == "^"@ + schema@ + "."@ + table@ + "I"@,
        r.2@ == "^"@ + schema@ + "."@ + table@ + "C"@,
{
    let mut base = String::from_str("^");
    base.append(schema);
    base.append(".");
    base.append(table);
    let mut d = base.clone();
    d.append("D");
    let mut i = base.clone();
    i.append("I");
    let mut c = base;
    c.append("C");
    (d, i, c)
}

pub const COUNT_A: &'static str = "set rs = ##class(%SQL.Statement).%ExecDirect(,\"SELECT COUNT(*) FROM \"\"";

pub const COUNT_C: &'static str = "\"\".";

pub const COUNT_E: &'static str = "\")\nif rs.%Next() { write rs.%GetData(1),! } else { write \"error\",! }";

/// The snippet that counts a table's rows.
pub open spec fn row_count_code_s(schema: Seq<char>, table: Seq<char>) -> Seq<char> {
    COUNT_A@ + bq_s(schema) + COUNT_C@ + bq_s(table) + COUNT_E@
}

/// The snippet that counts a table's rows.
pub fn row_count_code(schema: &str, table: &str) -> (r: String)
    ensures
        r@ == row_count_code_s(schema@, table@),
{
    let mut r = String::from_str(COUNT_A);
    r.append(replace_char(schema, '"', "\\\"").as_str());
    r.append(COUNT_C);
    r.append(replace_char(table, '"', "\\\"").as_str());
    r.append(COUNT_E);
    r
}

/// Read the row count's output: its trimmed text as a `u64`, or nothing
/// (null) when it does not parse or could not run.
pub fn row_count(output: Result<String, String>) -> (r: Option<u64>)
    ensures
        match output {
            Err(_) => r is None,
            Ok(o) => match parse_unsigned_s(trim_s(o@), u64::MAX as nat) {
                Some(n) => r == Some(n as u64),
                None => r is None,
            },
        },
{
    match output {
        Err(_) => None,
        Ok(o) => parse_unsigned(trim(o.as_str()).as_str(), u64::MAX),
    }
}

} // verus!
