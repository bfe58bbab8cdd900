//! iris_doc — document reads, writes and line-level edits: the checks each
//! mode makes and the text it computes around the Atelier REST calls.
use vstd::prelude::*;
use crate::deps::{
    status_reason, http_canonical_reason, opt_view, to_uppercase, unicode_upper, url_encode,
    url_encoded, debug_str, rust_debug_str, is_hyphenated_uuid, regex_error,
    regex_compile_error, regex_is_match, regex_is_match_result,
};
use crate::elicitation::{ElicitationStore, ElicitationAction, PendingElicitation, lookup_s};
use crate::tools::scm::{parse_action_msg, action_code_s, action_msg_s, after_user_action_code, after_user_action_code_s, first_line_s};
use crate::text::{
    chars_of, trim, trim_s, trim_end, trim_end_s, to_ascii_lowercase, lower_s, str_eq, lines, lines_s,
    views, digits_s, u64_to_string, has_suffix, ends_with, string_of, rfind_char, rfind_char_s,
    lemma_rfind_char_props, push_char, is_ws, is_whitespace, lines_state, strip_cr, join, join_s,
    to_owned, i64_to_string, decimal_s, trim_start, trim_start_s, has_prefix, starts_with,
    replace_char, replace_char_s, contains, contains_s, lemma_lines_len_bound, parse_i64,
    no_newline, no_newlines, lemma_lines_no_newline, lemma_lines_of_joined_lines, lemma_lines_of_join,
    lemma_trim_end_strip_cr, lemma_trim_strip_cr, lemma_lead_ws_bound,
    parse_i64_s,
};
use super::{ToolError, tool_error};

verus! {

/// The operation an `iris_doc` call asks for.
#[derive(PartialEq, Eq, Structural)]
pub enum DocMode {
    Get,
    Put,
    Delete,
    Head,
    Fragment,
    Compiled,
    List,
    Insert,
    DeleteLines,
}

/// The mode named by `s` (already trimmed and lower-cased).
pub open spec fn doc_mode_of(s: Seq<char>) -> Option<DocMode> {
    if s == "get"@ {
        Some(DocMode::Get)
    } else if s == "put"@ {
        Some(DocMode::Put)
    } else if s == "delete"@ {
        Some(DocMode::Delete)
    } else if s == "head"@ {
        Some(DocMode::Head)
    } else if s == "fragment"@ {
        Some(DocMode::Fragment)
    } else if s == "compiled"@ {
        Some(DocMode::Compiled)
    } else if s == "list"@ {
        Some(DocMode::List)
    } else if s == "insert"@ {
        Some(DocMode::Insert)
    } else if s == "delete_lines"@ {
        Some(DocMode::DeleteLines)
    } else {
        None
    }
}

impl DocMode {
    /// Parse the string `mode` argument: trimmed, ASCII case-insensitive.
    /// Returns None for an unknown mode.
    pub fn parse(s: &str) -> (r: Option<DocMode>)
        ensures
            r == doc_mode_of(lower_s(trim_s(s@))),
    {
        let t = trim(s);
        let l = to_ascii_lowercase(t.as_str());
        let m = l.as_str();
        if str_eq(m, "get") {
            Some(DocMode::Get)
        } else if str_eq(m, "put") {
            Some(DocMode::Put)
        } else if str_eq(m, "delete") {
            Some(DocMode::Delete)
        } else if str_eq(m, "head") {
            Some(DocMode::Head)
        } else if str_eq(m, "fragment") {
            Some(DocMode::Fragment)
        } else if str_eq(m, "compiled") {
            Some(DocMode::Compiled)
        } else if str_eq(m, "list") {
            Some(DocMode::List)
        } else if str_eq(m, "insert") {
            Some(DocMode::Insert)
        } else if str_eq(m, "delete_lines") {
            Some(DocMode::DeleteLines)
        } else {
            None
        }
    }
}

/// The namespace used when a call names none.
pub fn default_namespace() -> (r: String)
    ensures
        r@ == "USER"@,
{
    String::from_str("USER")
}

/// The mode used when a call names none.
pub fn default_mode() -> (r: String)
    ensures
        r@ == "get"@,
{
    String::from_str("get")
}

// ---------------------------------------------------------------------------
// Small checks
// ---------------------------------------------------------------------------
/// Clamp max_results to [1, 1000].
pub fn clamp_max_results(v: i64) -> (r: i64)
    ensures
        r == (if v < 1 {
            1
        } else if v > 1000 {
            1000
        } else {
            v
        }),
{
    if v < 1 {
        1
    } else if v > 1000 {
        1000
    } else {
        v
    }
}

/// A numeric argument sent as a string: blank text is no value; otherwise
/// the trimmed text must parse as an `i64`, and when it does not the error
/// quotes the text as sent.
pub open spec fn lenient_i64_s(s: Seq<char>) -> Result<Option<int>, Seq<char>> {
    let t = trim_s(s);
    if t.len() == 0 {
        Ok(None)
    } else {
        match parse_i64_s(t) {
            Some(n) => Ok(Some(n)),
            None => Err("expected an integer, got string "@ + rust_debug_str(s)),
        }
    }
}

/// Read a numeric argument that was sent as a string (see `lenient_i64_s`).
pub fn lenient_i64(s: &str) -> (r: Result<Option<i64>, String>)
    ensures
        lenient_i64_s(s@) == match r {
            Ok(Some(n)) => Ok(Some(n as int)),
            Ok(None) => Ok(None),
            Err(e) => Err(e@),
        },
{
    let t = trim(s);
    if t.as_str().is_empty() {
        return Ok(None);
    }
    match parse_i64(t.as_str()) {
        Some(n) => Ok(Some(n)),
        None => {
            let mut e = String::from_str("expected an integer, got string ");
            e.append(debug_str(s).as_str());
            Err(e)
        },
    }
}

/// A list pattern needs a non-wildcard prefix: the empty pattern and every
/// pattern starting with `*` (among them `*` and `**`) are refused.
pub open spec fn list_pattern_ok(p: Seq<char>) -> bool {
    p.len() > 0 && p[0] != '*'
}

/// Validate a glob pattern for mode=list.
pub fn validate_list_pattern(pattern: &str) -> (r: Result<(), ToolError>)
    ensures
        r is Ok <==> list_pattern_ok(pattern@),
        r matches Err(e) ==> e.error_code@ == "MISSING_PARAMS"@ && e.error@
            == "pattern must have a non-wildcard prefix (e.g. 'User.*', 'MyApp.*.cls')"@,
{
    let v = chars_of(pattern);
    if v.len() == 0 || v[0] == '*' {
        return Err(
            tool_error(
                "MISSING_PARAMS",
                "pattern must have a non-wildcard prefix (e.g. 'User.*', 'MyApp.*.cls')",
            ),
        );
    }
    Ok(())
}

/// The trimmed document name, or a `MISSING_PARAMS` error naming the mode
/// when the name is absent or blank.
pub fn require_name(name: Option<&str>, mode: &str) -> (r: Result<String, ToolError>)
    ensures
        r matches Ok(n) ==> name matches Some(s) && n@ == trim_s(s@) && n@.len() > 0,
        r is Err <==> (name is None || trim_s(name->0@).len() == 0),
        r matches Err(e) ==> e.error_code@ == "MISSING_PARAMS"@ && e.error@
            == "name (document) is required for mode="@ + mode@
            + " and was empty — no request was sent. If a previous call lost its arguments, resend with `name` set."@,
{
    if let Some(n) = name {
        let t = trim(n);
        if t.as_str().unicode_len() > 0 {
            return Ok(t);
        }
    }
    let mut msg = String::from_str("name (document) is required for mode=");
    msg.append(mode);
    msg.append(
        " and was empty — no request was sent. If a previous call lost its arguments, resend with `name` set.",
    );
    Err(ToolError { error_code: String::from_str("MISSING_PARAMS"), error: msg })
}

// ---------------------------------------------------------------------------
// HTTP failures
// ---------------------------------------------------------------------------
/// Error code for a non-2xx HTTP status.
pub open spec fn http_error_code_s(status: u16) -> Seq<char> {
    if status == 400 {
        "BAD_REQUEST"@
    } else if status == 401 || status == 403 {
        "AUTH_ERROR"@
    } else if status == 409 {
        "CONFLICT"@
    } else if status == 423 {
        "LOCKED"@
    } else if status == 404 {
        "NOT_FOUND"@
    } else if status >= 500 {
        "SERVER_ERROR"@
    } else {
        "HTTP_ERROR"@
    }
}

/// How an HTTP status prints: its number and reason phrase.
pub open spec fn status_text_s(status: u16) -> Seq<char> {
    digits_s(status as nat) + " "@ + match http_canonical_reason(status) {
        Some(r) => r,
        None => "<unknown status code>"@,
    }
}

/// Message for a non-2xx HTTP status: `HTTP <status>`, followed by
/// `: <hint>` when the response body gave one.
pub open spec fn http_error_message_s(status: u16, hint: Seq<char>) -> Seq<char> {
    if hint.len() == 0 {
        "HTTP "@ + status_text_s(status)
    } else {
        "HTTP "@ + status_text_s(status) + ": "@ + hint
    }
}

/// `<number> <reason>`, as an HTTP status prints.
pub fn status_text(status: u16) -> (r: String)
    requires
        100 <= status <= 999,
    ensures
        r@ == status_text_s(status),
{
    let mut r = u64_to_string(status as u64);
    r.append(" ");
    match status_reason(status) {
        Some(reason) => r.append(reason.as_str()),
        None => r.append("<unknown status code>"),
    }
    r
}

/// Map a non-2xx HTTP status to an accurate error code.
/// `IRIS_UNREACHABLE` is reserved for transport errors.
pub fn http_err_json(status: u16, body_hint: &str) -> (r: ToolError)
    requires
        100 <= status <= 999,
    ensures
        r.error_code@ == http_error_code_s(status),
        r.error@ == http_error_message_s(status, body_hint@),
{
    let code = if status == 400 {
        "BAD_REQUEST"
    } else if status == 401 || status == 403 {
        "AUTH_ERROR"
    } else if status == 409 {
        "CONFLICT"
    } else if status == 423 {
        "LOCKED"
    } else if status == 404 {
        "NOT_FOUND"
    } else if status >= 500 {
        "SERVER_ERROR"
    } else {
        "HTTP_ERROR"
    };
    let mut msg = String::from_str("HTTP ");
    let st = status_text(status);
    msg.append(st.as_str());
    if body_hint.unicode_len() > 0 {
        msg.append(": ");
        msg.append(body_hint);
    }
    ToolError { error_code: String::from_str(code), error: msg }
}

// ---------------------------------------------------------------------------
// Line ranges
// ---------------------------------------------------------------------------
/// A copy of `lines[from..to]`.
pub fn clone_range(lines: &[String], from: usize, to: usize) -> (r: Vec<String>)
    requires
        from <= to <= lines@.len(),
    ensures
        r@ == lines@.subrange(from as int, to as int),
{
    let mut r: Vec<String> = Vec::new();
    let mut i = from;
    while i < to
        invariant
            from <= i <= to <= lines@.len(),
            r@ == lines@.subrange(from as int, i as int),
        decreases to - i,
    {
        r.push(lines[i].clone());
        assert(r@ =~= lines@.subrange(from as int, i + 1));
        i = i + 1;
    }
    r
}

/// `max(a, b)`.
pub open spec fn max_s(a: int, b: int) -> int {
    if a >= b {
        a
    } else {
        b
    }
}

/// `min(a, b)`.
pub open spec fn min_s(a: int, b: int) -> int {
    if a <= b {
        a
    } else {
        b
    }
}

/// The 1-based inclusive range `start..=end` of `lines`, with the start
/// raised to 1 and the end lowered to the last line; the flag tells whether
/// the end was lowered. An empty document or a start past the end gives no
/// lines and the flag set.
pub open spec fn slice_lines_s(lines: Seq<String>, start: int, end: int) -> (Seq<String>, int, int, bool) {
    let len = lines.len() as int;
    if len == 0 || start > len {
        (Seq::empty(), start, start, true)
    } else {
        let s = max_s(start, 1);
        let e = min_s(end, len);
        (lines.subrange(s - 1, e), s, e, e < end)
    }
}

/// Slice a line array by 1-based start/end range.
/// Returns (sliced_lines, actual_start, actual_end, was_clamped).
/// The range must not end before its (raised) start minus one.
pub fn slice_lines(lines: &[String], start: i64, end: i64) -> (r: (Vec<String>, i64, i64, bool))
    requires
        lines@.len() <= i64::MAX,
        lines@.len() == 0 || start > lines@.len() || max_s(start as int, 1) <= end + 1,
    ensures
        (r.0@, r.1 as int, r.2 as int, r.3) == slice_lines_s(lines@, start as int, end as int),
{
    let len = lines.len() as i64;
    if len == 0 || start > len {
        return (Vec::new(), start, start, true);
    }
    let actual_start = if start < 1 {
        1
    } else {
        start
    };
    let actual_end = if end < len {
        end
    } else {
        len
    };
    let clamped = actual_end < end;
    let s = (actual_start - 1) as usize;
    let e = actual_end as usize;
    (clone_range(lines, s, e), actual_start, actual_end, clamped)
}

/// `lines` with `block` spliced in before 1-based line `at`, which is first
/// clamped to `[1, len + 1]`; also the clamped position.
pub open spec fn apply_insert_s(lines: Seq<String>, at: int, block: Seq<String>) -> (Seq<String>, int) {
    let len = lines.len() as int;
    let a = if at < 1 {
        1
    } else if at > len + 1 {
        len + 1
    } else {
        at
    };
    (lines.take(a - 1) + block + lines.skip(a - 1), a)
}

/// Splice `block` into `lines` before 1-based `at` (content-insert
/// semantics); `at = len + 1` (or beyond) appends.
pub fn apply_insert(lines: &[String], at: i64, block: &[String]) -> (r: (Vec<String>, i64))
    requires
        lines@.len() < i64::MAX,
    ensures
        (r.0@, r.1 as int) == apply_insert_s(lines@, at as int, block@),
{
    let len = lines.len() as i64;
    let actual_at = if at < 1 {
        1
    } else if at > len + 1 {
        len + 1
    } else {
        at
    };
    let idx = (actual_at - 1) as usize;
    let mut out = clone_range(lines, 0, idx);
    let mid = clone_range(block, 0, block.len());
    let tail = clone_range(lines, idx, lines.len());
    let mut mid = mid;
    let mut tail = tail;
    out.append(&mut mid);
    out.append(&mut tail);
    assert(block@.subrange(0, block@.len() as int) == block@);
    (out, actual_at)
}

/// `lines` without the 1-based inclusive range `start..=end`, clamped as in
/// `slice_lines_s`; also the removed count and the clamped bounds. A start
/// past the end, or a range that clamps to nothing, removes nothing.
pub open spec fn apply_delete_lines_s(lines: Seq<String>, start: int, end: int) -> (Seq<String>, int, int, int) {
    let len = lines.len() as int;
    if len == 0 || start > len {
        (lines, 0, max_s(start, 1), max_s(start, 1))
    } else {
        let s = max_s(start, 1);
        let e = min_s(end, len);
        if e < s {
            (lines, 0, s, e)
        } else {
            (lines.take(s - 1) + lines.skip(e), e - s + 1, s, e)
        }
    }
}

/// Remove the 1-based inclusive line range [start, end] from `lines`.
/// Returns (new_lines, removed_count, actual_start, actual_end).
pub fn apply_delete_lines(lines: &[String], start: i64, end: i64) -> (r: (Vec<String>, i64, i64, i64))
    requires
        lines@.len() <= i64::MAX,
    ensures
        (r.0@, r.1 as int, r.2 as int, r.3 as int) == apply_delete_lines_s(
            lines@,
            start as int,
            end as int,
        ),
{
    let len = lines.len() as i64;
    let s1 = if start < 1 {
        1
    } else {
        start
    };
    if len == 0 || start > len {
        return (clone_range(lines, 0, lines.len()), 0, s1, s1);
    }
    let actual_end = if end < len {
        end
    } else {
        len
    };
    if actual_end < s1 {
        return (clone_range(lines, 0, lines.len()), 0, s1, actual_end);
    }
    let s = (s1 - 1) as usize;
    let e = actual_end as usize;
    let mut out = clone_range(lines, 0, s);
    let mut tail = clone_range(lines, e, lines.len());
    out.append(&mut tail);
    let removed = actual_end - s1 + 1;
    proof {
        assert(lines@.subrange(0, lines@.len() as int) == lines@);
    }
    (out, removed, s1, actual_end)
}

/// Reading back an insert: after a non-empty `block` is inserted, the lines
/// from the position the insert reports, as many as the block holds, are the
/// block.
pub proof fn lemma_insert_reads_back(lines: Seq<String>, at: int, block: Seq<String>)
    requires
        block.len() > 0,
    ensures
        ({
            let (ins, a) = apply_insert_s(lines, at, block);
            slice_lines_s(ins, a, a + block.len() - 1) == (block, a, a + block.len() - 1, false)
        }),
{
    let (ins, a) = apply_insert_s(lines, at, block);
    assert(ins.subrange(a - 1, a + block.len() - 1) =~= block);
}

/// Inserting undoes deleting: after the lines `start..=end` (1-based, within
/// the document) are deleted, inserting those same lines back at `start`
/// gives back the document as it was, reported at `start`.
pub proof fn lemma_insert_undoes_delete(lines: Seq<String>, start: int, end: int)
    requires
        1 <= start <= end <= lines.len(),
    ensures
        apply_insert_s(
            apply_delete_lines_s(lines, start, end).0,
            start,
            lines.subrange(start - 1, end),
        ) == (lines, start),
{
    let rest = apply_delete_lines_s(lines, start, end).0;
    assert(rest == lines.take(start - 1) + lines.skip(end));
    assert(rest.take(start - 1) + lines.subrange(start - 1, end) + rest.skip(start - 1) =~= lines);
}

/// Deleting undoes inserting: after a non-empty `block` is inserted, deleting
/// the lines it now occupies removes exactly the block and gives back the
/// document as it was.
pub proof fn lemma_delete_undoes_insert(lines: Seq<String>, at: int, block: Seq<String>)
    requires
        block.len() > 0,
    ensures
        ({
            let (ins, a) = apply_insert_s(lines, at, block);
            let (out, removed, s, e) = apply_delete_lines_s(ins, a, a + block.len() - 1);
            &&& out == lines
            &&& removed == block.len()
            &&& s == a
            &&& e == a + block.len() - 1
        }),
{
    let (ins, a) = apply_insert_s(lines, at, block);
    assert(ins.take(a - 1) + ins.skip(a + block.len() - 1) =~= lines);
}

// ---------------------------------------------------------------------------
// Stale-edit guard
// ---------------------------------------------------------------------------
/// The `i`-th line with trailing whitespace trimmed, or empty past the end.
pub open spec fn line_or_empty(s: Seq<Seq<char>>, i: int) -> Seq<char> {
    if 0 <= i < s.len() {
        trim_end_s(s[i])
    } else {
        Seq::empty()
    }
}

/// How many lines of `expected` are compared: one trailing empty line is
/// ignored.
pub open spec fn expected_len_s(exp: Seq<Seq<char>>) -> int {
    if exp.len() > 0 && exp.last().len() == 0 {
        exp.len() - 1
    } else {
        exp.len() as int
    }
}

/// Compare `expected` (multi-line) against `actual` lines, ignoring trailing
/// whitespace on each line and a single trailing blank line of `expected`.
/// Returns None if they match, or Some((line_offset, expected_line,
/// actual_line)) for the first divergence — a 0-based offset into the block.
pub fn diff_expected(expected: &str, actual: &[String]) -> (r: Option<(usize, String, String)>)
    ensures
        ({
            let exp = lines_s(expected@);
            let act = views(actual@);
            let n = max_s(expected_len_s(exp), act.len() as int);
            match r {
                None => forall|i: int| 0 <= i < n ==> line_or_empty(exp, i) == line_or_empty(act, i),
                Some((off, e, a)) => off < n && e@ == line_or_empty(exp, off as int) && a@
                    == line_or_empty(act, off as int) && e@ != a@ && forall|i: int|
                    0 <= i < off ==> line_or_empty(exp, i) == line_or_empty(act, i),
            }
        }),
{
    let exp = lines(expected);
    let exp_len = if exp.len() > 0 && exp[exp.len() - 1].as_str().unicode_len() == 0 {
        exp.len() - 1
    } else {
        exp.len()
    };
    let n = if exp_len >= actual.len() {
        exp_len
    } else {
        actual.len()
    };
    let ghost ev = lines_s(expected@);
    let ghost av = views(actual@);
    let mut i: usize = 0;
    while i < n
        invariant
            views(exp@) == ev,
            ev == lines_s(expected@),
            av == views(actual@),
            n == max_s(expected_len_s(ev), av.len() as int),
            0 <= i <= n,
            forall|j: int| 0 <= j < i ==> line_or_empty(ev, j) == line_or_empty(av, j),
        decreases n - i,
    {
        let e = if i < exp.len() {
            trim_end(exp[i].as_str())
        } else {
            String::new()
        };
        let a = if i < actual.len() {
            trim_end(actual[i].as_str())
        } else {
            String::new()
        };
        assert(e@ == line_or_empty(ev, i as int));
        assert(a@ == line_or_empty(av, i as int));
        if !str_eq(e.as_str(), a.as_str()) {
            return Some((i, e, a));
        }
        i = i + 1;
    }
    None
}

// ---------------------------------------------------------------------------
// Compiled form: routine names
// ---------------------------------------------------------------------------
/// The IRIS routine name of a document: `.cls` → strip the extension and
/// append `.1`; `.mac`, `.int` → strip it; `.inc` → none (no INT form); any
/// other extension is stripped; a name without a dot stays as it is.
/// Extensions compare ASCII case-insensitively.
pub open spec fn derive_routine_name_s(name: Seq<char>) -> Option<Seq<char>> {
    let l = lower_s(name);
    if has_suffix(l, ".inc"@) {
        None
    } else if has_suffix(l, ".cls"@) {
        Some(name.take(name.len() - 4) + ".1"@)
    } else if has_suffix(l, ".mac"@) || has_suffix(l, ".int"@) {
        Some(name.take(name.len() - 4))
    } else {
        match rfind_char_s(name, '.') {
            Some(d) => Some(name.take(d)),
            None => Some(name),
        }
    }
}

/// Derive the IRIS routine name from a document name.
pub fn derive_routine_name(name: &str) -> (r: Option<String>)
    ensures
        opt_view(r) == derive_routine_name_s(name@),
{
    let lower = to_ascii_lowercase(name);
    let v = chars_of(name);
    proof {
        reveal_strlit(".inc");
        reveal_strlit(".cls");
        reveal_strlit(".mac");
        reveal_strlit(".int");
        assert(lower@.len() == v@.len());
    }
    if ends_with(lower.as_str(), ".inc") {
        return None;
    }
    if ends_with(lower.as_str(), ".cls") {
        let mut base = string_of(&v, 0, v.len() - 4);
        base.append(".1");
        return Some(base);
    }
    if ends_with(lower.as_str(), ".mac") || ends_with(lower.as_str(), ".int") {
        return Some(string_of(&v, 0, v.len() - 4));
    }
    match rfind_char(&v, '.') {
        Some(dot) => {
            proof {
                lemma_rfind_char_props(v@, '.');
            }
            Some(string_of(&v, 0, dot))
        },
        None => Some(string_of(&v, 0, v.len())),
    }
}

// ---------------------------------------------------------------------------
// mode=list: glob to regex
// ---------------------------------------------------------------------------
/// The regex text for one glob character: `*` → `.*`, `?` → `.`, `.` → `\.`.
pub open spec fn glob_char_re(c: char) -> Seq<char> {
    if c == '*' {
        ".*"@
    } else if c == '?' {
        "."@
    } else if c == '.' {
        "\\."@
    } else {
        seq![c]
    }
}

/// The regex text for a whole glob, character by character.
pub open spec fn glob_body_s(p: Seq<char>) -> Seq<char>
    decreases p.len(),
{
    if p.len() == 0 {
        Seq::empty()
    } else {
        glob_body_s(p.drop_last()) + glob_char_re(p.last())
    }
}

/// Case-insensitive, anchored regex text for a glob pattern.
pub open spec fn glob_to_regex_s(p: Seq<char>) -> Seq<char> {
    "(?i)^"@ + glob_body_s(p) + "$"@
}

/// Convert a glob pattern to a regex string: `*` → `.*`, `?` → `.`, dots
/// escaped; case-insensitive and anchored at both ends.
pub fn glob_to_regex(pattern: &str) -> (r: String)
    ensures
        r@ == glob_to_regex_s(pattern@),
{
    let v = chars_of(pattern);
    let mut r = String::from_str("(?i)^");
    let mut i: usize = 0;
    while i < v.len()
        invariant
            v@ == pattern@,
            0 <= i <= v@.len(),
            r@ == "(?i)^"@ + glob_body_s(v@.take(i as int)),
        decreases v.len() - i,
    {
        let c = v[i];
        if c == '*' {
            r.append(".*");
        } else if c == '?' {
            r.append(".");
        } else if c == '.' {
            r.append("\\.");
        } else {
            push_char(&mut r, c);
        }
        assert(v@.take(i + 1).drop_last() == v@.take(i as int));
        i = i + 1;
    }
    assert(v@.take(v@.len() as int) == v@);
    r.append("$");
    r
}

// ---------------------------------------------------------------------------
// Storage blocks
// ---------------------------------------------------------------------------
/// Occurrences of `c` in `s`.
pub open spec fn count_char_s(s: Seq<char>, c: char) -> nat
    decreases s.len(),
{
    if s.len() == 0 {
        0
    } else {
        count_char_s(s.drop_last(), c) + if s.last() == c {
            1nat
        } else {
            0nat
        }
    }
}

/// A line opens a storage block when its first whitespace-separated word is
/// `Storage` and a second word follows: the trimmed line starts with
/// `Storage` followed by whitespace.
pub open spec fn storage_start_s(line: Seq<char>) -> bool {
    let t = trim_s(line);
    t.len() > 7 && t.take(7) == "Storage"@ && is_ws(t[7])
}

/// A line holding nothing but whitespace.
pub open spec fn blank_s(line: Seq<char>) -> bool {
    trim_s(line).len() == 0
}

/// The scan's state: the kept lines; where the scan is (0: outside a block,
/// 1: inside a block's braces, 2: after a `Storage` line that opened no
/// brace, waiting for the block's `{`); the brace depth inside a block; and
/// whether a block was found.
pub type StorageScan = (Seq<Seq<char>>, int, int, bool);

/// A line met outside a block: a `Storage` line starts a block (and is
/// dropped). When it opens no brace, the block's `{` is awaited on the next
/// lines; otherwise the block runs until the brace depth counted from this
/// line comes back to zero. Any other line is kept.
pub open spec fn outside_step(st: StorageScan, line: Seq<char>) -> StorageScan {
    let delta = count_char_s(line, '{') - count_char_s(line, '}');
    if storage_start_s(line) {
        if count_char_s(line, '{') == 0 {
            (st.0, 2, 0, true)
        } else if delta <= 0 {
            (st.0, 0, 0, true)
        } else {
            (st.0, 1, delta, true)
        }
    } else {
        (st.0.push(line), 0, 0, st.3)
    }
}

/// One line of the scan. Waiting for a block's `{`, blank lines are dropped
/// and a line starting with `{` opens the block (dropped with it); any other
/// line means the block had no braces, and it is read as outside a block.
/// Inside a block, lines are dropped until the depth comes back to zero, the
/// closing line included.
pub open spec fn storage_step(st: StorageScan, line: Seq<char>) -> StorageScan {
    let delta = count_char_s(line, '{') - count_char_s(line, '}');
    if st.1 == 0 {
        outside_step(st, line)
    } else if st.1 == 2 {
        if blank_s(line) {
            st
        } else if trim_s(line)[0] == '{' {
            if delta <= 0 {
                (st.0, 0, 0, st.3)
            } else {
                (st.0, 1, delta, st.3)
            }
        } else {
            outside_step((st.0, 0, 0, st.3), line)
        }
    } else {
        let d = st.2 + delta;
        if d <= 0 {
            (st.0, 0, 0, st.3)
        } else {
            (st.0, 1, d, st.3)
        }
    }
}

/// The scan over all lines.
pub open spec fn storage_scan(ls: Seq<Seq<char>>) -> StorageScan
    decreases ls.len(),
{
    if ls.len() == 0 {
        (Seq::empty(), 0, 0, false)
    } else {
        storage_step(storage_scan(ls.drop_last()), ls.last())
    }
}

/// Kept lines without their trailing blank (whitespace-only) lines.
pub open spec fn drop_blank_tail(ls: Seq<Seq<char>>) -> Seq<Seq<char>>
    decreases ls.len(),
{
    if ls.len() > 0 && trim_s(ls.last()).len() == 0 {
        drop_blank_tail(ls.drop_last())
    } else {
        ls
    }
}

/// `content` without its `Storage Name { ... }` blocks, and whether there was
/// one. A block runs from its `Storage` line through its brace-delimited body,
/// whose `{` may open on the `Storage` line or on a later line, until the
/// brace depth comes back to zero; the closing line goes too. When a block
/// was found, blank lines left at the end are dropped and the lines are
/// joined with `\n` plus a final `\n`; otherwise the content is unchanged.
pub open spec fn strip_storage_s(content: Seq<char>) -> (Seq<char>, bool) {
    let st = storage_scan(lines_s(content));
    if st.3 {
        (join_s(drop_blank_tail(st.0), "\n"@) + "\n"@, true)
    } else {
        (content, false)
    }
}

/// Every kept line is a whole line (it holds no `'\n'`) and does not open a
/// storage block.
pub open spec fn kept_ok(k: Seq<Seq<char>>) -> bool {
    forall|i: int| 0 <= i < k.len() ==> no_newline(#[trigger] k[i]) && !storage_start_s(k[i])
}

proof fn lemma_push_kept_ok(k: Seq<Seq<char>>, l: Seq<char>)
    requires
        kept_ok(k),
        no_newline(l),
        !storage_start_s(l),
    ensures
        kept_ok(k.push(l)),
{
    assert forall|i: int| 0 <= i < k.push(l).len() implies no_newline(#[trigger] k.push(l)[i])
        && !storage_start_s(k.push(l)[i]) by {
        if i < k.len() {
            assert(k.push(l)[i] == k[i]);
        }
    }
}

proof fn lemma_scan_kept_ok(ls: Seq<Seq<char>>)
    requires
        no_newlines(ls),
    ensures
        kept_ok(storage_scan(ls).0),
    decreases ls.len(),
{
    if ls.len() > 0 {
        let prev = ls.drop_last();
        assert(no_newlines(prev)) by {
            assert forall|i: int| 0 <= i < prev.len() implies no_newline(#[trigger] prev[i]) by {
                assert(prev[i] == ls[i]);
            }
        }
        lemma_scan_kept_ok(prev);
        assert(no_newline(ls.last()));
        let st = storage_scan(prev);
        if !storage_start_s(ls.last()) {
            lemma_push_kept_ok(st.0, ls.last());
        }
    }
}

proof fn lemma_drop_blank_tail_ok(k: Seq<Seq<char>>)
    requires
        kept_ok(k),
    ensures
        kept_ok(drop_blank_tail(k)),
    decreases k.len(),
{
    if k.len() > 0 && trim_s(k.last()).len() == 0 {
        assert(kept_ok(k.drop_last())) by {
            assert forall|i: int| 0 <= i < k.drop_last().len() implies no_newline(
                #[trigger] k.drop_last()[i],
            ) && !storage_start_s(k.drop_last()[i]) by {
                assert(k.drop_last()[i] == k[i]);
            }
        }
        lemma_drop_blank_tail_ok(k.drop_last());
    }
}

proof fn lemma_scan_without_storage(ls: Seq<Seq<char>>)
    requires
        forall|i: int| 0 <= i < ls.len() ==> !storage_start_s(#[trigger] ls[i]),
    ensures
        storage_scan(ls).1 == 0,
        !storage_scan(ls).3,
    decreases ls.len(),
{
    if ls.len() > 0 {
        let prev = ls.drop_last();
        assert forall|i: int| 0 <= i < prev.len() implies !storage_start_s(#[trigger] prev[i]) by {
            assert(prev[i] == ls[i]);
        }
        lemma_scan_without_storage(prev);
        assert(!storage_start_s(ls.last()));
    }
}

/// Stripping twice strips nothing more: what `strip_storage_blocks` leaves
/// holds no storage block, so stripping it again gives it back unchanged and
/// reports no block.
pub proof fn lemma_strip_storage_idempotent(content: Seq<char>)
    ensures
        strip_storage_s(strip_storage_s(content).0) == (strip_storage_s(content).0, false),
{
    let st = storage_scan(lines_s(content));
    if st.3 {
        lemma_lines_no_newline(content);
        lemma_scan_kept_ok(lines_s(content));
        let d = drop_blank_tail(st.0);
        lemma_drop_blank_tail_ok(st.0);
        assert(no_newlines(d)) by {
            assert forall|i: int| 0 <= i < d.len() implies no_newline(#[trigger] d[i]) by {
                assert(no_newline(d[i]) && !storage_start_s(d[i]));
            }
        }
        lemma_lines_of_joined_lines(d);
        let out = join_s(d, "\n"@) + "\n"@;
        let ls = lines_s(out);
        assert forall|i: int| 0 <= i < ls.len() implies !storage_start_s(#[trigger] ls[i]) by {
            if d.len() == 0 {
                assert(ls[i] == Seq::<char>::empty());
                assert(trim_s(Seq::<char>::empty()).len() == 0) by {
                    lemma_lead_ws_bound(Seq::<char>::empty());
                }
            } else {
                assert(ls[i] == strip_cr(d[i]));
                assert(!storage_start_s(d[i]));
                lemma_trim_strip_cr(d[i]);
            }
        }
        lemma_scan_without_storage(ls);
    }
}

/// A block compared with its own text shows no difference: when `actual`'s
/// lines hold no `'\n'`, the lines of their `'\n'`-join (with or without a
/// final `'\n'`) match them one for one, trailing whitespace aside, so
/// `diff_expected` finds no divergence.
pub proof fn lemma_diff_own_text(actual: Seq<String>)
    requires
        no_newlines(views(actual)),
    ensures
        forall|i: int|
            line_or_empty(lines_s(join_s(views(actual), "\n"@)), i) == line_or_empty(
                views(actual),
                i,
            ),
        forall|i: int|
            line_or_empty(lines_s(join_s(views(actual), "\n"@) + "\n"@), i) == line_or_empty(
                views(actual),
                i,
            ),
{
    let a = views(actual);
    lemma_lines_of_joined_lines(a);
    assert(trim_end_s(Seq::<char>::empty()) =~= Seq::<char>::empty());
    if a.len() == 0 {
        assert(lines_s(join_s(a, "\n"@)) =~= Seq::<Seq<char>>::empty());
    } else {
        lemma_lines_of_join(a);
        assert forall|i: int| 0 <= i < a.len() implies trim_end_s(strip_cr(a[i])) == trim_end_s(
            a[i],
        ) by {
            lemma_trim_end_strip_cr(a[i]);
        }
        assert forall|i: int|
            line_or_empty(lines_s(join_s(a, "\n"@)), i) == line_or_empty(a, i) by {
            if 0 <= i < a.len() - 1 {
                lemma_trim_end_strip_cr(a[i]);
            }
        }
    }
}

/// Total length of a sequence of lines.
pub open spec fn total_len(ls: Seq<Seq<char>>) -> nat
    decreases ls.len(),
{
    if ls.len() == 0 {
        0
    } else {
        total_len(ls.drop_last()) + ls.last().len()
    }
}

proof fn lemma_lines_state_total(s: Seq<char>)
    ensures
        total_len(lines_state(s).0) + lines_state(s).1.len() <= s.len(),
    decreases s.len(),
{
    if s.len() > 0 {
        lemma_lines_state_total(s.drop_last());
        let st = lines_state(s.drop_last());
        if s.last() == '\n' {
            assert(st.0.push(strip_cr(st.1)).drop_last() == st.0);
        }
    }
}

proof fn lemma_lines_total(s: Seq<char>)
    ensures
        total_len(lines_s(s)) <= s.len(),
{
    lemma_lines_state_total(s);
    let st = lines_state(s);
    if st.1.len() > 0 {
        assert(st.0.push(st.1).drop_last() == st.0);
    }
}

proof fn lemma_total_take(ls: Seq<Seq<char>>, i: int)
    requires
        0 <= i <= ls.len(),
    ensures
        total_len(ls.take(i)) <= total_len(ls),
    decreases ls.len() - i,
{
    if i < ls.len() {
        lemma_total_take(ls, i + 1);
        assert(ls.take(i + 1).drop_last() == ls.take(i));
    } else {
        assert(ls.take(i) == ls);
    }
}

proof fn lemma_count_le(s: Seq<char>, c: char)
    ensures
        count_char_s(s, c) <= s.len(),
    decreases s.len(),
{
    if s.len() > 0 {
        lemma_count_le(s.drop_last(), c);
    }
}

/// Occurrences of `c` in `s`.
pub fn count_char(s: &str, c: char) -> (n: usize)
    ensures
        n == count_char_s(s@, c),
{
    let v = chars_of(s);
    let mut n: usize = 0;
    let mut i: usize = 0;
    while i < v.len()
        invariant
            v@ == s@,
            0 <= i <= v@.len(),
            n == count_char_s(v@.take(i as int), c),
            n <= i,
        decreases v.len() - i,
    {
        assert(v@.take(i + 1).drop_last() == v@.take(i as int));
        if v[i] == c {
            n = n + 1;
        }
        i = i + 1;
    }
    assert(v@.take(v@.len() as int) == v@);
    n
}

/// Whether the line opens a storage block (see `storage_start_s`).
pub fn is_storage_start(line: &str) -> (r: bool)
    ensures
        r == storage_start_s(line@),
{
    let t = trim(line);
    let v = chars_of(t.as_str());
    proof {
        reveal_strlit("Storage");
    }
    if v.len() > 7 && is_whitespace(v[7]) {
        let head = string_of(&v, 0, 7);
        assert(head@ == v@.take(7));
        str_eq(head.as_str(), "Storage")
    } else {
        false
    }
}

/// Strip `Storage Name { ... }` blocks from ObjectScript class content.
/// Returns (content_without_storage, storage_was_present).
pub fn strip_storage_blocks(content: &str) -> (r: (String, bool))
    requires
        content@.len() <= i64::MAX,
    ensures
        (r.0@, r.1) == strip_storage_s(content@),
{
    let ls = lines(content);
    let ghost lsv = lines_s(content@);
    proof {
        lemma_lines_total(content@);
    }
    let mut kept: Vec<String> = Vec::new();
    let mut mode: u8 = 0;
    let mut depth: i64 = 0;
    let mut found = false;
    let mut i: usize = 0;
    while i < ls.len()
        invariant
            views(ls@) == lsv,
            lsv == lines_s(content@),
            total_len(lsv) <= content@.len() <= i64::MAX,
            0 <= i <= ls@.len(),
            (views(kept@), mode as int, depth as int, found) == storage_scan(lsv.take(i as int)),
            mode <= 2,
            0 <= depth <= total_len(lsv.take(i as int)),
        decreases ls.len() - i,
    {
        let line = ls[i].as_str();
        proof {
            assert(lsv.take(i + 1).drop_last() == lsv.take(i as int));
            lemma_total_take(lsv, i + 1);
            lemma_count_le(line@, '{');
            lemma_count_le(line@, '}');
        }
        let opens = count_char(line, '{') as i64;
        let closes = count_char(line, '}') as i64;
        let mut handled = false;
        if mode == 2 {
            let t = trim(line);
            let tv = chars_of(t.as_str());
            if tv.len() == 0 {
                handled = true;
            } else if tv[0] == '{' {
                handled = true;
                if opens - closes <= 0 {
                    mode = 0;
                    depth = 0;
                } else {
                    mode = 1;
                    depth = opens - closes;
                }
            } else {
                mode = 0;
                depth = 0;
            }
        }
        if !handled {
            if mode == 0 {
                if is_storage_start(line) {
                    found = true;
                    if opens == 0 {
                        mode = 2;
                        depth = 0;
                    } else if opens - closes <= 0 {
                        mode = 0;
                        depth = 0;
                    } else {
                        mode = 1;
                        depth = opens - closes;
                    }
                } else {
                    let ghost before = views(kept@);
                    kept.push(ls[i].clone());
                    assert(views(kept@) =~= before.push(lsv[i as int]));
                    depth = 0;
                }
            } else {
                depth = depth + opens - closes;
                if depth <= 0 {
                    mode = 0;
                    depth = 0;
                }
            }
        }
        i = i + 1;
    }
    assert(lsv.take(ls@.len() as int) == lsv);
    if found {
        let mut n = kept.len();
        assert(views(kept@).take(n as int) == views(kept@));
        while n > 0 && trim(kept[n - 1].as_str()).as_str().unicode_len() == 0
            invariant
                0 <= n <= kept@.len(),
                drop_blank_tail(views(kept@)) == drop_blank_tail(views(kept@).take(n as int)),
            decreases n,
        {
            assert(views(kept@).take(n as int).drop_last() == views(kept@).take(n - 1));
            n = n - 1;
        }
        assert(drop_blank_tail(views(kept@).take(n as int)) == views(kept@).take(n as int));
        let body = clone_range(&kept, 0, n);
        assert(views(body@) == views(kept@).take(n as int));
        let mut out = join(&body, "\n");
        out.append("\n");
        (out, true)
    } else {
        (to_owned(content), false)
    }
}

// ---------------------------------------------------------------------------
// Parameters
// ---------------------------------------------------------------------------
/// Parameters of `iris_doc`.
pub struct IrisDocParams {
    /// Operation, one of: get, put, delete, head, fragment, compiled, list,
    /// insert, delete_lines. Defaults to "get".
    pub mode: String,
    /// Document name e.g. 'MyApp.Patient.cls'
    pub name: Option<String>,
    /// Multiple document names for batch get/delete
    pub names: Vec<String>,
    /// Source content (required for mode=put)
    pub content: Option<String>,
    pub namespace: String,
    /// Elicitation resume ID (from a prior elicitation_required response)
    pub elicitation_id: Option<String>,
    /// User's answer to the elicitation question ("yes" or "no")
    pub elicitation_answer: Option<String>,
    /// If true and mode=put, compile the document after writing.
    pub compile: bool,
    /// Fragment/delete start line, 1-based inclusive
    pub start: Option<i64>,
    /// Fragment/delete end line, 1-based inclusive
    pub end: Option<i64>,
    /// Insertion point for mode=insert: `content` is spliced before this
    /// 1-based line; omitted, it appends at the end of the file.
    pub line: Option<i64>,
    /// Stale-edit guard: the text expected at the targeted lines.
    pub expected: Option<String>,
    /// Compiled form type: "INT" (default) or "OBJ"
    pub compiled_type: Option<String>,
    /// Glob pattern for mode=list
    pub pattern: Option<String>,
    /// Document category filter: "CLS", "MAC", "INT", "INC", or "ALL"
    pub category: Option<String>,
    /// Max results for mode=list (default 200, max 1000)
    pub max_results: Option<i64>,
}

/// The text of an optional string, empty when absent.
pub open spec fn text_or_empty(o: Option<String>) -> Seq<char> {
    match o {
        Some(s) => s@,
        None => Seq::empty(),
    }
}

fn str_or_empty(o: &Option<String>) -> (r: &str)
    ensures
        r@ == text_or_empty(*o),
{
    match o {
        Some(s) => s.as_str(),
        None => {
            proof {
                reveal_strlit("");
            }
            ""
        },
    }
}

/// Whether `e` is the error with this code and message.
pub open spec fn is_error(e: ToolError, code: Seq<char>, msg: Seq<char>) -> bool {
    e.error_code@ == code && e.error@ == msg
}

// ---------------------------------------------------------------------------
// Line-level edits: mode=insert and mode=delete_lines
// ---------------------------------------------------------------------------
/// Why an edit was refused.
#[derive(Debug)]
pub enum EditError {
    /// `{"success": false, "error_code", "error"}`
    Failed(ToolError),
    /// The targeted lines do not hold `expected`: `{"success": false,
    /// "error_code": "STALE_CONTENT", "error", "line", "expected_line",
    /// "actual_line"}`.
    Stale { line: i64, expected_line: String, actual_line: String },
}

/// The message of a stale edit at line `line`.
pub open spec fn stale_msg_s(line: int) -> Seq<char> {
    "Line "@ + decimal_s(line)
        + " does not match `expected` — the document changed since you last read it. Re-fetch with mode=get or mode=fragment and retry with current line numbers."@
}

impl EditError {
    /// The message this refusal is reported with.
    pub fn message(&self) -> (r: String)
        ensures
            match self {
                EditError::Failed(e) => r@ == e.error@,
                EditError::Stale { line, .. } => r@ == stale_msg_s(*line as int),
            },
    {
        match self {
            EditError::Failed(e) => e.error.clone(),
            EditError::Stale { line, .. } => {
                let mut m = String::from_str("Line ");
                m.append(i64_to_string(*line).as_str());
                m.append(
                    " does not match `expected` — the document changed since you last read it. Re-fetch with mode=get or mode=fragment and retry with current line numbers.",
                );
                m
            },
        }
    }
}

/// Whether `diff_expected(expected, actual)` may give `r`.
pub open spec fn diff_spec(expected: Seq<char>, actual: Seq<String>, r: Option<(usize, String, String)>) -> bool {
    let exp = lines_s(expected);
    let act = views(actual);
    let n = max_s(expected_len_s(exp), act.len() as int);
    match r {
        None => forall|i: int| 0 <= i < n ==> line_or_empty(exp, i) == line_or_empty(act, i),
        Some((off, e, a)) => off < n && e@ == line_or_empty(exp, off as int) && a@ == line_or_empty(
            act,
            off as int,
        ) && e@ != a@ && forall|i: int| 0 <= i < off ==> line_or_empty(exp, i) == line_or_empty(act, i),
    }
}

/// Whether the lines `actual` hold `expected` (trailing whitespace and one
/// trailing empty expected line aside).
pub open spec fn block_matches(expected: Seq<char>, actual: Seq<String>) -> bool {
    let exp = lines_s(expected);
    let act = views(actual);
    forall|i: int|
        0 <= i < max_s(expected_len_s(exp), act.len() as int) ==> line_or_empty(exp, i)
            == line_or_empty(act, i)
}

/// An insert that passed the checks made before the document is read.
pub struct InsertRequest {
    pub name: String,
    /// The lines to insert, as one text.
    pub block: String,
    pub line: Option<i64>,
    pub expected: Option<String>,
}

/// The checks of mode=insert made before reading the document: a name, a
/// content, and — for a positional insert — `expected`.
pub fn plan_insert(p: &IrisDocParams) -> (r: Result<InsertRequest, ToolError>)
    ensures
        text_or_empty(p.name).len() == 0 ==> (r matches Err(e) && is_error(
            e,
            "MISSING_PARAMS"@,
            "name is required for mode=insert"@,
        )),
        text_or_empty(p.name).len() > 0 && p.content is None ==> (r matches Err(e) && is_error(
            e,
            "MISSING_PARAMS"@,
            "content is required for mode=insert"@,
        )),
        text_or_empty(p.name).len() > 0 && p.content is Some && p.line is Some && p.expected is None
            ==> (r matches Err(e) && is_error(
            e,
            "MISSING_PARAMS"@,
            "expected is required for a positional insert (when `line` is set): pass the line currently at that position. Omit `line` to append at end of file."@,
        )),
        r matches Ok(q) ==> q.name@ == text_or_empty(p.name) && q.name@.len() > 0 && p.content
            is Some && q.block@ == p.content->0@ && q.line == p.line && opt_view(q.expected)
            == opt_view(p.expected) && (q.line is Some ==> q.expected is Some),
{
    let name = str_or_empty(&p.name);
    if name.is_empty() {
        return Err(tool_error("MISSING_PARAMS", "name is required for mode=insert"));
    }
    let block = match &p.content {
        Some(c) => c.clone(),
        None => {
            return Err(tool_error("MISSING_PARAMS", "content is required for mode=insert"));
        },
    };
    if p.line.is_some() && p.expected.is_none() {
        return Err(
            tool_error(
                "MISSING_PARAMS",
                "expected is required for a positional insert (when `line` is set): pass the line currently at that position. Omit `line` to append at end of file.",
            ),
        );
    }
    let expected = match &p.expected {
        Some(e) => Some(e.clone()),
        None => None,
    };
    Ok(InsertRequest { name: String::from_str(name), block, line: p.line, expected })
}

/// The line an insert goes before: the given one, else one past the end.
pub open spec fn insert_at_s(line: Option<i64>, len: int) -> int {
    match line {
        Some(l) => l as int,
        None => len + 1,
    }
}

/// The line currently at 1-based `at`, as a block of zero or one lines.
pub open spec fn line_at_s(existing: Seq<String>, at: int) -> Seq<String> {
    if 1 <= at <= existing.len() {
        seq![existing[at - 1]]
    } else {
        Seq::empty()
    }
}

/// mode=insert on the current lines: the insertion point must be at least
/// 1; with `expected`, the line now at that point must hold it; then the
/// block's lines are spliced in before it (clamped to the end).
pub fn edit_insert(req: &InsertRequest, existing: &[String]) -> (r: Result<(String, i64, usize), EditError>)
    requires
        existing@.len() + 1 < i64::MAX,
        req.expected is Some ==> insert_at_s(req.line, existing@.len() as int) + lines_s(
            req.expected->0@,
        ).len() + 2 <= i64::MAX,
    ensures
        ({
            let at = insert_at_s(req.line, existing@.len() as int);
            let block = lines_s(req.block@);
            if at < 1 {
                r matches Err(EditError::Failed(e)) && is_error(
                    e,
                    "INVALID_PARAMS"@,
                    "line must be >= 1"@,
                )
            } else if req.expected is Some && !block_matches(
                req.expected->0@,
                line_at_s(existing@, at),
            ) {
                r matches Err(EditError::Stale { line, expected_line, actual_line }) && line >= at
                    && diff_spec(
                    req.expected->0@,
                    line_at_s(existing@, at),
                    Some(((line - at) as usize, expected_line, actual_line)),
                )
            } else {
                r matches Ok((content, inserted_at, added)) && {
                    &&& inserted_at == apply_insert_s(existing@, at, Seq::empty()).1
                    &&& added == block.len()
                    &&& content@ == join_s(
                        views(existing@.take(inserted_at - 1)) + block + views(
                            existing@.skip(inserted_at - 1),
                        ),
                        "\n"@,
                    )
                }
            }
        }),
{
    let len = existing.len() as i64;
    let at = match req.line {
        Some(l) => l,
        None => len + 1,
    };
    if at < 1 {
        return Err(EditError::Failed(tool_error("INVALID_PARAMS", "line must be >= 1")));
    }
    if let Some(exp) = &req.expected {
        let target: Vec<String> = if at <= len {
            let mut t: Vec<String> = Vec::new();
            t.push(existing[(at - 1) as usize].clone());
            proof {
                assert(views(t@) == views(line_at_s(existing@, at as int)));
            }
            t
        } else {
            Vec::new()
        };
        let d = diff_expected(exp.as_str(), target.as_slice());
        proof {
            assert(views(target@) == views(line_at_s(existing@, at as int)));
        }
        match d {
            Some((off, e, a)) => {
                proof {
                    lemma_diff_views(exp@, target@, line_at_s(existing@, at as int), d);
                    assert(target@.len() <= 1);
                    assert(off < lines_s(exp@).len() + 1);
                    assert(diff_spec(
                        exp@,
                        line_at_s(existing@, at as int),
                        Some((off, e, a)),
                    ));
                }
                let line_no: i64 = at + off as i64;
                return Err(EditError::Stale { line: line_no, expected_line: e, actual_line: a });
            },
            None => {
                proof {
                    lemma_diff_views(exp@, target@, line_at_s(existing@, at as int), d);
                }
            },
        }
    }
    let block = lines(req.block.as_str());
    let (new_lines, actual_at) = apply_insert(existing, at, block.as_slice());
    let content = join(new_lines.as_slice(), "\n");
    proof {
        assert(views(new_lines@) =~= views(existing@.take(actual_at - 1)) + views(block@) + views(
            existing@.skip(actual_at - 1),
        ));
    }
    Ok((content, actual_at, block.len()))
}

proof fn lemma_diff_views(
    expected: Seq<char>,
    a: Seq<String>,
    b: Seq<String>,
    r: Option<(usize, String, String)>,
)
    requires
        views(a) == views(b),
        diff_spec(expected, a, r),
    ensures
        diff_spec(expected, b, r),
        r is None <==> block_matches(expected, b),
        r is Some ==> diff_spec(expected, b, r),
{
    match r {
        Some((off, e, x)) => {
            assert(line_or_empty(lines_s(expected), off as int) != line_or_empty(views(b), off as int));
        },
        None => {},
    }
}

/// A line deletion that passed the checks made before the document is read.
pub struct DeleteLinesRequest {
    pub name: String,
    pub start: i64,
    pub end: i64,
    pub expected: String,
}

/// The message for a start after the end.
pub open spec fn order_msg_s(start: int, end: int) -> Seq<char> {
    "start ("@ + decimal_s(start) + ") must be <= end ("@ + decimal_s(end) + ")"@
}

fn order_error(start: i64, end: i64) -> (e: ToolError)
    ensures
        is_error(e, "INVALID_PARAMS"@, order_msg_s(start as int, end as int)),
{
    let mut m = String::from_str("start (");
    m.append(i64_to_string(start).as_str());
    m.append(") must be <= end (");
    m.append(i64_to_string(end).as_str());
    m.append(")");
    ToolError { error_code: String::from_str("INVALID_PARAMS"), error: m }
}

/// The checks of mode=delete_lines made before reading the document, in
/// order: a name, a start, an end, `start >= 1`, `start <= end`, and
/// `expected` (deleting is destructive, so the block must be named).
pub fn plan_delete_lines(p: &IrisDocParams) -> (r: Result<DeleteLinesRequest, ToolError>)
    ensures
        ({
            let name = text_or_empty(p.name);
            if name.len() == 0 {
                r matches Err(e) && is_error(
                    e,
                    "MISSING_PARAMS"@,
                    "name is required for mode=delete_lines"@,
                )
            } else if p.start is None {
                r matches Err(e) && is_error(
                    e,
                    "MISSING_PARAMS"@,
                    "start is required for mode=delete_lines"@,
                )
            } else if p.end is None {
                r matches Err(e) && is_error(
                    e,
                    "MISSING_PARAMS"@,
                    "end is required for mode=delete_lines"@,
                )
            } else if p.start->0 < 1 {
                r matches Err(e) && is_error(e, "INVALID_PARAMS"@, "start must be >= 1"@)
            } else if p.end->0 < p.start->0 {
                r matches Err(e) && is_error(
                    e,
                    "INVALID_PARAMS"@,
                    order_msg_s(p.start->0 as int, p.end->0 as int),
                )
            } else if p.expected is None {
                r matches Err(e) && is_error(
                    e,
                    "MISSING_PARAMS"@,
                    "expected is required for mode=delete_lines: pass the exact text currently occupying lines start..end (re-fetch with mode=get/fragment if unsure)."@,
                )
            } else {
                r matches Ok(q) && q.name@ == name && q.start == p.start->0 && q.end == p.end->0
                    && q.expected@ == p.expected->0@
            }
        }),
{
    let name = str_or_empty(&p.name);
    if name.is_empty() {
        return Err(tool_error("MISSING_PARAMS", "name is required for mode=delete_lines"));
    }
    let start = match p.start {
        Some(v) => v,
        None => {
            return Err(tool_error("MISSING_PARAMS", "start is required for mode=delete_lines"));
        },
    };
    let end = match p.end {
        Some(v) => v,
        None => {
            return Err(tool_error("MISSING_PARAMS", "end is required for mode=delete_lines"));
        },
    };
    if start < 1 {
        return Err(tool_error("INVALID_PARAMS", "start must be >= 1"));
    }
    if end < start {
        return Err(order_error(start, end));
    }
    let expected = match &p.expected {
        Some(e) => e.clone(),
        None => {
            return Err(
                tool_error(
                    "MISSING_PARAMS",
                    "expected is required for mode=delete_lines: pass the exact text currently occupying lines start..end (re-fetch with mode=get/fragment if unsure).",
                ),
            );
        },
    };
    Ok(DeleteLinesRequest { name: String::from_str(name), start, end, expected })
}

/// The message for a range outside the document.
pub open spec fn range_msg_s(start: int, end: int, len: nat) -> Seq<char> {
    "range "@ + decimal_s(start) + "-"@ + decimal_s(end) + " is outside the document (has "@
        + digits_s(len) + " lines)"@
}

fn range_error(start: i64, end: i64, len: usize) -> (e: ToolError)
    ensures
        is_error(e, "INVALID_PARAMS"@, range_msg_s(start as int, end as int, len as nat)),
{
    let mut m = String::from_str("range ");
    m.append(i64_to_string(start).as_str());
    m.append("-");
    m.append(i64_to_string(end).as_str());
    m.append(" is outside the document (has ");
    m.append(u64_to_string(len as u64).as_str());
    m.append(" lines)");
    ToolError { error_code: String::from_str("INVALID_PARAMS"), error: m }
}

/// mode=delete_lines on the current lines: the start must lie in the
/// document; the block `start..=end` (the end clamped to the last line) must
/// hold `expected`; then exactly that block is removed. Answers the new text
/// and the removed count and clamped bounds.
pub fn edit_delete_lines(req: &DeleteLinesRequest, existing: &[String]) -> (r: Result<
    (String, i64, i64, i64),
    EditError,
>)
    requires
        1 <= req.start <= req.end,
        existing@.len() + lines_s(req.expected@).len() + 2 <= i64::MAX,
    ensures
        ({
            let len = existing@.len() as int;
            let block = slice_lines_s(existing@, req.start as int, req.end as int).0;
            if req.start > len {
                r matches Err(EditError::Failed(e)) && is_error(
                    e,
                    "INVALID_PARAMS"@,
                    range_msg_s(req.start as int, req.end as int, existing@.len()),
                )
            } else if !block_matches(req.expected@, block) {
                r matches Err(EditError::Stale { line, expected_line, actual_line }) && line
                    >= req.start && diff_spec(
                    req.expected@,
                    block,
                    Some(((line - req.start) as usize, expected_line, actual_line)),
                )
            } else {
                r matches Ok((content, removed, s, e)) && {
                    &&& s == req.start
                    &&& e == min_s(req.end as int, len)
                    &&& removed == e - s + 1
                    &&& content@ == join_s(
                        views(existing@.take(s - 1)) + views(existing@.skip(e as int)),
                        "\n"@,
                    )
                }
            }
        }),
{
    let len = existing.len();
    if req.start > len as i64 {
        return Err(EditError::Failed(range_error(req.start, req.end, len)));
    }
    let (target, _, _, _) = slice_lines(existing, req.start, req.end);
    let d = diff_expected(req.expected.as_str(), target.as_slice());
    proof {
        lemma_diff_views(req.expected@, target@, target@, d);
    }
    match d {
        Some((off, e, a)) => {
            proof {
                assert(target@.len() <= existing@.len());
                assert(off < lines_s(req.expected@).len() + existing@.len() + 1);
            }
            let line_no: i64 = req.start + off as i64;
            return Err(EditError::Stale { line: line_no, expected_line: e, actual_line: a });
        },
        None => {},
    }
    let (new_lines, removed, s, e) = apply_delete_lines(existing, req.start, req.end);
    if removed == 0 {
        return Err(EditError::Failed(range_error(req.start, req.end, len)));
    }
    let content = join(new_lines.as_slice(), "\n");
    proof {
        assert(views(new_lines@) =~= views(existing@.take(s - 1)) + views(
            existing@.skip(e as int),
        ));
    }
    Ok((content, removed, s, e))
}

/// Deleting lines `start..=end` with the start inside the document removes
/// exactly those lines (the end clamped to the last line) — the block that
/// `slice_lines` reads — and keeps every other line, in order.
pub proof fn lemma_delete_lines_removes_block(existing: Seq<String>, start: int, end: int)
    requires
        1 <= start <= end,
        start <= existing.len(),
    ensures
        ({
            let e = min_s(end, existing.len() as int);
            let (new_lines, removed, s, e2) = apply_delete_lines_s(existing, start, end);
            &&& s == start && e2 == e
            &&& removed == e - start + 1
            &&& new_lines.len() == existing.len() - removed
            &&& forall|i: int| 0 <= i < start - 1 ==> new_lines[i] == existing[i]
            &&& forall|i: int| start - 1 <= i < new_lines.len() ==> new_lines[i] == existing[i + removed]
            &&& slice_lines_s(existing, start, end).0 == existing.subrange(start - 1, e)
        }),
{
}

// ---------------------------------------------------------------------------
// Writing a document: mode=put, the source-control check, the upload
// ---------------------------------------------------------------------------
/// The text after the last `.` of a name (all of it without a `.`).
pub open spec fn last_ext_s(name: Seq<char>) -> Seq<char> {
    match rfind_char_s(name, '.') {
        Some(i) => name.skip(i + 1),
        None => name,
    }
}

/// The name without its last `.` and what follows (all of it without a `.`).
pub open spec fn routine_base_s(name: Seq<char>) -> Seq<char> {
    match rfind_char_s(name, '.') {
        Some(i) => name.take(i),
        None => name,
    }
}

/// Whether routine source already starts (after leading whitespace) with a
/// `ROUTINE ` header, in any case.
pub open spec fn has_routine_header(raw: Seq<char>) -> bool {
    has_prefix(unicode_upper(trim_start_s(raw)), "ROUTINE "@)
}

/// The content mode=put writes: `.mac` and `.inc` sources without a
/// `ROUTINE` header get one (`[Type=INC]` for `.inc`); anything else is
/// written as given.
pub open spec fn put_content_s(name: Seq<char>, raw: Seq<char>) -> Seq<char> {
    let ext = lower_s(last_ext_s(name));
    if ext == "mac"@ && !has_routine_header(raw) {
        "ROUTINE "@ + routine_base_s(name) + "\n"@ + raw
    } else if ext == "inc"@ && !has_routine_header(raw) {
        "ROUTINE "@ + routine_base_s(name) + " [Type=INC]\n"@ + raw
    } else {
        raw
    }
}

/// The content mode=put writes for document `name`.
pub fn put_content(name: &str, raw: &str) -> (r: String)
    ensures
        r@ == put_content_s(name@, raw@),
{
    let v = chars_of(name);
    proof {
        lemma_rfind_char_props(v@, '.');
    }
    let (ext, base) = match rfind_char(&v, '.') {
        Some(i) => {
            assert(i < v@.len() && v@.len() == v.len());
            proof {
                assert(v@.subrange(0, i as int) == v@.take(i as int));
            }
            (string_of(&v, i + 1, v.len()), string_of(&v, 0, i))
        },
        None => {
            proof {
                assert(v@.subrange(0, v@.len() as int) == v@);
            }
            (string_of(&v, 0, v.len()), string_of(&v, 0, v.len()))
        },
    };
    let ext_l = to_ascii_lowercase(ext.as_str());
    let ts = trim_start(raw);
    let up = to_uppercase(ts.as_str());
    let header = starts_with(up.as_str(), "ROUTINE ");
    if str_eq(ext_l.as_str(), "mac") && !header {
        let mut r = String::from_str("ROUTINE ");
        r.append(base.as_str());
        r.append("\n");
        r.append(raw);
        r
    } else if str_eq(ext_l.as_str(), "inc") && !header {
        let mut r = String::from_str("ROUTINE ");
        r.append(base.as_str());
        r.append(" [Type=INC]\n");
        r.append(raw);
        r
    } else {
        String::from_str(raw)
    }
}

/// `s` with each `"` doubled.
pub open spec fn dq_s(s: Seq<char>) -> Seq<char> {
    replace_char_s(s, '"', "\"\""@)
}

pub const WRITE_CHECK_A: &'static str = "set scmClass=##class(%Studio.SourceControl.Interface).SourceControlClassGet() if scmClass=\"\" { write \"NO_SCM\" } else { set sc=##class(%Studio.SourceControl.Interface).SourceControlCreate(\"";

pub const WRITE_CHECK_C: &'static str = "\",.c,.f,.o) set obj=$get(%SourceControl) if '$IsObject(obj) { write \"NO_SCM\" } else { set action=0 set msg=\"\" set target=\"\" set reload=0 set sc=obj.UserAction(0,\"%SourceMenu,%CheckOut\",\"";

pub const WRITE_CHECK_D: &'static str = "\",\"\",.action,.target,.msg,.reload) write action_\"|\"_msg } }";

/// The pre-write source-control check: `NO_SCM` without source control,
/// else `action|msg` from `UserAction` offering a checkout of `name`.
pub open spec fn write_check_code_s(user: Seq<char>, pass: Seq<char>, name: Seq<char>) -> Seq<char> {
    WRITE_CHECK_A@ + dq_s(user) + "\",\""@ + dq_s(pass) + WRITE_CHECK_C@ + dq_s(name)
        + WRITE_CHECK_D@
}

/// Build the pre-write source-control check for `name`.
pub fn write_check_code(username: &str, password: &str, name: &str) -> (r: String)
    ensures
        r@ == write_check_code_s(username@, password@, name@),
{
    let mut r = String::from_str(WRITE_CHECK_A);
    r.append(replace_char(username, '"', "\"\"").as_str());
    r.append("\",\"");
    r.append(replace_char(password, '"', "\"\"").as_str());
    r.append(WRITE_CHECK_C);
    r.append(replace_char(name, '"', "\"\"").as_str());
    r.append(WRITE_CHECK_D);
    r
}

/// What the source-control check decides about a write.
pub enum WriteGate {
    /// Write now.
    Proceed,
    /// Ask the user first: `{"success": false, "elicitation_required": true,
    /// "elicitation_id", "message", "options": ["yes", "no"]}`.
    Confirm { elicitation_id: String, message: String },
    /// `SCM_REJECTED`.
    Rejected(ToolError),
}

/// `new` is `old` with a pending write of `content` to `name` stored under
/// `eid`.
pub open spec fn stored_put(
    old: Map<Seq<char>, PendingElicitation>,
    new: Map<Seq<char>, PendingElicitation>,
    eid: Seq<char>,
    name: Seq<char>,
    content: Seq<char>,
    ns: Seq<char>,
) -> bool {
    &&& new == old.insert(eid, new[eid])
    &&& new[eid].id@ == eid
    &&& new[eid].document@ == name
    &&& new[eid].action == ElicitationAction::Put
    &&& opt_view(new[eid].content) == Some(content)
    &&& new[eid].scm_action_id is None
    &&& new[eid].namespace@ == ns
}

/// Read the source-control check's output (`Err` when it could not run):
/// no answer, `NO_SCM` or an empty answer let the write go on; action 1
/// stores the write as a pending dialog and asks; action 6 refuses; any
/// other action lets the write go on.
pub fn scm_write_gate(
    out: Result<String, String>,
    name: &str,
    content: &str,
    namespace: &str,
    store: &mut ElicitationStore,
) -> (r: WriteGate)
    ensures
        match out {
            Err(_) => r is Proceed && final(store)@ == old(store)@,
            Ok(o) => {
                let t = trim_s(o@);
                if t == "NO_SCM"@ || t.len() == 0 {
                    r is Proceed && final(store)@ == old(store)@
                } else if action_code_s(t) == 1 {
                    r matches WriteGate::Confirm { elicitation_id, message } && message@
                        == (if action_msg_s(t).len() == 0 {
                        name@ + " requires checkout. Check out and write?"@
                    } else {
                        action_msg_s(t)
                    }) && is_hyphenated_uuid(elicitation_id@) && stored_put(
                        old(store)@,
                        final(store)@,
                        elicitation_id@,
                        name@,
                        content@,
                        namespace@,
                    )
                } else if action_code_s(t) == 6 {
                    r matches WriteGate::Rejected(e) && is_error(
                        e,
                        "SCM_REJECTED"@,
                        "Source control rejected: "@ + action_msg_s(t),
                    ) && final(store)@ == old(store)@
                } else {
                    r is Proceed && final(store)@ == old(store)@
                }
            },
        },
{
    let o = match out {
        Err(_) => {
            return WriteGate::Proceed;
        },
        Ok(o) => o,
    };
    let t = trim(o.as_str());
    if str_eq(t.as_str(), "NO_SCM") || t.as_str().is_empty() {
        return WriteGate::Proceed;
    }
    let (code, msg) = parse_action_msg(t.as_str());
    if code == 1 {
        let eid = store.insert(
            name,
            ElicitationAction::Put,
            Some(String::from_str(content)),
            None,
            namespace,
        );
        let message = if msg.as_str().is_empty() {
            let mut m = String::from_str(name);
            m.append(" requires checkout. Check out and write?");
            m
        } else {
            msg
        };
        WriteGate::Confirm { elicitation_id: eid, message }
    } else if code == 6 {
        let mut m = String::from_str("Source control rejected: ");
        m.append(msg.as_str());
        WriteGate::Rejected(ToolError { error_code: String::from_str("SCM_REJECTED"), error: m })
    } else {
        WriteGate::Proceed
    }
}

/// The request that writes a document.
pub struct UploadPlan {
    /// The path under the namespace's API root.
    pub path: String,
    /// The document's lines, Storage blocks removed.
    pub lines: Vec<String>,
    pub storage_stripped: bool,
    /// Where an editor opens the document.
    pub open_uri: String,
}

/// The message when the name of a write is blank.
pub const BLANK_WRITE_NAME_MSG: &'static str = "name (document) is required and was empty — the write was not attempted. If a previous call lost its arguments, resend with name/content set explicitly.";

/// Plan the upload of `content` as document `name`: a blank name is
/// refused; Storage blocks are removed (IRIS regenerates them on compile).
pub fn plan_upload(name: &str, content: &str, namespace: &str) -> (r: Result<UploadPlan, ToolError>)
    requires
        content@.len() <= i64::MAX,
    ensures
        trim_s(name@).len() == 0 <==> r is Err,
        r matches Err(e) ==> is_error(e, "MISSING_PARAMS"@, BLANK_WRITE_NAME_MSG@),
        r matches Ok(u) ==> {
            let (c, stripped) = strip_storage_s(content@);
            &&& views(u.lines@) == lines_s(c)
            &&& u.storage_stripped == stripped
            &&& u.path@ == "/doc/"@ + url_encoded(name@) + "?ignoreConflict=1"@
            &&& u.open_uri@ == "isfs://"@ + namespace@ + "/"@ + name@
        },
{
    let t = trim(name);
    if t.as_str().is_empty() {
        return Err(tool_error("MISSING_PARAMS", BLANK_WRITE_NAME_MSG));
    }
    let (c, stripped) = strip_storage_blocks(content);
    let ls = lines(c.as_str());
    let mut path = String::from_str("/doc/");
    path.append(url_encode(name).as_str());
    path.append("?ignoreConflict=1");
    let mut uri = String::from_str("isfs://");
    uri.append(namespace);
    uri.append("/");
    uri.append(name);
    Ok(UploadPlan { path, lines: ls, storage_stripped: stripped, open_uri: uri })
}

/// Whether an HTTP status is a success (2xx).
pub open spec fn is_success_status(status: u16) -> bool {
    200 <= status <= 299
}

/// The `error` text of the first entry of a `status.errors` array (when it
/// is a string), or the default.
pub open spec fn first_error_s(errors: Seq<Option<String>>, dflt: Seq<char>) -> Seq<char> {
    match errors[0] {
        Some(e) => e@,
        None => dflt,
    }
}

/// The text of a document from the `result.content` of an Atelier answer,
/// given as `None` when that is not an array and otherwise as the text of
/// each element (`None` for an element that is not a string): the string
/// elements joined by newlines.
pub open spec fn doc_content_s(content: Option<Seq<Option<String>>>) -> Seq<char> {
    match content {
        Some(v) => join_s(somes(v), "\n"@),
        None => Seq::empty(),
    }
}

/// The text of a document from the `result.content` of an Atelier answer
/// (see `doc_content_s`).
pub fn doc_content_to_string(content: &Option<Vec<Option<String>>>) -> (r: String)
    ensures
        r@ == doc_content_s(match content {
            Some(v) => Some(v@),
            None => None,
        }),
{
    match content {
        Some(v) => {
            let lines = somes_exec(v);
            join(lines.as_slice(), "\n")
        },
        None => String::new(),
    }
}

/// Read the answer to a write or delete: a non-2xx status is an HTTP error
/// (with the trimmed body as hint); a 2xx answer whose `status.errors` is a
/// non-empty array failed all the same, with the first error's text (or
/// `dflt`) under `code`.
pub fn answer_error(
    status: u16,
    hint: &str,
    errors: &Option<Vec<Option<String>>>,
    code: &str,
    dflt: &str,
) -> (r: Option<ToolError>)
    requires
        100 <= status <= 999,
    ensures
        !is_success_status(status) ==> (r matches Some(e) && e.error_code@ == http_error_code_s(
            status,
        ) && e.error@ == http_error_message_s(status, trim_s(hint@))),
        is_success_status(status) ==> match errors {
            Some(v) => if v@.len() > 0 {
                r matches Some(e) && is_error(e, code@, first_error_s(v@, dflt@))
            } else {
                r is None
            },
            None => r is None,
        },
{
    if !(200 <= status && status <= 299) {
        let h = trim(hint);
        return Some(http_err_json(status, h.as_str()));
    }
    match errors {
        Some(v) => {
            if v.len() > 0 {
                let msg = match &v[0] {
                    Some(e) => e.clone(),
                    None => String::from_str(dflt),
                };
                Some(ToolError { error_code: String::from_str(code), error: msg })
            } else {
                None
            }
        },
        None => None,
    }
}

// ---------------------------------------------------------------------------
// Compiling after a write
// ---------------------------------------------------------------------------
/// How the compile request after a write went.
pub enum CompileAnswer {
    /// The request could not be sent (the error's text).
    NotSent(String),
    /// The answer: its status, its body text when not 2xx, the string entries
    /// of its `console` array, and the `error` fields of `status.errors`
    /// (`None` where not a string).
    Answered { status: u16, hint: String, console: Vec<String>, status_errors: Vec<Option<String>> },
}

/// What the compile reports: whether it succeeded, its errors, its console.
pub struct CompileReport {
    pub ok: bool,
    pub errors: Vec<String>,
    pub console: Vec<String>,
}

/// The string `error` fields, in order.
pub open spec fn somes(v: Seq<Option<String>>) -> Seq<Seq<char>>
    decreases v.len(),
{
    if v.len() == 0 {
        Seq::empty()
    } else {
        let rest = somes(v.drop_last());
        match v.last() {
            Some(s) => rest.push(s@),
            None => rest,
        }
    }
}

/// The compile errors: the `status.errors` texts, then each console line
/// that (trimmed) starts with `ERROR ` and is not already part of an error.
pub open spec fn compile_errors_s(errs: Seq<Seq<char>>, console: Seq<Seq<char>>) -> Seq<Seq<char>>
    decreases console.len(),
{
    if console.len() == 0 {
        errs
    } else {
        let e = compile_errors_s(errs, console.drop_last());
        let t = trim_s(console.last());
        if has_prefix(t, "ERROR "@) && forall|k: int| 0 <= k < e.len() ==> !contains_s(#[trigger] e[k], t) {
            e.push(t)
        } else {
            e
        }
    }
}

fn somes_exec(v: &Vec<Option<String>>) -> (r: Vec<String>)
    ensures
        views(r@) == somes(v@),
{
    let mut out: Vec<String> = Vec::new();
    let mut i: usize = 0;
    while i < v.len()
        invariant
            0 <= i <= v@.len(),
            views(out@) == somes(v@.take(i as int)),
        decreases v.len() - i,
    {
        proof {
            assert(v@.take(i + 1).drop_last() == v@.take(i as int));
        }
        match &v[i] {
            Some(s) => {
                out.push(s.clone());
                proof {
                    assert(views(out@) =~= views(out@.drop_last()).push(s@));
                }
            },
            None => {},
        }
        i = i + 1;
    }
    proof {
        assert(v@.take(v@.len() as int) == v@);
    }
    out
}

/// Read the compile request's outcome: unsent, it failed with the send
/// error; a non-2xx answer refuses the call (`COMPILE_FAILED`); otherwise the
/// errors are gathered and the compile succeeded when there are none.
pub fn compile_report(a: CompileAnswer) -> (r: Result<CompileReport, ToolError>)
    requires
        a matches CompileAnswer::Answered { status, .. } ==> 100 <= status <= 999,
    ensures
        match a {
            CompileAnswer::NotSent(e) => r matches Ok(c) && !c.ok && views(c.errors@) == seq![e@]
                && c.console@.len() == 0,
            CompileAnswer::Answered { status, hint, console, status_errors } => if !is_success_status(
                status,
            ) {
                r matches Err(e) && is_error(
                    e,
                    "COMPILE_FAILED"@,
                    "Compile request failed: HTTP "@ + status_text_s(status) + " "@ + trim_s(hint@),
                )
            } else {
                r matches Ok(c) && views(c.errors@) == compile_errors_s(
                    somes(status_errors@),
                    views(console@),
                ) && c.ok == (c.errors@.len() == 0) && views(c.console@) == views(console@)
            },
        },
{
    match a {
        CompileAnswer::NotSent(e) => {
            let mut errors: Vec<String> = Vec::new();
            errors.push(e);
            proof {
                assert(views(errors@) =~= seq![errors@[0]@]);
            }
            Ok(CompileReport { ok: false, errors, console: Vec::new() })
        },
        CompileAnswer::Answered { status, hint, console, status_errors } => {
            if !(200 <= status && status <= 299) {
                let mut m = String::from_str("Compile request failed: HTTP ");
                m.append(status_text(status).as_str());
                m.append(" ");
                m.append(trim(hint.as_str()).as_str());
                return Err(ToolError { error_code: String::from_str("COMPILE_FAILED"), error: m });
            }
            let mut errs = somes_exec(&status_errors);
            let ghost base = somes(status_errors@);
            let ghost cv = views(console@);
            let mut i: usize = 0;
            while i < console.len()
                invariant
                    cv == views(console@),
                    0 <= i <= console@.len(),
                    views(errs@) == compile_errors_s(base, cv.take(i as int)),
                decreases console.len() - i,
            {
                proof {
                    assert(cv.take(i + 1).drop_last() == cv.take(i as int));
                    assert(cv.take(i + 1).last() == console@[i as int]@);
                }
                let t = trim(console[i].as_str());
                if starts_with(t.as_str(), "ERROR ") {
                    let mut fresh = true;
                    let mut k: usize = 0;
                    while k < errs.len()
                        invariant
                            0 <= k <= errs@.len(),
                            fresh == forall|j: int| 0 <= j < k ==> !contains_s(#[trigger] views(errs@)[j], t@),
                        decreases errs.len() - k,
                    {
                        proof {
                            assert(views(errs@)[k as int] == errs@[k as int]@);
                        }
                        if contains(errs[k].as_str(), t.as_str()) {
                            fresh = false;
                        }
                        k = k + 1;
                    }
                    if fresh {
                        errs.push(t);
                        proof {
                            assert(views(errs@) =~= views(errs@.drop_last()).push(errs@.last()@));
                        }
                    }
                }
                i = i + 1;
            }
            proof {
                assert(cv.take(cv.len() as int) == cv);
            }
            let ok = errs.len() == 0;
            Ok(CompileReport { ok, errors: errs, console })
        },
    }
}

// ---------------------------------------------------------------------------
// Answering a pending write dialog
// ---------------------------------------------------------------------------
/// How an answer to a pending write dialog goes on.
pub enum DocResume {
    /// No such dialog (or it expired): `ELICITATION_EXPIRED`.
    Expired(ToolError),
    /// The user said no: `WRITE_ABORTED`.
    Declined(ToolError),
    /// Commit the checkout with `after_code` in `namespace`, then write
    /// `content` to `document`.
    Finalize { after_code: String, document: String, namespace: String, content: String },
}

/// What taking up `answer` to the write dialog `eid` gives when the store's
/// entries are `m` at time `now`: `ELICITATION_EXPIRED` when the lookup finds
/// no live dialog; `WRITE_ABORTED` for an answer other than `yes` (in any
/// case); otherwise the checkout commit and the write of the stored content.
pub open spec fn doc_resume_is(
    r: DocResume,
    m: Map<Seq<char>, PendingElicitation>,
    eid: Seq<char>,
    answer: Seq<char>,
    username: Seq<char>,
    password: Seq<char>,
    now: u64,
) -> bool {
    match lookup_s(m, eid, now).0 {
        None => (r matches DocResume::Expired(e) && is_error(
            e,
            "ELICITATION_EXPIRED"@,
            "Elicitation session expired or not found"@,
        )),
        Some(p) => if lower_s(answer) != "yes"@ {
            (r matches DocResume::Declined(e) && is_error(
                e,
                "WRITE_ABORTED"@,
                "User declined checkout"@,
            ))
        } else {
            (r matches DocResume::Finalize { after_code, document, namespace, content } && {
                &&& document@ == p.document@
                &&& namespace@ == p.namespace@
                &&& content@ == text_or_empty(p.content)
                &&& after_code@ == after_user_action_code_s(
                    "%CheckOut"@,
                    p.document@,
                    "yes"@,
                    username,
                    password,
                )
            })
        },
    }
}

/// Take up an answer to a pending write dialog at time `now` (see
/// `doc_resume_is`). The dialog leaves the store whatever the answer.
pub fn doc_resume_begin_at(
    eid: &str,
    answer: &str,
    store: &mut ElicitationStore,
    username: &str,
    password: &str,
    now: u64,
) -> (r: DocResume)
    ensures
        final(store)@ == old(store)@.remove(eid@),
        doc_resume_is(r, old(store)@, eid@, answer@, username@, password@, now),
{
    let pending = match store.take_at(eid, now) {
        None => {
            return DocResume::Expired(
                tool_error("ELICITATION_EXPIRED", "Elicitation session expired or not found"),
            );
        },
        Some(p) => p,
    };
    let a = to_ascii_lowercase(answer);
    if !str_eq(a.as_str(), "yes") {
        return DocResume::Declined(tool_error("WRITE_ABORTED", "User declined checkout"));
    }
    let after_code = after_user_action_code(
        "%CheckOut",
        pending.document.as_str(),
        "yes",
        username,
        password,
    );
    let content = String::from_str(str_or_empty(&pending.content));
    DocResume::Finalize {
        after_code,
        document: pending.document,
        namespace: pending.namespace,
        content,
    }
}

/// Take up an answer to a pending write dialog: `doc_resume_begin_at` at the
/// time read from the store's clock. The dialog leaves the store whatever the
/// answer; only `yes` (in any case) goes on to commit the checkout and write
/// the stored content.
pub fn doc_resume_begin(
    eid: &str,
    answer: &str,
    store: &mut ElicitationStore,
    username: &str,
    password: &str,
) -> (r: DocResume)
    ensures
        final(store)@ == old(store)@.remove(eid@),
        exists|t: u64| #[trigger] doc_resume_is(r, old(store)@, eid@, answer@, username@, password@, t),
        !old(store)@.contains_key(eid@) ==> (r matches DocResume::Expired(e) && is_error(
            e,
            "ELICITATION_EXPIRED"@,
            "Elicitation session expired or not found"@,
        )),
{
    let now = store.now();
    let r = doc_resume_begin_at(eid, answer, store, username, password, now);
    assert(doc_resume_is(r, old(store)@, eid@, answer@, username@, password@, now));
    r
}

/// Read the output of the checkout commit (`Err` when it could not run,
/// which does not stop the write): a non-empty first line is the source
/// control's error.
pub fn checkout_commit_error(out: Result<String, String>) -> (r: Option<ToolError>)
    ensures
        match out {
            Err(_) => r is None,
            Ok(o) => if first_line_s(o@).len() == 0 {
                r is None
            } else {
                r matches Some(e) && is_error(e, "SCM_CHECKOUT_FAILED"@, first_line_s(o@))
            },
        },
{
    match out {
        Err(_) => None,
        Ok(o) => {
            let ls = lines(o.as_str());
            let first = if ls.len() > 0 {
                proof {
                    assert(views(ls@)[0] == ls@[0]@);
                }
                trim(ls[0].as_str())
            } else {
                String::new()
            };
            if first.as_str().is_empty() {
                None
            } else {
                Some(ToolError { error_code: String::from_str("SCM_CHECKOUT_FAILED"), error: first })
            }
        },
    }
}

/// The error for an unknown mode, naming it as `{:?}` writes it.
pub fn invalid_mode_error(mode: &str) -> (e: ToolError)
    ensures
        is_error(
            e,
            "INVALID_PARAMS"@,
            "unknown mode "@ + rust_debug_str(mode@)
                + ". Valid: get, put, delete, head, fragment, compiled, list, insert, delete_lines."@,
        ),
{
    let mut m = String::from_str("unknown mode ");
    m.append(debug_str(mode).as_str());
    m.append(". Valid: get, put, delete, head, fragment, compiled, list, insert, delete_lines.");
    ToolError { error_code: String::from_str("INVALID_PARAMS"), error: m }
}

// ---------------------------------------------------------------------------
// Reading and deleting documents
// ---------------------------------------------------------------------------
/// `Document not found: <name>`.
pub fn not_found_error(name: &str) -> (e: ToolError)
    ensures
        is_error(e, "NOT_FOUND"@, "Document not found: "@ + name@),
{
    let mut m = String::from_str("Document not found: ");
    m.append(name);
    ToolError { error_code: String::from_str("NOT_FOUND"), error: m }
}

/// Read the status of a single-document read: 404 is `NOT_FOUND` for the
/// name, another non-2xx status an HTTP error with the trimmed body as hint.
pub fn read_status_error(name: &str, status: u16, hint: &str) -> (r: Option<ToolError>)
    requires
        100 <= status <= 999,
    ensures
        status == 404 ==> (r matches Some(e) && is_error(e, "NOT_FOUND"@, "Document not found: "@ + name@)),
        status != 404 && !is_success_status(status) ==> (r matches Some(e) && e.error_code@
            == http_error_code_s(status) && e.error@ == http_error_message_s(status, trim_s(hint@))),
        is_success_status(status) ==> r is None,
{
    if status == 404 {
        return Some(not_found_error(name));
    }
    if !(200 <= status && status <= 299) {
        let h = trim(hint);
        return Some(http_err_json(status, h.as_str()));
    }
    None
}

/// Read the answer to a single-document delete: as a read, then a 2xx
/// answer with a non-empty `status.errors` is `DELETE_FAILED`.
pub fn delete_status_error(
    name: &str,
    status: u16,
    hint: &str,
    errors: &Option<Vec<Option<String>>>,
) -> (r: Option<ToolError>)
    requires
        100 <= status <= 999,
    ensures
        status == 404 ==> (r matches Some(e) && is_error(e, "NOT_FOUND"@, "Document not found: "@ + name@)),
        status != 404 && !is_success_status(status) ==> (r matches Some(e) && e.error_code@
            == http_error_code_s(status) && e.error@ == http_error_message_s(status, trim_s(hint@))),
        is_success_status(status) ==> match errors {
            Some(v) => if v@.len() > 0 {
                r matches Some(e) && is_error(
                    e,
                    "DELETE_FAILED"@,
                    first_error_s(v@, "Document delete failed"@),
                )
            } else {
                r is None
            },
            None => r is None,
        },
{
    if status == 404 {
        return Some(not_found_error(name));
    }
    answer_error(status, hint, errors, "DELETE_FAILED", "Document delete failed")
}

/// How one request of a batch went.
pub enum BatchAnswer {
    /// The request could not be sent (the error's text).
    NotSent(String),
    /// The answer's status and, for a 2xx answer, the `error` fields of a
    /// `status.errors` array when there is one.
    Answered { status: u16, errors: Option<Vec<Option<String>>> },
}

/// An answer's status, when there is one, is an HTTP status (100..=999).
pub open spec fn valid_answer(a: BatchAnswer) -> bool {
    match a {
        BatchAnswer::Answered { status, .. } => 100 <= status <= 999,
        BatchAnswer::NotSent(_) => true,
    }
}

/// The outcome of a batch delete.
pub struct BatchDelete {
    pub deleted: Vec<String>,
    /// `{"name", "error"}` per failed document.
    pub errors: Vec<(String, String)>,
}

/// The error of one batch delete, if it failed: the send error, `HTTP
/// <status>`, or the first `status.errors` text (default `delete failed`).
pub open spec fn batch_delete_error_s(a: BatchAnswer) -> Option<Seq<char>> {
    match a {
        BatchAnswer::NotSent(e) => Some(e@),
        BatchAnswer::Answered { status, errors } => if !is_success_status(status) {
            Some("HTTP "@ + status_text_s(status))
        } else {
            match errors {
                Some(v) => if v@.len() > 0 {
                    Some(first_error_s(v@, "delete failed"@))
                } else {
                    None
                },
                None => None,
            }
        },
    }
}

/// The deleted names, in order.
pub open spec fn batch_deleted_s(rs: Seq<(String, BatchAnswer)>) -> Seq<Seq<char>>
    decreases rs.len(),
{
    if rs.len() == 0 {
        Seq::empty()
    } else {
        let rest = batch_deleted_s(rs.drop_last());
        if batch_delete_error_s(rs.last().1) is None {
            rest.push(rs.last().0@)
        } else {
            rest
        }
    }
}

/// The failed names and their errors, in order.
pub open spec fn batch_failed_s(rs: Seq<(String, BatchAnswer)>) -> Seq<(Seq<char>, Seq<char>)>
    decreases rs.len(),
{
    if rs.len() == 0 {
        Seq::empty()
    } else {
        let rest = batch_failed_s(rs.drop_last());
        match batch_delete_error_s(rs.last().1) {
            Some(e) => rest.push((rs.last().0@, e)),
            None => rest,
        }
    }
}

/// The name/error pairs as text.
pub open spec fn pair_views(v: Seq<(String, String)>) -> Seq<(Seq<char>, Seq<char>)> {
    Seq::new(v.len(), |i: int| (v[i].0@, v[i].1@))
}

fn batch_delete_error(a: &BatchAnswer) -> (r: Option<String>)
    requires
        valid_answer(*a),
    ensures
        opt_view(r) == batch_delete_error_s(*a),
{
    match a {
        BatchAnswer::NotSent(e) => Some(e.clone()),
        BatchAnswer::Answered { status, errors } => {
            if !(200 <= *status && *status <= 299) {
                let mut m = String::from_str("HTTP ");
                m.append(status_text(*status).as_str());
                return Some(m);
            }
            match errors {
                Some(v) => {
                    if v.len() > 0 {
                        match &v[0] {
                            Some(e) => Some(e.clone()),
                            None => Some(String::from_str("delete failed")),
                        }
                    } else {
                        None
                    }
                },
                None => None,
            }
        },
    }
}

/// Sort the answers of a batch delete, in order, into the deleted names and
/// the failures; the batch succeeded when nothing failed.
pub fn batch_delete(results: &Vec<(String, BatchAnswer)>) -> (r: BatchDelete)
    requires
        forall|i: int|
            0 <= i < results@.len() ==> valid_answer(#[trigger] results@[i].1),
    ensures
        views(r.deleted@) == batch_deleted_s(results@),
        pair_views(r.errors@) == batch_failed_s(results@),
{
    let mut deleted: Vec<String> = Vec::new();
    let mut errors: Vec<(String, String)> = Vec::new();
    let mut i: usize = 0;
    while i < results.len()
        invariant
            0 <= i <= results@.len(),
            forall|j: int|
                0 <= j < results@.len() ==> valid_answer(#[trigger] results@[j].1),
            views(deleted@) == batch_deleted_s(results@.take(i as int)),
            pair_views(errors@) == batch_failed_s(results@.take(i as int)),
        decreases results.len() - i,
    {
        proof {
            assert(results@.take(i + 1).drop_last() == results@.take(i as int));
            assert(results@.take(i + 1).last() == results@[i as int]);
        }
        let (name, ans) = &results[i];
        match batch_delete_error(ans) {
            Some(e) => {
                errors.push((name.clone(), e));
                proof {
                    assert(pair_views(errors@) =~= pair_views(errors@.drop_last()).push(
                        (name@, errors@.last().1@),
                    ));
                }
            },
            None => {
                deleted.push(name.clone());
                proof {
                    assert(views(deleted@) =~= views(deleted@.drop_last()).push(name@));
                }
            },
        }
        i = i + 1;
    }
    proof {
        assert(results@.take(results@.len() as int) == results@);
    }
    BatchDelete { deleted, errors }
}

/// The names in order, each kept only at its first occurrence.
pub open spec fn distinct_s(names: Seq<Seq<char>>) -> Seq<Seq<char>>
    decreases names.len(),
{
    if names.len() == 0 {
        Seq::empty()
    } else {
        let rest = distinct_s(names.drop_last());
        if rest.contains(names.last()) {
            rest
        } else {
            rest.push(names.last())
        }
    }
}

/// The documents a batch read answers for, in request order: a name asked
/// for twice is answered once, at its first place.
pub fn batch_read_order(names: &[String]) -> (r: Vec<String>)
    ensures
        views(r@) == distinct_s(views(names@)),
{
    let ghost nv = views(names@);
    let mut out: Vec<String> = Vec::new();
    let mut i: usize = 0;
    while i < names.len()
        invariant
            nv == views(names@),
            0 <= i <= names@.len(),
            views(out@) == distinct_s(nv.take(i as int)),
        decreases names.len() - i,
    {
        proof {
            assert(nv.take(i + 1).drop_last() == nv.take(i as int));
            assert(nv.take(i + 1).last() == names@[i as int]@);
        }
        let mut seen = false;
        let mut k: usize = 0;
        while k < out.len()
            invariant
                0 <= k <= out@.len(),
                0 <= i < names@.len(),
                seen == exists|j: int| 0 <= j < k && #[trigger] views(out@)[j] == names@[i as int]@,
            decreases out.len() - k,
        {
            proof {
                assert(views(out@)[k as int] == out@[k as int]@);
            }
            if str_eq(out[k].as_str(), names[i].as_str()) {
                seen = true;
            }
            k = k + 1;
        }
        proof {
            let d = views(out@);
            if seen {
                let j = choose|j: int| 0 <= j < out@.len() && #[trigger] views(out@)[j] == names@[i as int]@;
                assert(d[j] == names@[i as int]@);
                assert(d.contains(names@[i as int]@));
            } else {
                assert(!d.contains(names@[i as int]@));
            }
        }
        if !seen {
            out.push(names[i].clone());
            proof {
                assert(views(out@) =~= views(out@.drop_last()).push(names@[i as int]@));
            }
        }
        i = i + 1;
    }
    proof {
        assert(nv.take(nv.len() as int) == nv);
    }
    out
}

/// How one fetch of a batch read went, when it finished.
pub enum BatchRead {
    /// The request failed (the error's text).
    NotSent(String),
    /// The answer's status and, for a 2xx answer, its `result.content` (see
    /// `doc_content_s`).
    Answered { status: u16, content: Option<Vec<Option<String>>> },
}

/// A finished fetch's status, when there is one, is an HTTP status.
pub open spec fn valid_read(a: BatchRead) -> bool {
    match a {
        BatchRead::Answered { status, .. } => 100 <= status <= 999,
        BatchRead::NotSent(_) => true,
    }
}

/// What one document's entry says: `Ok` with its text for a 2xx answer,
/// otherwise `Err` with `HTTP <status>` or the send error.
pub open spec fn read_entry_s(a: BatchRead) -> Result<Seq<char>, Seq<char>> {
    match a {
        BatchRead::NotSent(e) => Err(e@),
        BatchRead::Answered { status, content } => if is_success_status(status) {
            Ok(doc_content_s(
                match content {
                    Some(v) => Some(v@),
                    None => None,
                },
            ))
        } else {
            Err("HTTP "@ + status_text_s(status))
        },
    }
}

/// The last finished fetch for `name`: fetches finish in any order, and a
/// later one for the same name replaces an earlier one.
pub open spec fn last_fetch_s(finished: Seq<(String, BatchRead)>, name: Seq<char>) -> Option<
    BatchRead,
>
    decreases finished.len(),
{
    if finished.len() == 0 {
        None
    } else if finished.last().0@ == name {
        Some(finished.last().1)
    } else {
        last_fetch_s(finished.drop_last(), name)
    }
}

/// One entry per name of `order` that some finished fetch answers, in that
/// order; a name whose fetch was aborted has none.
pub open spec fn batch_read_entries_s(
    order: Seq<Seq<char>>,
    finished: Seq<(String, BatchRead)>,
) -> Seq<(Seq<char>, Result<Seq<char>, Seq<char>>)>
    decreases order.len(),
{
    if order.len() == 0 {
        Seq::empty()
    } else {
        let rest = batch_read_entries_s(order.drop_last(), finished);
        match last_fetch_s(finished, order.last()) {
            Some(a) => rest.push((order.last(), read_entry_s(a))),
            None => rest,
        }
    }
}

/// The entries as text.
pub open spec fn entry_views(v: Seq<(String, Result<String, String>)>) -> Seq<
    (Seq<char>, Result<Seq<char>, Seq<char>>),
> {
    Seq::new(
        v.len(),
        |i: int|
            (
                v[i].0@,
                match v[i].1 {
                    Ok(c) => Ok(c@),
                    Err(e) => Err(e@),
                },
            ),
    )
}

fn last_fetch(finished: &Vec<(String, BatchRead)>, name: &str) -> (r: Option<usize>)
    ensures
        match r {
            Some(k) => k < finished@.len() && last_fetch_s(finished@, name@) == Some(
                finished@[k as int].1,
            ),
            None => last_fetch_s(finished@, name@) is None,
        },
{
    let mut k: usize = finished.len();
    proof {
        assert(finished@.take(finished@.len() as int) =~= finished@);
    }
    while k > 0
        invariant
            k <= finished@.len(),
            last_fetch_s(finished@, name@) == last_fetch_s(finished@.take(k as int), name@),
        decreases k,
    {
        proof {
            assert(finished@.take(k as int).drop_last() == finished@.take(k - 1));
            assert(finished@.take(k as int).last() == finished@[k - 1]);
        }
        if str_eq(finished[k - 1].0.as_str(), name) {
            return Some(k - 1);
        }
        k = k - 1;
    }
    None
}

fn read_entry(a: &BatchRead) -> (r: Result<String, String>)
    requires
        valid_read(*a),
    ensures
        match r {
            Ok(c) => read_entry_s(*a) == Ok::<Seq<char>, Seq<char>>(c@),
            Err(e) => read_entry_s(*a) == Err::<Seq<char>, Seq<char>>(e@),
        },
{
    match a {
        BatchRead::NotSent(e) => Err(e.clone()),
        BatchRead::Answered { status, content } => {
            if 200 <= *status && *status <= 299 {
                Ok(doc_content_to_string(content))
            } else {
                let mut m = String::from_str("HTTP ");
                m.append(status_text(*status).as_str());
                Err(m)
            }
        },
    }
}

/// The entries of a batch read: for each document asked for (each name
/// once, at its first place), the last finished fetch for it gives its text
/// or its error; a document whose fetch was aborted is left out.
pub fn batch_read_entries(names: &[String], finished: &Vec<(String, BatchRead)>) -> (r: Vec<
    (String, Result<String, String>),
>)
    requires
        forall|i: int| 0 <= i < finished@.len() ==> valid_read(#[trigger] finished@[i].1),
    ensures
        entry_views(r@) == batch_read_entries_s(distinct_s(views(names@)), finished@),
{
    let order = batch_read_order(names);
    let ghost ov = views(order@);
    let mut out: Vec<(String, Result<String, String>)> = Vec::new();
    let mut i: usize = 0;
    while i < order.len()
        invariant
            ov == views(order@),
            ov == distinct_s(views(names@)),
            0 <= i <= order@.len(),
            forall|j: int| 0 <= j < finished@.len() ==> valid_read(#[trigger] finished@[j].1),
            entry_views(out@) == batch_read_entries_s(ov.take(i as int), finished@),
        decreases order.len() - i,
    {
        proof {
            assert(ov.take(i + 1).drop_last() == ov.take(i as int));
            assert(ov.take(i + 1).last() == order@[i as int]@);
        }
        match last_fetch(finished, order[i].as_str()) {
            Some(k) => {
                let e = read_entry(&finished[k].1);
                let ghost before = out@;
                out.push((order[i].clone(), e));
                proof {
                    assert(entry_views(out@) =~= entry_views(before).push(
                        (order@[i as int]@, read_entry_s(finished@[k as int].1)),
                    ));
                }
            },
            None => {},
        }
        i = i + 1;
    }
    proof {
        assert(ov.take(order@.len() as int) == ov);
    }
    out
}

// ---------------------------------------------------------------------------
// mode=fragment
// ---------------------------------------------------------------------------
/// A fragment read that passed its checks.
pub struct FragmentRequest {
    pub name: String,
    /// The start, raised to 1.
    pub start: i64,
    pub end: i64,
}

/// The checks of mode=fragment: a name, a start (raised to 1), an end, and
/// the end not before the start.
pub fn plan_fragment(p: &IrisDocParams) -> (r: Result<FragmentRequest, ToolError>)
    ensures
        ({
            let nm = match p.name {
                Some(n) => Some(n@),
                None => None,
            };
            if nm is None || trim_s(nm->0).len() == 0 {
                r matches Err(e) && e.error_code@ == "MISSING_PARAMS"@
            } else if p.start is None {
                r matches Err(e) && is_error(
                    e,
                    "MISSING_PARAMS"@,
                    "start is required for mode=fragment"@,
                )
            } else if p.end is None {
                r matches Err(e) && is_error(e, "MISSING_PARAMS"@, "end is required for mode=fragment"@)
            } else {
                let s = max_s(p.start->0 as int, 1);
                let e = p.end->0 as int;
                if e < s {
                    r matches Err(x) && is_error(x, "INVALID_PARAMS"@, order_msg_s(s, e))
                } else {
                    r matches Ok(q) && q.name@ == trim_s(nm->0) && q.start == s && q.end == e
                }
            }
        }),
{
    let name = match &p.name {
        Some(n) => require_name(Some(n.as_str()), "fragment"),
        None => require_name(None, "fragment"),
    };
    let name = name?;
    let start = match p.start {
        Some(v) => if v < 1 {
            1
        } else {
            v
        },
        None => {
            return Err(tool_error("MISSING_PARAMS", "start is required for mode=fragment"));
        },
    };
    let end = match p.end {
        Some(v) => v,
        None => {
            return Err(tool_error("MISSING_PARAMS", "end is required for mode=fragment"));
        },
    };
    if end < start {
        return Err(order_error(start, end));
    }
    Ok(FragmentRequest { name, start, end })
}

/// The lines of a fragment read: `slice_lines` over the document, and the
/// document's length.
pub fn fragment_lines(req: &FragmentRequest, all_lines: &[String]) -> (r: (Vec<String>, i64, i64, bool, i64))
    requires
        1 <= req.start <= req.end,
        all_lines@.len() <= i64::MAX,
    ensures
        (r.0@, r.1 as int, r.2 as int, r.3) == slice_lines_s(all_lines@, req.start as int, req.end as int),
        r.4 == all_lines@.len(),
{
    let (l, s, e, c) = slice_lines(all_lines, req.start, req.end);
    (l, s, e, c, all_lines.len() as i64)
}

// ---------------------------------------------------------------------------
// mode=compiled
// ---------------------------------------------------------------------------
/// A compiled-form read that passed its checks.
pub struct CompiledRequest {
    pub name: String,
    pub routine: String,
    /// The ObjectScript that writes the routine's INT lines, then `DONE`.
    pub code: String,
}

pub const COMPILED_A: &'static str = " Set rtn = ##class(%Library.Routine).%OpenId(\"";

pub const COMPILED_C: &'static str = ".INT\")\n If rtn = \"\" { Write \"NOT_COMPILED\",$C(10)  Quit }\n Do rtn.Rewind()\n While 'rtn.AtEnd { Write rtn.ReadLine(),$C(10) }\n Write \"DONE\",$C(10)";

/// The checks of mode=compiled: a name; not an include file; a compiled
/// type, if given, of `INT` (in any case); a routine name for the document.
pub fn plan_compiled(p: &IrisDocParams) -> (r: Result<CompiledRequest, ToolError>)
    ensures
        r matches Ok(q) ==> p.name is Some && q.name@ == trim_s(p.name->0@) && !has_suffix(
            lower_s(q.name@),
            ".inc"@,
        ) && (p.compiled_type matches Some(ct) ==> unicode_upper(ct@) == "INT"@) && Some(q.routine@)
            == derive_routine_name_s(q.name@) && q.code@ == COMPILED_A@ + q.routine@ + COMPILED_C@,
        r matches Err(e) ==> (p.name is None || trim_s(p.name->0@).len() == 0) || ({
            let n = trim_s(p.name->0@);
            if has_suffix(lower_s(n), ".inc"@) {
                is_error(e, "NOT_COMPILED"@, "Include files (.INC) do not compile to INT form"@)
            } else {
                p.compiled_type matches Some(ct) && unicode_upper(ct@) != "INT"@ && is_error(
                    e,
                    "INVALID_PARAMS"@,
                    "compiled_type '"@ + ct@ + "' not supported; only 'INT' is supported in v1"@,
                )
            }
        }),
{
    let name = match &p.name {
        Some(n) => require_name(Some(n.as_str()), "compiled"),
        None => require_name(None, "compiled"),
    };
    let name = name?;
    let lower = to_ascii_lowercase(name.as_str());
    if ends_with(lower.as_str(), ".inc") {
        return Err(tool_error("NOT_COMPILED", "Include files (.INC) do not compile to INT form"));
    }
    if let Some(ct) = &p.compiled_type {
        let up = to_uppercase(ct.as_str());
        if !str_eq(up.as_str(), "INT") {
            let mut m = String::from_str("compiled_type '");
            m.append(ct.as_str());
            m.append("' not supported; only 'INT' is supported in v1");
            return Err(ToolError { error_code: String::from_str("INVALID_PARAMS"), error: m });
        }
    }
    let routine = match derive_routine_name(name.as_str()) {
        Some(r) => r,
        None => {
            proof {
                assert(false);
            }
            return Err(
                tool_error("NOT_COMPILED", "Cannot determine routine name for this document type"),
            );
        },
    };
    let mut code = String::from_str(COMPILED_A);
    code.append(routine.as_str());
    code.append(COMPILED_C);
    Ok(CompiledRequest { name, routine, code })
}

/// The lines before the first whose trim is `DONE`.
pub open spec fn until_done(ls: Seq<Seq<char>>) -> Seq<Seq<char>>
    decreases ls.len(),
{
    if ls.len() == 0 || trim_s(ls[0]) == "DONE"@ {
        Seq::empty()
    } else {
        seq![ls[0]] + until_done(ls.drop_first())
    }
}

/// Read the compiled-form snippet's output (`Err` when it could not run):
/// `NOT_COMPILED` first means there is no INT form; otherwise the lines up
/// to `DONE` are the routine, joined with newlines, and counted.
pub fn compiled_content(name: &str, output: Result<String, String>) -> (r: Result<(String, i64), ToolError>)
    requires
        output matches Ok(o) ==> o@.len() <= i64::MAX,
    ensures
        match output {
            Err(e) => r matches Err(x) && is_error(x, "IRIS_EXECUTE_ERROR"@, e@),
            Ok(o) => if first_line_s(o@) == "NOT_COMPILED"@ {
                r matches Err(x) && is_error(
                    x,
                    "NOT_COMPILED"@,
                    "No compiled INT form found for '"@ + name@ + "'"@,
                )
            } else {
                r matches Ok((content, total)) && content@ == join_s(until_done(lines_s(o@)), "\n"@)
                    && total == until_done(lines_s(o@)).len()
            },
        },
{
    let o = match output {
        Err(e) => {
            return Err(ToolError { error_code: String::from_str("IRIS_EXECUTE_ERROR"), error: e });
        },
        Ok(o) => o,
    };
    let ls = lines(o.as_str());
    let ghost lv = lines_s(o@);
    let first = if ls.len() > 0 {
        proof {
            assert(views(ls@)[0] == ls@[0]@);
        }
        trim(ls[0].as_str())
    } else {
        String::new()
    };
    if str_eq(first.as_str(), "NOT_COMPILED") {
        let mut m = String::from_str("No compiled INT form found for '");
        m.append(name);
        m.append("'");
        return Err(ToolError { error_code: String::from_str("NOT_COMPILED"), error: m });
    }
    let mut kept: Vec<String> = Vec::new();
    let mut i: usize = 0;
    let mut done = false;
    proof {
        lemma_lines_len_bound(o@);
        assert(lv.skip(0) == lv);
    }
    while i < ls.len() && !done
        invariant
            views(ls@) == lv,
            lv.len() <= o@.len() + 1,
            o@.len() <= i64::MAX,
            0 <= i <= ls@.len(),
            !done ==> views(kept@) + until_done(lv.skip(i as int)) == until_done(lv),
            done ==> views(kept@) == until_done(lv),
            kept@.len() == i,
        decreases ls.len() - i, (if done { 0int } else { 1int }),
    {
        let t = trim(ls[i].as_str());
        proof {
            assert(lv.skip(i as int)[0] == ls@[i as int]@);
            assert(lv.skip(i as int).drop_first() == lv.skip(i + 1));
        }
        if str_eq(t.as_str(), "DONE") {
            done = true;
        } else {
            kept.push(ls[i].clone());
            proof {
                assert(views(kept@) =~= views(kept@.drop_last()).push(ls@[i as int]@));
            }
            i = i + 1;
        }
    }
    proof {
        if !done {
            assert(lv.skip(i as int).len() == 0);
        }
    }
    let content = join(kept.as_slice(), "\n");
    Ok((content, kept.len() as i64))
}

// ---------------------------------------------------------------------------
// mode=list
// ---------------------------------------------------------------------------
/// A listing that passed its checks.
pub struct ListRequest {
    pub pattern: String,
    /// The regular expression the pattern becomes.
    pub regex: String,
    /// The categories to fetch, in order.
    pub categories: Vec<String>,
    pub max_results: i64,
}

/// The categories fetched for a (valid, upper-cased) category filter.
pub open spec fn list_categories_s(category: Seq<char>) -> Seq<Seq<char>> {
    if category == "ALL"@ {
        seq!["CLS"@, "MAC"@, "INT"@, "INC"@]
    } else {
        seq![category]
    }
}

/// Whether a category filter is one of CLS, MAC, INT, INC, ALL.
pub open spec fn category_ok(c: Seq<char>) -> bool {
    c == "CLS"@ || c == "MAC"@ || c == "INT"@ || c == "INC"@ || c == "ALL"@
}

/// The checks of mode=list, in order: a pattern; a non-wildcard prefix; a
/// known category (upper-cased; default ALL); then the pattern must become
/// a valid regular expression. The limit is clamped to 1..=1000 (default
/// 200).
pub fn plan_list(p: &IrisDocParams) -> (r: Result<ListRequest, ToolError>)
    ensures
        p.pattern is None ==> (r matches Err(e) && is_error(
            e,
            "MISSING_PARAMS"@,
            "pattern is required for mode=list"@,
        )),
        p.pattern matches Some(pat) ==> {
            let cat = unicode_upper(
                match p.category {
                    Some(c) => c@,
                    None => "ALL"@,
                },
            );
            let re = glob_to_regex_s(pat@);
            if !list_pattern_ok(pat@) {
                r matches Err(e) && is_error(
                    e,
                    "MISSING_PARAMS"@,
                    "pattern must have a non-wildcard prefix (e.g. 'User.*', 'MyApp.*.cls')"@,
                )
            } else if !category_ok(cat) {
                r matches Err(e) && is_error(
                    e,
                    "INVALID_PARAMS"@,
                    "category '"@ + cat + "' not valid; use CLS, MAC, INT, INC, or ALL"@,
                )
            } else if regex_compile_error(re) is Some {
                r matches Err(e) && is_error(
                    e,
                    "INVALID_PARAMS"@,
                    "invalid pattern '"@ + pat@ + "': "@ + regex_compile_error(re)->0,
                )
            } else {
                r matches Ok(q) && q.pattern@ == pat@ && q.regex@ == re && views(q.categories@)
                    == list_categories_s(cat) && q.max_results == (match p.max_results {
                    Some(m) => if m < 1 {
                        1
                    } else if m > 1000 {
                        1000
                    } else {
                        m
                    },
                    None => 200,
                })
            }
        },
{
    let pattern = match &p.pattern {
        Some(pat) => pat,
        None => {
            return Err(tool_error("MISSING_PARAMS", "pattern is required for mode=list"));
        },
    };
    validate_list_pattern(pattern.as_str())?;
    let category = match &p.category {
        Some(c) => to_uppercase(c.as_str()),
        None => to_uppercase("ALL"),
    };
    let c = category.as_str();
    let known = str_eq(c, "CLS") || str_eq(c, "MAC") || str_eq(c, "INT") || str_eq(c, "INC")
        || str_eq(c, "ALL");
    if !known {
        let mut m = String::from_str("category '");
        m.append(c);
        m.append("' not valid; use CLS, MAC, INT, INC, or ALL");
        return Err(ToolError { error_code: String::from_str("INVALID_PARAMS"), error: m });
    }
    let max_results = clamp_max_results(
        match p.max_results {
            Some(m) => m,
            None => 200,
        },
    );
    let regex = glob_to_regex(pattern.as_str());
    if let Some(e) = regex_error(regex.as_str()) {
        let mut m = String::from_str("invalid pattern '");
        m.append(pattern.as_str());
        m.append("': ");
        m.append(e.as_str());
        return Err(ToolError { error_code: String::from_str("INVALID_PARAMS"), error: m });
    }
    let mut categories: Vec<String> = Vec::new();
    if str_eq(c, "ALL") {
        categories.push(String::from_str("CLS"));
        categories.push(String::from_str("MAC"));
        categories.push(String::from_str("INT"));
        categories.push(String::from_str("INC"));
    } else {
        categories.push(String::from_str(c));
    }
    proof {
        assert(views(categories@) =~= list_categories_s(category@));
    }
    Ok(ListRequest { pattern: pattern.clone(), regex, categories, max_results })
}

/// `failed to fetch <cat> docnames: <error>` (`SERVER_ERROR`).
pub fn docnames_fetch_error(category: &str, error: &str) -> (e: ToolError)
    ensures
        is_error(e, "SERVER_ERROR"@, "failed to fetch "@ + category@ + " docnames: "@ + error@),
{
    let mut m = String::from_str("failed to fetch ");
    m.append(category);
    m.append(" docnames: ");
    m.append(error);
    ToolError { error_code: String::from_str("SERVER_ERROR"), error: m }
}

/// A document name entry: its `name` when a string, and its `cat` and `ts`
/// values carried through.
pub struct DocNameEntry {
    pub name: Option<String>,
    pub cat: Option<serde_json::Value>,
    pub ts: Option<serde_json::Value>,
}

/// Whether an entry's name matches the listing's expression.
pub open spec fn entry_matches(re: Seq<char>, e: DocNameEntry) -> bool {
    match e.name {
        Some(n) => regex_is_match_result(re, n@) == Some(true),
        None => false,
    }
}

/// The matching entries, in order.
pub open spec fn matching_entries(re: Seq<char>, es: Seq<DocNameEntry>) -> Seq<DocNameEntry>
    decreases es.len(),
{
    if es.len() == 0 {
        Seq::empty()
    } else {
        let rest = matching_entries(re, es.drop_last());
        if entry_matches(re, es.last()) {
            rest.push(es.last())
        } else {
            rest
        }
    }
}

/// The listing: the entries whose name matches, the first `max_results` of
/// them, and whether any were cut.
pub fn list_documents(req: &ListRequest, entries: Vec<DocNameEntry>) -> (r: (Vec<DocNameEntry>, bool))
    requires
        1 <= req.max_results,
    ensures
        ({
            let m = matching_entries(req.regex@, entries@);
            &&& r.1 == (m.len() > req.max_results)
            &&& r.0@ == if m.len() > req.max_results {
                m.take(req.max_results as int)
            } else {
                m
            }
        }),
{
    let ghost es = entries@;
    let mut matched: Vec<DocNameEntry> = Vec::new();
    let mut entries = entries;
    let ghost mut done: int = 0;
    while entries.len() > 0
        invariant
            0 <= done <= es.len(),
            entries@ == es.skip(done),
            matched@ == matching_entries(req.regex@, es.take(done)),
        decreases entries.len(),
    {
        let e = entries.remove(0);
        proof {
            assert(e == es[done]);
            assert(es.take(done + 1).drop_last() == es.take(done));
        }
        let keep = match &e.name {
            Some(n) => match regex_is_match(req.regex.as_str(), n.as_str()) {
                Some(b) => b,
                None => false,
            },
            None => false,
        };
        if keep {
            matched.push(e);
        }
        proof {
            done = done + 1;
            assert(entries@ =~= es.skip(done));
        }
    }
    proof {
        assert(es.take(done) == es);
    }
    let max = req.max_results as u64;
    let truncated = matched.len() as u64 > max;
    if truncated {
        matched.truncate(max as usize);
    }
    (matched, truncated)
}

// ---------------------------------------------------------------------------
// iris_execute_method
// ---------------------------------------------------------------------------
/// Whether a class or method name holds `{`, `}` or `;`.
pub open spec fn has_injection_char(s: Seq<char>) -> bool {
    exists|i: int| 0 <= i < s.len() && (s[i] == '{' || s[i] == '}' || s[i] == ';')
}

/// The arguments as ObjectScript string literals, comma-separated.
pub open spec fn args_csv_s(args: Seq<Seq<char>>) -> Seq<char>
    decreases args.len(),
{
    if args.len() == 0 {
        Seq::empty()
    } else if args.len() == 1 {
        "\""@ + dq_s(args[0]) + "\""@
    } else {
        args_csv_s(args.drop_last()) + ","@ + "\""@ + dq_s(args.last()) + "\""@
    }
}

/// The snippet that calls `class.method(args)` and writes the result.
pub open spec fn execute_method_code_s(class: Seq<char>, method: Seq<char>, args: Seq<Seq<char>>) -> Seq<char> {
    " Set result = ##class("@ + class + ")."@ + method + "("@ + args_csv_s(args) + ")\n Write result,$C(10)"@
}

fn has_injection(s: &str) -> (r: bool)
    ensures
        r == has_injection_char(s@),
{
    let v = chars_of(s);
    let mut i: usize = 0;
    while i < v.len()
        invariant
            0 <= i <= v@.len(),
            v@ == s@,
            forall|j: int| 0 <= j < i ==> !(v@[j] == '{' || v@[j] == '}' || v@[j] == ';'),
        decreases v.len() - i,
    {
        if v[i] == '{' || v[i] == '}' || v[i] == ';' {
            return true;
        }
        i = i + 1;
    }
    false
}

/// The snippet of a method call: refused when the class or the method name
/// holds `{`, `}` or `;`; each argument becomes a quoted literal.
pub fn execute_method_code(class: &str, method: &str, args: &[String]) -> (r: Result<String, ToolError>)
    ensures
        has_injection_char(class@) || has_injection_char(method@) ==> (r matches Err(e) && is_error(
            e,
            "INVALID_PARAMS"@,
            "class and method names must not contain '{', '}', or ';'"@,
        )),
        !has_injection_char(class@) && !has_injection_char(method@) ==> (r matches Ok(c) && c@
            == execute_method_code_s(class@, method@, views(args@))),
{
    if has_injection(class) || has_injection(method) {
        return Err(
            tool_error("INVALID_PARAMS", "class and method names must not contain '{', '}', or ';'"),
        );
    }
    let mut csv = String::new();
    let ghost av = views(args@);
    let mut i: usize = 0;
    proof {
        reveal_strlit("");
    }
    while i < args.len()
        invariant
            av == views(args@),
            0 <= i <= args@.len(),
            csv@ == args_csv_s(av.take(i as int)),
        decreases args.len() - i,
    {
        proof {
            assert(av.take(i + 1).drop_last() == av.take(i as int));
            assert(av.take(i + 1).last() == args@[i as int]@);
        }
        if i > 0 {
            csv.append(",");
        }
        csv.append("\"");
        csv.append(replace_char(args[i].as_str(), '"', "\"\"").as_str());
        csv.append("\"");
        proof {
            if i == 0 {
                assert(av.take(1)[0] == args@[0]@);
            }
        }
        i = i + 1;
    }
    proof {
        assert(av.take(av.len() as int) == av);
    }
    let mut code = String::from_str(" Set result = ##class(");
    code.append(class);
    code.append(").");
    code.append(method);
    code.append("(");
    code.append(csv.as_str());
    code.append(")\n Write result,$C(10)");
    Ok(code)
}

/// Strip one leading `prefix`, if there.
pub open spec fn strip_prefix_s(s: Seq<char>, prefix: Seq<char>) -> Option<Seq<char>> {
    if has_prefix(s, prefix) {
        Some(s.skip(prefix.len() as int))
    } else {
        None
    }
}

/// Read a method call's output (`Err` when it could not run): trimmed, a
/// leading `ERROR: ` reports the error that follows; otherwise the return
/// value is the first line, as written.
pub fn execute_method_result(output: Result<String, String>) -> (r: Result<String, ToolError>)
    ensures
        match output {
            Err(e) => r matches Err(x) && is_error(x, "IRIS_EXECUTE_ERROR"@, e@),
            Ok(o) => match strip_prefix_s(trim_s(o@), "ERROR: "@) {
                Some(rest) => r matches Err(x) && is_error(x, "IRIS_EXECUTE_ERROR"@, trim_s(rest)),
                None => r matches Ok(v) && v@ == (if lines_s(o@).len() > 0 {
                    lines_s(o@)[0]
                } else {
                    Seq::empty()
                }),
            },
        },
{
    let o = match output {
        Err(e) => {
            return Err(ToolError { error_code: String::from_str("IRIS_EXECUTE_ERROR"), error: e });
        },
        Ok(o) => o,
    };
    let t = trim(o.as_str());
    let tv = chars_of(t.as_str());
    proof {
        reveal_strlit("ERROR: ");
    }
    if starts_with(t.as_str(), "ERROR: ") {
        let rest = string_of(&tv, 7, tv.len());
        return Err(
            ToolError {
                error_code: String::from_str("IRIS_EXECUTE_ERROR"),
                error: trim(rest.as_str()),
            },
        );
    }
    let ls = lines(o.as_str());
    if ls.len() > 0 {
        proof {
            assert(views(ls@)[0] == ls@[0]@);
        }
        Ok(ls[0].clone())
    } else {
        Ok(String::new())
    }
}

} // verus!
