//! `compile`: which document a target names, the CompileAll snippet, and the
//! report lines.
use vstd::prelude::*;
use crate::text::{
    chars_of, string_of, trim, trim_s, trim_start, trim_start_s, lines, lines_s, views, has_prefix,
    has_suffix, starts_with, ends_with, str_eq, is_ws, is_whitespace, replace_char, replace_char_s,
    lead_count,
};

use crate::tools::doc::first_error_s;

verus! {

/// Options of the `compile` subcommand.
pub struct CompileCommand {
    pub target: Option<String>,
    pub host: Option<String>,
    pub web_port: u16,
    pub namespace: String,
    pub username: Option<String>,
    pub password: Option<String>,
    pub flags: String,
    pub force_writable: bool,
    pub format: String,
}

/// Number of leading characters that are not whitespace.
pub open spec fn word_len(s: Seq<char>) -> nat
    decreases s.len(),
{
    if s.len() > 0 && !is_ws(s[0]) {
        1 + word_len(s.drop_first())
    } else {
        0
    }
}

/// The second whitespace-separated word of a line starting (after
/// whitespace) with `Class `.
pub open spec fn class_word_s(line: Seq<char>) -> Option<Seq<char>> {
    let rest = trim_start_s(trim_start_s(line).skip(6));
    if rest.len() == 0 {
        None
    } else {
        Some(rest.take(word_len(rest) as int))
    }
}

/// The first line that starts (after whitespace) with `Class `.
pub open spec fn class_line_s(ls: Seq<Seq<char>>) -> Option<Seq<char>>
    decreases ls.len(),
{
    if ls.len() == 0 {
        None
    } else if has_prefix(trim_start_s(ls[0]), "Class "@) {
        Some(ls[0])
    } else {
        class_line_s(ls.drop_first())
    }
}

/// `str::trim_end_matches(p)` for a non-empty `p`.
pub open spec fn strip_all_suffix(s: Seq<char>, p: Seq<char>) -> Seq<char>
    decreases s.len(),
{
    if p.len() > 0 && has_suffix(s, p) {
        strip_all_suffix(s.take(s.len() - p.len()), p)
    } else {
        s
    }
}

/// The class a `.cls` path names when its text declares none: the path
/// without its `.cls` suffixes, `/` and `\` turned into `.`, leading `.`s
/// removed.
pub open spec fn path_class_s(target: Seq<char>) -> Seq<char> {
    let d = replace_char_s(
        replace_char_s(strip_all_suffix(target, ".cls"@), '/', "."@),
        '\\',
        "."@,
    );
    d.skip(lead_count(d, '.') as int)
}

/// The class a `.cls` file defines: the word after `Class` on its first
/// `Class ` line, else the class its path names.
pub open spec fn cls_class_name_s(target: Seq<char>, text: Seq<char>) -> Seq<char> {
    match class_line_s(lines_s(text)) {
        Some(l) => match class_word_s(l) {
            Some(w) => w,
            None => path_class_s(target),
        },
        None => path_class_s(target),
    }
}

fn word_end(v: &[char], from: usize) -> (k: usize)
    requires
        from <= v@.len(),
    ensures
        from <= k <= v@.len(),
        k - from == word_len(v@.skip(from as int)),
    decreases v@.len() - from,
{
    if from < v.len() && !is_whitespace(v[from]) {
        proof {
            assert(v@.skip(from as int).drop_first() == v@.skip(from + 1));
        }
        word_end(v, from + 1)
    } else {
        from
    }
}

fn strip_cls_suffixes(v: &[char], to: usize) -> (k: usize)
    requires
        to <= v@.len(),
    ensures
        k <= to,
        v@.take(k as int) == strip_all_suffix(v@.take(to as int), ".cls"@),
    decreases to,
{
    proof {
        reveal_strlit(".cls");
    }
    if to >= 4 && v[to - 4] == '.' && v[to - 3] == 'c' && v[to - 2] == 'l' && v[to - 1] == 's' {
        proof {
            assert(v@.take(to as int).skip(to - 4) == ".cls"@);
            assert(v@.take(to as int).take(to - 4) == v@.take(to - 4));
        }
        strip_cls_suffixes(v, to - 4)
    } else {
        proof {
            if has_suffix(v@.take(to as int), ".cls"@) {
                let t = v@.take(to as int);
                assert(t.skip(to - 4)[0] == v@[to - 4]);
                assert(t.skip(to - 4)[1] == v@[to - 3]);
                assert(t.skip(to - 4)[2] == v@[to - 2]);
                assert(t.skip(to - 4)[3] == v@[to - 1]);
            }
        }
        to
    }
}

/// The class a path names: suffixes `.cls` dropped, separators made `.`,
/// leading `.`s dropped.
pub fn path_class(target: &str) -> (r: String)
    ensures
        r@ == path_class_s(target@),
{
    let v = chars_of(target);
    let k = strip_cls_suffixes(&v, v.len());
    proof {
        assert(v@.take(v@.len() as int) == v@);
    }
    let base = string_of(&v, 0, k);
    assert(base@ == v@.take(k as int));
    let a = replace_char(base.as_str(), '/', ".");
    let d = replace_char(a.as_str(), '\\', ".");
    let dv = chars_of(d.as_str());
    let mut i: usize = 0;
    while i < dv.len() && dv[i] == '.'
        invariant
            0 <= i <= dv@.len(),
            forall|j: int| 0 <= j < i ==> dv@[j] == '.',
        decreases dv.len() - i,
    {
        i = i + 1;
    }
    proof {
        crate::text::lemma_lead_count(dv@, '.', i as int);
    }
    string_of(&dv, i, dv.len())
}

/// The class a `.cls` file at `target` with text `text` defines.
pub fn cls_class_name(target: &str, text: &str) -> (r: String)
    ensures
        r@ == cls_class_name_s(target@, text@),
{
    let ls = lines(text);
    let ghost lv = lines_s(text@);
    let mut i: usize = 0;
    assert(lv.skip(0) == lv);
    while i < ls.len()
        invariant
            views(ls@) == lv,
            lv == lines_s(text@),
            0 <= i <= ls@.len(),
            class_line_s(lv) == class_line_s(lv.skip(i as int)),
        decreases ls.len() - i,
    {
        proof {
            assert(lv.skip(i as int)[0] == ls@[i as int]@);
            assert(lv.skip(i as int).drop_first() == lv.skip(i + 1));
        }
        let t = trim_start(ls[i].as_str());
        if starts_with(t.as_str(), "Class ") {
            let tv = chars_of(t.as_str());
            proof {
                reveal_strlit("Class ");
                assert(tv@.len() >= 6);
            }
            let after = string_of(&tv, 6, tv.len());
            let rest = trim_start(after.as_str());
            let rv = chars_of(rest.as_str());
            if rv.len() == 0 {
                return path_class(target);
            }
            let e = word_end(&rv, 0);
            proof {
                assert(rv@.skip(0) == rv@);
            }
            return string_of(&rv, 0, e);
        }
        i = i + 1;
    }
    path_class(target)
}

/// The document a `.cls` file is uploaded as.
pub fn cls_document_name(target: &str, text: &str) -> (r: String)
    ensures
        r@ == cls_class_name_s(target@, text@) + ".cls"@,
{
    let mut r = cls_class_name(target, text);
    r.append(".cls");
    r
}

/// What a compile target asks for.
pub enum CompileTarget {
    /// Upload the `.cls` file at this path, then compile it.
    ClsFile(String),
    /// Compile everything in the namespace.
    All,
    /// Compile the document of this name.
    Document(String),
}

/// The target's kind: a `.cls` path, `.` (everything, the default), or a
/// document name.
pub fn compile_target(target: &Option<String>) -> (r: CompileTarget)
    ensures
        ({
            let t = match target {
                Some(s) => s@,
                None => "."@,
            };
            if has_suffix(t, ".cls"@) {
                r matches CompileTarget::ClsFile(p) && p@ == t
            } else if t == "."@ {
                r is All
            } else {
                r matches CompileTarget::Document(d) && d@ == t
            }
        }),
{
    let t = match target {
        Some(s) => s.clone(),
        None => String::from_str("."),
    };
    if ends_with(t.as_str(), ".cls") {
        CompileTarget::ClsFile(t)
    } else if str_eq(t.as_str(), ".") {
        CompileTarget::All
    } else {
        CompileTarget::Document(t)
    }
}

/// The snippet that compiles everything with `flags` and writes `OK` or the
/// error text.
pub open spec fn compile_all_code_s(flags: Seq<char>) -> Seq<char> {
    "Set sc=$SYSTEM.OBJ.CompileAll(\""@ + flags
        + "\") If $System.Status.IsOK(sc) {Write \"OK\"} Else {Write $System.Status.GetErrorText(sc)}"@
}

/// The CompileAll snippet.
pub fn compile_all_code(flags: &str) -> (r: String)
    ensures
        r@ == compile_all_code_s(flags@),
{
    let mut r = String::from_str("Set sc=$SYSTEM.OBJ.CompileAll(\"");
    r.append(flags);
    r.append(
        "\") If $System.Status.IsOK(sc) {Write \"OK\"} Else {Write $System.Status.GetErrorText(sc)}",
    );
    r
}

/// Read CompileAll's output: trimmed, ending in `OK` means success;
/// otherwise the trimmed output is the error.
pub fn compile_all_outcome(out: &str) -> (r: Result<(), String>)
    ensures
        has_suffix(trim_s(out@), "OK"@) <==> r is Ok,
        r matches Err(e) ==> e@ == trim_s(out@),
{
    let t = trim(out);
    if ends_with(t.as_str(), "OK") {
        Ok(())
    } else {
        Err(t)
    }
}

/// `Upload failed: HTTP <status>`.
pub fn upload_failed_msg(status_text: &str) -> (r: String)
    ensures
        r@ == "Upload failed: HTTP "@ + status_text@,
{
    let mut r = String::from_str("Upload failed: HTTP ");
    r.append(status_text);
    r
}

/// Read the `status.errors` of the upload's reply, given as `None` when it
/// is not an array and otherwise as each entry's `error` text (`None` where
/// that is not a string): a non-empty array means the upload failed
/// (`UPLOAD_FAILED`), with the first entry's text or `Upload failed`.
pub fn upload_reply_error(errors: &Option<Vec<Option<String>>>) -> (r: Option<String>)
    ensures
        match errors {
            Some(v) => if v@.len() > 0 {
                r matches Some(m) && m@ == first_error_s(v@, "Upload failed"@)
            } else {
                r is None
            },
            None => r is None,
        },
{
    match errors {
        Some(v) => {
            if v.len() > 0 {
                match &v[0] {
                    Some(e) => Some(e.clone()),
                    None => Some(String::from_str("Upload failed")),
                }
            } else {
                None
            }
        },
        None => None,
    }
}

/// The text line of a compile outcome: `✓ Compiled: <target>`, or
/// `✗ Error [<code>]: <error>` (printed to standard error).
pub fn outcome_line(success: bool, target: &str, error_code: &str, error: &str) -> (r: String)
    ensures
        success ==> r@ == "✓ Compiled: "@ + target@,
        !success ==> r@ == "✗ Error ["@ + error_code@ + "]: "@ + error@,
{
    if success {
        let mut r = String::from_str("✓ Compiled: ");
        r.append(target);
        r
    } else {
        let mut r = String::from_str("✗ Error [");
        r.append(error_code);
        r.append("]: ");
        r.append(error);
        r
    }
}

} // verus!
