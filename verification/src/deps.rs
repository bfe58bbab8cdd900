//! Calls into the regex, urlencoding, serde_json, uuid, semver and
//! tree-sitter crates, and into the parts of std that vstd does not specify.
//! Each item here is believed, not proved: its doc says what it claims.
use vstd::prelude::*;
use crate::tools::syntax::{ParseOutcome, SyntaxNode, NodeText};

verus! {

// ---------------------------------------------------------------------------
// regex
// ---------------------------------------------------------------------------
/// What `regex::Regex::new(pattern)` followed by `is_match(text)` answers:
/// `None` when the pattern does not compile.
pub uninterp spec fn regex_is_match_result(pattern: Seq<char>, text: Seq<char>) -> Option<bool>;

/// The capture groups of the leftmost match of `pattern` in `text`, as
/// `regex::Regex::captures` reports them: `None` when the pattern does not
/// compile or does not match; otherwise one entry per group, group 0 first,
/// `None` for a group that did not take part in the match.
pub uninterp spec fn regex_captures_result(pattern: Seq<char>, text: Seq<char>) -> Option<
    Seq<Option<Seq<char>>>,
>;

/// Trusted: compiles `pattern` with `regex::Regex::new` and tests `text` with
/// `Regex::is_match`. The result is named, not described: it is
/// `regex_is_match_result(pattern, text)`, `None` exactly when compiling failed.
#[verifier::external_body]
pub(crate) fn regex_is_match(pattern: &str, text: &str) -> (r: Option<bool>)
    ensures
        r == regex_is_match_result(pattern@, text@),
{
    regex::Regex::new(pattern).ok().map(|re| re.is_match(text))
}

/// Trusted: compiles `pattern` with `regex::Regex::new` and calls
/// `Regex::captures(text)`, turning each group into its matched text. The
/// result is named: `regex_captures_result(pattern, text)`. The only fact
/// stated is that a match has at least one group (group 0, the whole match),
/// which `regex::Captures` always holds.
#[verifier::external_body]
pub(crate) fn regex_captures(pattern: &str, text: &str) -> (r: Option<Vec<Option<String>>>)
    ensures
        r matches Some(v) ==> v@.len() >= 1 && regex_captures_result(pattern@, text@) == Some(
            Seq::new(v@.len(), |i: int| opt_view(v@[i])),
        ),
        r is None ==> regex_captures_result(pattern@, text@) is None,
{
    let re = regex::Regex::new(pattern).ok()?;
    let caps = re.captures(text)?;
    Some(caps.iter().map(|m| m.map(|m| m.as_str().to_string())).collect())
}

/// The `Display` text of the error `regex::Regex::new(pattern)` gives, or
/// `None` when the pattern compiles.
pub uninterp spec fn regex_compile_error(pattern: Seq<char>) -> Option<Seq<char>>;

/// Trusted: `regex::Regex::new(pattern)`, keeping only the error's text. The
/// text is named: `regex_compile_error(pattern)`.
#[verifier::external_body]
pub(crate) fn regex_error(pattern: &str) -> (r: Option<String>)
    ensures
        opt_view(r) == regex_compile_error(pattern@),
{
    regex::Regex::new(pattern).err().map(|e| e.to_string())
}

/// The view of an optional string.
pub open spec fn opt_view(o: Option<String>) -> Option<Seq<char>> {
    match o {
        Some(s) => Some(s@),
        None => None,
    }
}

// ---------------------------------------------------------------------------
// urlencoding
// ---------------------------------------------------------------------------
/// Bytes that `urlencoding` leaves as they are: ASCII alphanumerics and `-._~`.
pub open spec fn url_safe_byte(b: u8) -> bool {
    ||| (48 <= b && b <= 57)
    ||| (65 <= b && b <= 90)
    ||| (97 <= b && b <= 122)
    ||| b == 45
    ||| b == 46
    ||| b == 95
    ||| b == 126
}

/// Upper-case hexadecimal digit of `d < 16`.
pub open spec fn hex_upper(d: int) -> char {
    if d < 10 {
        ((48 + d) as u32) as char
    } else {
        ((55 + d) as u32) as char
    }
}

/// Percent-encoding of a byte string as `urlencoding::encode_binary` writes it.
pub open spec fn url_encode_s(bytes: Seq<u8>) -> Seq<char>
    decreases bytes.len(),
{
    if bytes.len() == 0 {
        Seq::empty()
    } else {
        let b = bytes.last();
        url_encode_s(bytes.drop_last()) + if url_safe_byte(b) {
            seq![(b as u32) as char]
        } else {
            seq!['%', hex_upper((b / 16) as int), hex_upper((b % 16) as int)]
        }
    }
}

/// The percent-encoding of the UTF-8 bytes of `s`.
pub open spec fn url_encoded(s: Seq<char>) -> Seq<char> {
    url_encode_s(vstd::utf8::encode_utf8(s))
}

/// Trusted: `urlencoding::encode(s).into_owned()`. The crate percent-encodes
/// every UTF-8 byte of `s` except ASCII alphanumerics and `-`, `_`, `.`, `~`,
/// writing `%` and two upper-case hex digits; that is what the contract says.
#[verifier::external_body]
pub(crate) fn url_encode(s: &str) -> (r: String)
    ensures
        r@ == url_encoded(s@),
{
    urlencoding::encode(s).into_owned()
}

// ---------------------------------------------------------------------------
// serde_json
// ---------------------------------------------------------------------------
/// A JSON document as `serde_json` holds it; the library only carries it.
#[verifier::external_type_specification]
#[verifier::external_body]
pub struct ExJsonValue(serde_json::Value);

/// Whether `serde_json::from_str::<serde_json::Value>` accepts the text.
pub uninterp spec fn json_text_parses(text: Seq<char>) -> bool;

/// The JSON value `serde_json::from_str::<serde_json::Value>` reads from the
/// text, when it parses.
pub uninterp spec fn json_value_of(text: Seq<char>) -> serde_json::Value;

/// Trusted: `serde_json::from_str::<serde_json::Value>(text).ok()`. The result
/// is present exactly when the named predicate `json_text_parses(text)` holds,
/// and is then the named value `json_value_of(text)`.
#[verifier::external_body]
pub(crate) fn parse_json(text: &str) -> (r: Option<serde_json::Value>)
    ensures
        r is Some <==> json_text_parses(text@),
        r matches Some(v) ==> v == json_value_of(text@),
{
    serde_json::from_str::<serde_json::Value>(text).ok()
}

/// The strings under `key` in the elements of the JSON array `v`: `None`
/// when `v` is not an array (`Value::as_array`); for each element, its
/// `get(key)` read with `Value::as_str`, `None` when that is absent or not a
/// string.
pub uninterp spec fn json_array_field_strings(v: serde_json::Value, key: Seq<char>) -> Option<
    Seq<Option<Seq<char>>>,
>;

/// Trusted: `v.as_array()`, each element's `get(key)` then `as_str`, turned
/// into owned text. The result is named: `json_array_field_strings(v, key)`.
#[verifier::external_body]
pub(crate) fn json_field_strings(v: &serde_json::Value, key: &str) -> (r: Option<Vec<Option<String>>>)
    ensures
        match r {
            Some(items) => json_array_field_strings(*v, key@) == Some(
                Seq::new(items@.len(), |i: int| opt_view(items@[i])),
            ),
            None => json_array_field_strings(*v, key@) is None,
        },
{
    v.as_array().map(|a| a.iter().map(|t| t.get(key).and_then(|n| n.as_str()).map(|n| n.to_string())).collect())
}

/// Trusted: `serde_json::Value::clone`. `Value` derives `Clone`, so the copy
/// is the same JSON value as `v`.
#[verifier::external_body]
pub(crate) fn json_clone(v: &serde_json::Value) -> (r: serde_json::Value)
    ensures
        r == *v,
{
    v.clone()
}

// ---------------------------------------------------------------------------
// toml
// ---------------------------------------------------------------------------
/// What `toml::from_str::<toml::Value>(text)` reads: `Err` with the parse
/// error's `Display` text when the text is not TOML; otherwise the string at
/// `table.key` (`Value::get` twice, then `as_str`), `None` when there is no
/// string there.
pub uninterp spec fn toml_string_at(text: Seq<char>, table: Seq<char>, key: Seq<char>) -> Result<
    Option<Seq<char>>,
    Seq<char>,
>;

/// Trusted: `toml::from_str::<toml::Value>(text)`, then `get(table)`,
/// `get(key)` and `as_str`. The outcome is named:
/// `toml_string_at(text, table, key)`.
#[verifier::external_body]
pub(crate) fn toml_string(text: &str, table: &str, key: &str) -> (r: Result<Option<String>, String>)
    ensures
        match r {
            Ok(v) => toml_string_at(text@, table@, key@) == Ok::<Option<Seq<char>>, Seq<char>>(
                opt_view(v),
            ),
            Err(e) => toml_string_at(text@, table@, key@) == Err::<Option<Seq<char>>, Seq<char>>(e@),
        },
{
    match toml::from_str::<toml::Value>(text) {
        Ok(v) => Ok(v.get(table).and_then(|t| t.get(key)).and_then(|x| x.as_str()).map(|x| x.to_string())),
        Err(e) => Err(e.to_string()),
    }
}

// ---------------------------------------------------------------------------
// HTTP status codes (reqwest re-exports http::StatusCode)
// ---------------------------------------------------------------------------
/// The reason phrase `http::StatusCode::canonical_reason` gives for `code`.
pub uninterp spec fn http_canonical_reason(code: u16) -> Option<Seq<char>>;

/// Trusted: `reqwest::StatusCode::from_u16(code)` then `canonical_reason()`.
/// `from_u16` accepts exactly 100..=999, hence the precondition; the phrase is
/// named, not spelled out (it is a table of the registered codes).
#[verifier::external_body]
pub(crate) fn status_reason(code: u16) -> (r: Option<String>)
    requires
        100 <= code <= 999,
    ensures
        opt_view(r) == http_canonical_reason(code),
{
    reqwest::StatusCode::from_u16(code).ok()?.canonical_reason().map(|s| s.to_string())
}

// ---------------------------------------------------------------------------
// uuid
// ---------------------------------------------------------------------------
/// Lower-case hexadecimal digit.
pub open spec fn is_lower_hex(c: char) -> bool {
    ('0' <= c && c <= '9') || ('a' <= c && c <= 'f')
}

/// The shape of a hyphenated UUID: 36 characters, hyphens at 8, 13, 18, 23,
/// lower-case hex digits elsewhere.
pub open spec fn is_hyphenated_uuid(s: Seq<char>) -> bool {
    &&& s.len() == 36
    &&& forall|i: int|
        0 <= i < 36 ==> if i == 8 || i == 13 || i == 18 || i == 23 {
            s[i] == '-'
        } else {
            is_lower_hex(#[trigger] s[i])
        }
}

/// Trusted: `uuid::Uuid::new_v4().to_string()`. The value is random; the only
/// claim is its shape, which `Uuid`'s `Display` (lower-case hyphenated) fixes.
/// It panics only when the operating system gives no random bytes, which no
/// argument can bring about or rule out.
#[verifier::external_body]
pub(crate) fn new_uuid_v4() -> (r: String)
    ensures
        is_hyphenated_uuid(r@),
{
    uuid::Uuid::new_v4().to_string()
}

// ---------------------------------------------------------------------------
// clock
// ---------------------------------------------------------------------------
/// A monotonic clock origin (`std::time::Instant`); opaque to the library.
#[verifier::external_type_specification]
#[verifier::external_body]
pub struct ExInstant(std::time::Instant);

/// Trusted: `std::time::Instant::now()`. Nothing is claimed of the value.
#[verifier::external_body]
pub(crate) fn instant_now() -> std::time::Instant {
    std::time::Instant::now()
}

/// Trusted: nanoseconds elapsed since `origin` (`Instant::elapsed`,
/// saturated to `u64`). The value depends on the time of the call; nothing is
/// claimed of it.
#[verifier::external_body]
pub(crate) fn nanos_since(origin: &std::time::Instant) -> u64 {
    u64::try_from(origin.elapsed().as_nanos()).unwrap_or(u64::MAX)
}

// ---------------------------------------------------------------------------
// semver
// ---------------------------------------------------------------------------
/// What `semver::Version::parse(s)` gives: `Ok` with the version's
/// `Display` text, or `Err` with the error's `Display` text.
pub uninterp spec fn semver_version_parse(s: Seq<char>) -> Result<Seq<char>, Seq<char>>;

/// Trusted: `semver::Version::parse(s)`, each outcome turned into its
/// `Display` text. The texts are named: `semver_version_parse(s)`.
#[verifier::external_body]
pub(crate) fn version_parse(s: &str) -> (r: Result<String, String>)
    ensures
        match r {
            Ok(d) => semver_version_parse(s@) == Ok::<Seq<char>, Seq<char>>(d@),
            Err(e) => semver_version_parse(s@) == Err::<Seq<char>, Seq<char>>(e@),
        },
{
    match semver::Version::parse(s) {
        Ok(v) => Ok(v.to_string()),
        Err(e) => Err(e.to_string()),
    }
}

/// What `semver::VersionReq::parse(req)` gives: `Ok` with the requirement's
/// `Display` text, or `Err` with the error's `Display` text.
pub uninterp spec fn semver_req_parse(req: Seq<char>) -> Result<Seq<char>, Seq<char>>;

/// Trusted: `semver::VersionReq::parse(req)`, each outcome turned into its
/// `Display` text. The texts are named: `semver_req_parse(req)`.
#[verifier::external_body]
pub(crate) fn req_parse(req: &str) -> (r: Result<String, String>)
    ensures
        match r {
            Ok(d) => semver_req_parse(req@) == Ok::<Seq<char>, Seq<char>>(d@),
            Err(e) => semver_req_parse(req@) == Err::<Seq<char>, Seq<char>>(e@),
        },
{
    match semver::VersionReq::parse(req) {
        Ok(q) => Ok(q.to_string()),
        Err(e) => Err(e.to_string()),
    }
}

/// Whether the parsed requirement `req` matches the parsed version `v`
/// (`VersionReq::matches`).
pub uninterp spec fn semver_req_matches(req: Seq<char>, v: Seq<char>) -> bool;

/// Trusted: parses `req` and `v` and calls `VersionReq::matches`. Both must
/// parse; the answer is named: `semver_req_matches(req, v)`.
#[verifier::external_body]
pub(crate) fn req_matches(req: &str, v: &str) -> (r: bool)
    requires
        semver_req_parse(req@) is Ok,
        semver_version_parse(v@) is Ok,
    ensures
        r == semver_req_matches(req@, v@),
{
    match (semver::VersionReq::parse(req), semver::Version::parse(v)) {
        (Ok(q), Ok(x)) => q.matches(&x),
        _ => false,
    }
}

/// Whether the parsed version `a` orders before the parsed version `b`
/// (`Version`'s `Ord`).
pub uninterp spec fn semver_version_less(a: Seq<char>, b: Seq<char>) -> bool;

/// Trusted: parses `a` and `b` and compares them with `<`. Both must parse;
/// the answer is named: `semver_version_less(a, b)`. `Version`'s `Ord` is a
/// total order (derived over major, minor, patch, pre-release and build), so
/// when `a < b` holds, two facts of that order are stated: `b < a` does not
/// hold, and no parsed version `x` with `x <= a` (that is, not `a < x`)
/// has `b < x`.
#[verifier::external_body]
pub(crate) fn version_less(a: &str, b: &str) -> (r: bool)
    requires
        semver_version_parse(a@) is Ok,
        semver_version_parse(b@) is Ok,
    ensures
        r == semver_version_less(a@, b@),
        r ==> !semver_version_less(b@, a@),
        r ==> forall|x: Seq<char>|
            semver_version_parse(x) is Ok && !semver_version_less(a@, x)
                ==> !#[trigger] semver_version_less(b@, x),
{
    match (semver::Version::parse(a), semver::Version::parse(b)) {
        (Ok(x), Ok(y)) => x < y,
        _ => false,
    }
}

// ---------------------------------------------------------------------------
// Debug text of a string
// ---------------------------------------------------------------------------
/// The text `format!("{:?}", s)` writes for a string: quoted, with `"`, `\`
/// and control characters escaped.
pub uninterp spec fn rust_debug_str(s: Seq<char>) -> Seq<char>;

/// Trusted: `format!("{:?}", s)`; the text is named: `rust_debug_str(s)`.
#[verifier::external_body]
pub(crate) fn debug_str(s: &str) -> (r: String)
    ensures
        r@ == rust_debug_str(s@),
{
    format!("{:?}", s)
}

// ---------------------------------------------------------------------------
// Unicode case mapping
// ---------------------------------------------------------------------------
/// `str::to_uppercase` of `s`: each character mapped by Unicode's upper-case
/// mapping (which may yield several characters).
pub uninterp spec fn unicode_upper(s: Seq<char>) -> Seq<char>;

/// Trusted: `str::to_uppercase`; the text is named: `unicode_upper(s)`.
#[verifier::external_body]
pub(crate) fn to_uppercase(s: &str) -> (r: String)
    ensures
        r@ == unicode_upper(s@),
{
    s.to_uppercase()
}

// ---------------------------------------------------------------------------
// UTF-8
// ---------------------------------------------------------------------------
/// The text `String::from_utf8_lossy` decodes from `bytes`: each valid UTF-8
/// sequence as its character, each invalid one as U+FFFD.
pub uninterp spec fn utf8_lossy(bytes: Seq<u8>) -> Seq<char>;

/// Every byte is below 128: ASCII, which UTF-8 encodes one byte per
/// character.
pub open spec fn all_ascii(bytes: Seq<u8>) -> bool {
    forall|i: int| 0 <= i < bytes.len() ==> #[trigger] bytes[i] < 128
}

/// The characters of ASCII bytes, one per byte.
pub open spec fn ascii_chars(bytes: Seq<u8>) -> Seq<char> {
    Seq::new(bytes.len(), |i: int| bytes[i] as char)
}

/// Trusted: `String::from_utf8_lossy(&source[start..end]).to_string()`. The
/// text is named: `utf8_lossy` of those bytes; the one fact stated is that
/// ASCII bytes decode to themselves, one character each.
#[verifier::external_body]
pub(crate) fn lossy_text(source: &[u8], start: usize, end: usize) -> (r: String)
    requires
        start <= end <= source@.len(),
    ensures
        r@ == utf8_lossy(source@.subrange(start as int, end as int)),
        all_ascii(source@.subrange(start as int, end as int)) ==> r@ == ascii_chars(
            source@.subrange(start as int, end as int),
        ),
{
    String::from_utf8_lossy(&source[start..end]).to_string()
}

/// Trusted: `std::str::from_utf8(bytes).is_ok()`. The answer is stated
/// through vstd's `valid_utf8`: well-formed lead and continuation bytes, no
/// overlong form, no surrogate, nothing above U+10FFFF, which is what std
/// documents as valid UTF-8.
#[verifier::external_body]
pub(crate) fn is_utf8(bytes: &[u8]) -> (r: bool)
    ensures
        r == vstd::utf8::valid_utf8(bytes@),
{
    std::str::from_utf8(bytes).is_ok()
}

// ---------------------------------------------------------------------------
// Paths
// ---------------------------------------------------------------------------
/// `part` is a run of consecutive characters of `whole`.
pub open spec fn is_run_of(part: Seq<char>, whole: Seq<char>) -> bool {
    exists|i: int, j: int| 0 <= i <= j <= whole.len() && part == whole.subrange(i, j)
}

/// A relative path that every platform splits at `/` alone: it does not
/// start with `/` and holds no `\` and no `:`, so it has neither a Windows
/// prefix nor a root.
pub open spec fn plain_relative_path(p: Seq<char>) -> bool {
    &&& (p.len() == 0 || p[0] != '/')
    &&& !p.contains('\\')
    &&& !p.contains(':')
}

/// The last component of a path split at `/`: the last piece that is neither
/// empty nor `.` (`Path::components` skips repeated separators and `.`
/// after the start); `None` when there is none.
pub open spec fn last_component_s(p: Seq<char>) -> Option<Seq<char>>
    decreases p.len(),
{
    match crate::text::rfind_char_s(p, '/') {
        None => if p.len() == 0 || p == seq!['.'] {
            None
        } else {
            Some(p)
        },
        Some(k) => {
            let piece = p.skip(k + 1);
            if piece.len() > 0 && piece != seq!['.'] {
                Some(piece)
            } else if 0 <= k < p.len() {
                last_component_s(p.take(k))
            } else {
                None
            }
        },
    }
}

/// The stem of a plain relative path: of its last component, empty when
/// there is none or it is `..` (`file_name` gives `None` there).
pub open spec fn path_stem_s(p: Seq<char>) -> Seq<char> {
    match last_component_s(p) {
        Some(n) => if n == seq!['.', '.'] {
            Seq::empty()
        } else {
            crate::tools::symbols_local::stem_s(n)
        },
        None => Seq::empty(),
    }
}

/// Trusted: `Path::new(p).file_stem()` as text, or `""` when there is none.
/// Which characters separate a path's components depends on the platform
/// (`/` everywhere, `\` and prefixes such as `C:` on Windows). So two facts
/// are stated: the stem is a run of consecutive characters of `p` (std
/// takes it as a slice of the path), and for a path that every platform
/// splits at `/` alone it is `path_stem_s(p)`, as `Path::components`,
/// `file_name` and `file_stem` document.
#[verifier::external_body]
pub(crate) fn path_file_stem(p: &str) -> (r: String)
    ensures
        is_run_of(r@, p@),
        plain_relative_path(p@) ==> r@ == path_stem_s(p@),
{
    std::path::Path::new(p).file_stem().and_then(|s| s.to_str()).unwrap_or("").to_string()
}

// ---------------------------------------------------------------------------
// tree-sitter
// ---------------------------------------------------------------------------
/// What tree-sitter gives for `source` with the ObjectScript UDL grammar:
/// `None` when `Parser::set_language` refuses the grammar, `Some(None)` when
/// `Parser::parse` gives no tree, otherwise whether the root node has an
/// error and every node of the tree in pre-order (the order of
/// `TreeCursor::goto_descendant`), each as its kind, start byte, end byte,
/// depth below the root and whether it is named.
pub uninterp spec fn udl_syntax(source: Seq<u8>) -> Option<Option<(bool, Seq<NodeText>)>>;

/// The same as `udl_syntax`, with the ObjectScript routine grammar.
pub uninterp spec fn routine_syntax(source: Seq<u8>) -> Option<Option<(bool, Seq<NodeText>)>>;

/// Trusted: parses `source` with `tree_sitter::Parser` and the grammar of
/// `tree_sitter_objectscript`, and lists the tree's nodes by
/// `TreeCursor::goto_descendant`. The outcome is named: `udl_syntax(source)`.
#[verifier::external_body]
pub(crate) fn parse_udl(source: &[u8]) -> (r: ParseOutcome)
    ensures
        r@ == udl_syntax(source@),
{
    let mut p = tree_sitter::Parser::new();
    if p.set_language(&tree_sitter_objectscript::LANGUAGE_OBJECTSCRIPT_UDL.into()).is_err() {
        return ParseOutcome::LanguageRejected;
    }
    let t = match p.parse(source, None) { Some(t) => t, None => return ParseOutcome::NoTree };
    let mut c = t.walk();
    let nodes = (0..t.root_node().descendant_count()).map(|i| {
        c.goto_descendant(i);
        let n = c.node();
        SyntaxNode { kind: n.kind().to_string(), start: n.start_byte(), end: n.end_byte(), depth: c.depth() as usize, named: n.is_named() }
    }).collect();
    ParseOutcome::Parsed { has_error: t.root_node().has_error(), nodes }
}

/// Trusted: as `parse_udl`, with the grammar of
/// `tree_sitter_objectscript_routine`. The outcome is named:
/// `routine_syntax(source)`.
#[verifier::external_body]
pub(crate) fn parse_routine(source: &[u8]) -> (r: ParseOutcome)
    ensures
        r@ == routine_syntax(source@),
{
    let mut p = tree_sitter::Parser::new();
    if p.set_language(&tree_sitter_objectscript_routine::LANGUAGE_OBJECTSCRIPT_ROUTINE.into()).is_err() {
        return ParseOutcome::LanguageRejected;
    }
    let t = match p.parse(source, None) { Some(t) => t, None => return ParseOutcome::NoTree };
    let mut c = t.walk();
    let nodes = (0..t.root_node().descendant_count()).map(|i| {
        c.goto_descendant(i);
        let n = c.node();
        SyntaxNode { kind: n.kind().to_string(), start: n.start_byte(), end: n.end_byte(), depth: c.depth() as usize, named: n.is_named() }
    }).collect();
    ParseOutcome::Parsed { has_error: t.root_node().has_error(), nodes }
}

} // verus!
