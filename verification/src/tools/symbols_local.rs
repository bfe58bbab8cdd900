//! Local workspace symbol search: glob matching of names, the symbols of a
//! class or routine read from its tree-sitter syntax tree, and the scan that
//! gathers the symbols of `.cls`, `.mac` and `.inc` files up to a limit.
use vstd::prelude::*;
use crate::text::{
    chars_of, chars_eq, chars_match_at, find_from, occurs_at, first_occurrence,
    lemma_first_occurrence, lemma_no_occurrence, find_char_s, lemma_find_char_props,
    lower_s, to_ascii_lowercase, str_eq, string_of, rfind_char, rfind_char_s, lemma_rfind_char_props,
    has_prefix, to_owned, trim, trim_s, trim_end_char, trim_end_char_s, before_char, before_char_s,
};
use crate::deps::{
    is_run_of, is_utf8, parse_routine, parse_udl, path_file_stem, path_stem_s, plain_relative_path,
    routine_syntax, udl_syntax,
};
use crate::tools::syntax::{
    find_kid, find_kid_exec, find_named_kid, find_named_kid_exec, first_ident_text,
    first_ident_text_exec, is_kid, node_text, node_text_s, node_texts, within, within_exec,
    NodeText, ParseOutcome, SyntaxNode,
};

verus! {

// ---------------------------------------------------------------------------
// Public types
// ---------------------------------------------------------------------------
/// A symbol found in a workspace file.
#[derive(Debug, Clone)]
pub struct Symbol {
    pub name: String,
    pub kind: String,
    pub file: String,
    pub formal_spec: Option<String>,
    pub type_label: Option<String>,
}

/// A problem met while scanning, or a class defined in several files.
#[derive(Debug, Clone)]
pub struct ParseWarning {
    pub warning_type: String,
    pub file: Option<String>,
    pub class: Option<String>,
    pub files: Option<Vec<String>>,
    pub message: Option<String>,
}

/// What a scan found.
#[derive(Debug)]
pub struct SymbolsLocalResult {
    pub symbols: Vec<Symbol>,
    pub parse_warnings: Vec<ParseWarning>,
}

/// The text of an optional string.
pub open spec fn ov(o: Option<String>) -> Option<Seq<char>> {
    match o {
        Some(s) => Some(s@),
        None => None,
    }
}

/// The texts of a sequence of strings.
pub open spec fn sv(v: Seq<String>) -> Seq<Seq<char>> {
    Seq::new(v.len(), |i: int| v[i]@)
}

/// A symbol as text: name, kind, file, formal spec, type.
pub type SymbolText = (Seq<char>, Seq<char>, Seq<char>, Option<Seq<char>>, Option<Seq<char>>);

/// A warning as text: type, file, class, files, message.
pub type WarningText = (
    Seq<char>,
    Option<Seq<char>>,
    Option<Seq<char>>,
    Option<Seq<Seq<char>>>,
    Option<Seq<char>>,
);

impl View for Symbol {
    type V = SymbolText;

    open spec fn view(&self) -> SymbolText {
        (self.name@, self.kind@, self.file@, ov(self.formal_spec), ov(self.type_label))
    }
}

impl View for ParseWarning {
    type V = WarningText;

    open spec fn view(&self) -> WarningText {
        (
            self.warning_type@,
            ov(self.file),
            ov(self.class),
            match self.files {
                Some(v) => Some(sv(v@)),
                None => None,
            },
            ov(self.message),
        )
    }
}

/// The views of a sequence of symbols.
pub open spec fn symbol_texts(v: Seq<Symbol>) -> Seq<SymbolText> {
    Seq::new(v.len(), |i: int| v[i]@)
}

/// The views of a sequence of warnings.
pub open spec fn warning_texts(v: Seq<ParseWarning>) -> Seq<WarningText> {
    Seq::new(v.len(), |i: int| v[i]@)
}

// ---------------------------------------------------------------------------
// Glob matching
// ---------------------------------------------------------------------------
/// `str::split(c)`: the pieces between the occurrences of `c`.
pub open spec fn split_s(s: Seq<char>, c: char) -> Seq<Seq<char>>
    decreases s.len(),
{
    match find_char_s(s, c) {
        None => seq![s],
        Some(i) => {
            proof {
                lemma_find_char_props(s, c);
            }
            seq![s.take(i)] + split_s(s.skip(i + 1), c)
        },
    }
}

/// Matching the pieces `parts[i..]` of a pattern against `name`, the text
/// before `pos` already consumed: empty pieces are skipped; the first piece
/// must start the name; the last must end it, not overlapping what was
/// consumed; a middle piece is taken at its leftmost occurrence.
pub open spec fn glob_walk(parts: Seq<Seq<char>>, i: int, pos: int, name: Seq<char>) -> bool
    decreases parts.len() - i,
{
    if i < 0 || i >= parts.len() {
        true
    } else if parts[i].len() == 0 {
        glob_walk(parts, i + 1, pos, name)
    } else if i == 0 {
        occurs_at(name, parts[0], pos) && glob_walk(parts, 1, pos + parts[0].len(), name)
    } else if i == parts.len() - 1 {
        parts[i].len() <= name.len() && occurs_at(name, parts[i], name.len() - parts[i].len())
            && name.len() - parts[i].len() >= pos
    } else {
        match first_occurrence(name, parts[i], pos) {
            Some(k) => glob_walk(parts, i + 1, k + parts[i].len(), name),
            None => false,
        }
    }
}

/// Whether `name` matches the glob `query`: `*` is the only wildcard,
/// matching is case-sensitive, an empty query never matches, and a query
/// without `*` matches only itself.
pub open spec fn glob_match_s(query: Seq<char>, name: Seq<char>) -> bool {
    if query.len() == 0 {
        false
    } else if find_char_s(query, '*') is None {
        query == name
    } else {
        glob_walk(split_s(query, '*'), 0, 0, name)
    }
}

/// The texts of a sequence of character vectors.
pub open spec fn cv(v: Seq<Vec<char>>) -> Seq<Seq<char>> {
    Seq::new(v.len(), |i: int| v[i]@)
}

proof fn lemma_first_char(s: Seq<char>, c: char, k: int)
    requires
        0 <= k < s.len(),
        s[k] == c,
        forall|j: int| 0 <= j < k ==> s[j] != c,
    ensures
        find_char_s(s, c) == Some(k),
{
    lemma_find_char_props(s, c);
    match find_char_s(s, c) {
        Some(m) => {
            if m < k {
                assert(s[m] == c);
            } else if m > k {
                assert(s[k] != c);
            }
        },
        None => {
            assert(s[k] != c);
        },
    }
}

proof fn lemma_no_char(s: Seq<char>, c: char)
    requires
        forall|j: int| 0 <= j < s.len() ==> s[j] != c,
    ensures
        find_char_s(s, c) is None,
{
    lemma_find_char_props(s, c);
    match find_char_s(s, c) {
        Some(m) => {
            assert(s[m] == c);
        },
        None => {},
    }
}

fn split_chars(v: &[char], c: char) -> (r: Vec<Vec<char>>)
    ensures
        cv(r@) == split_s(v@, c),
{
    let mut parts: Vec<Vec<char>> = Vec::new();
    let mut start: usize = 0;
    let mut cur: Vec<char> = Vec::new();
    let mut i: usize = 0;
    assert(v@.skip(0) == v@);
    while i < v.len()
        invariant
            0 <= start <= i <= v@.len(),
            cur@ == v@.subrange(start as int, i as int),
            forall|j: int| start <= j < i ==> v@[j] != c,
            cv(parts@) + split_s(v@.skip(start as int), c) == split_s(v@, c),
        decreases v.len() - i,
    {
        if v[i] == c {
            let ghost rest = v@.skip(start as int);
            proof {
                assert forall|j: int| 0 <= j < i - start implies rest[j] != c by {
                    assert(rest[j] == v@[start + j]);
                }
                lemma_first_char(rest, c, i - start);
                assert(rest.take(i - start) == cur@);
                assert(rest.skip(i - start + 1) == v@.skip(i + 1));
            }
            parts.push(cur);
            proof {
                assert(cv(parts@) == cv(parts@.drop_last()).push(rest.take(i - start)));
                assert(cv(parts@.drop_last()) + split_s(rest, c) == split_s(v@, c));
                assert(split_s(rest, c) == seq![rest.take(i - start)] + split_s(v@.skip(i + 1), c));
                assert(cv(parts@) + split_s(v@.skip(i + 1), c) == split_s(v@, c));
            }
            cur = Vec::new();
            start = i + 1;
        } else {
            cur.push(v[i]);
        }
        i = i + 1;
    }
    let ghost rest = v@.skip(start as int);
    proof {
        assert forall|j: int| 0 <= j < rest.len() implies rest[j] != c by {
            assert(rest[j] == v@[start + j]);
        }
        lemma_no_char(rest, c);
        assert(cur@ == rest);
    }
    parts.push(cur);
    proof {
        assert(cv(parts@) == cv(parts@.drop_last()).push(rest));
    }
    parts
}

/// Returns true if `name` matches the glob `query`. `*` is the only
/// wildcard; matching is case-sensitive; an empty query never matches.
pub fn glob_match(query: &str, name: &str) -> (r: bool)
    ensures
        r == glob_match_s(query@, name@),
{
    let q = chars_of(query);
    let n = chars_of(name);
    if q.len() == 0 {
        return false;
    }
    let mut has_star = false;
    let mut k: usize = 0;
    while k < q.len()
        invariant
            0 <= k <= q@.len(),
            has_star == exists|j: int| 0 <= j < k && q@[j] == '*',
        decreases q.len() - k,
    {
        if q[k] == '*' {
            has_star = true;
        }
        k = k + 1;
    }
    proof {
        lemma_find_char_props(q@, '*');
        if has_star {
            let j = choose|j: int| 0 <= j < k && q@[j] == '*';
            assert(q@[j] == '*');
            assert(find_char_s(q@, '*') is Some);
        }
    }
    if !has_star {
        return chars_eq(&q, &n);
    }
    let parts = split_chars(&q, '*');
    let ghost ps = cv(parts@);
    let mut pos: usize = 0;
    let mut i: usize = 0;
    while i < parts.len()
        invariant
            ps == cv(parts@),
            ps == split_s(q@, '*'),
            q@ == query@,
            n@ == name@,
            q@.len() > 0,
            find_char_s(q@, '*') is Some,
            0 <= i <= parts@.len(),
            0 <= pos <= n@.len(),
            glob_walk(ps, 0, 0, n@) == glob_walk(ps, i as int, pos as int, n@),
        decreases parts.len() - i,
    {
        let part = &parts[i];
        assert(ps[i as int] == part@);
        if part.len() == 0 {
            i = i + 1;
            continue;
        }
        if i == 0 {
            if !chars_match_at(&n, pos, part.as_slice()) {
                return false;
            }
            assert(occurs_at(n@, part@, pos as int));
            assert(n@.len() == n.len());
            assert(part@.len() == part.len());
            pos = pos + part.len();
        } else if i == parts.len() - 1 {
            if n.len() < part.len() {
                return false;
            }
            let at = n.len() - part.len();
            if !chars_match_at(&n, at, part.as_slice()) {
                return false;
            }
            return at >= pos;
        } else {
            match find_from(&n, part.as_slice(), pos) {
                Some(off) => {
                    proof {
                        lemma_first_occurrence(n@, part@, pos as int, off as int);
                        assert(occurs_at(n@, part@, off as int));
                        assert(n@.len() == n.len());
                        assert(part@.len() == part.len());
                    }
                    pos = off + part.len();
                },
                None => {
                    proof {
                        lemma_no_occurrence(n@, part@, pos as int);
                    }
                    return false;
                },
            }
        }
        i = i + 1;
    }
    true
}

/// A query of a single `*` matches every name.
pub proof fn lemma_star_matches_all(name: Seq<char>)
    ensures
        glob_match_s("*"@, name),
{
    reveal_strlit("*");
    let q = "*"@;
    assert(q.len() == 1 && q[0] == '*');
    assert(find_char_s(q, '*') == Some(0int));
    assert(q.take(0) == Seq::<char>::empty());
    assert(q.skip(1) == Seq::<char>::empty());
    assert(find_char_s(Seq::<char>::empty(), '*') is None);
    let e = Seq::<char>::empty();
    assert(split_s(e, '*') == seq![e]);
    let ps = split_s(q, '*');
    assert(ps == seq![q.take(0)] + split_s(q.skip(1), '*'));
    assert(ps =~= seq![e, e]);
    assert(glob_walk(ps, 2, 0, name));
    assert(glob_walk(ps, 1, 0, name));
}

/// A query without `*` matches exactly the name equal to it, and an empty
/// query matches nothing.
pub proof fn lemma_glob_literal(query: Seq<char>, name: Seq<char>)
    requires
        forall|j: int| 0 <= j < query.len() ==> query[j] != '*',
    ensures
        glob_match_s(query, name) <==> (query.len() > 0 && query == name),
{
    lemma_no_char(query, '*');
}

// ---------------------------------------------------------------------------
// Symbols of a parsed file
// ---------------------------------------------------------------------------
/// A symbol with no formal spec and no type.
pub open spec fn plain_sym(name: Seq<char>, kind: Seq<char>, rel: Seq<char>) -> SymbolText {
    (name, kind, rel, None, None)
}

/// The view of an optional symbol.
pub open spec fn osym(o: Option<Symbol>) -> Option<SymbolText> {
    match o {
        Some(s) => Some(s@),
        None => None,
    }
}

/// The symbols of an optional symbol: none or one.
pub open spec fn opt_syms(o: Option<SymbolText>) -> Seq<SymbolText> {
    match o {
        Some(s) => seq![s],
        None => Seq::empty(),
    }
}

/// The `PARSE_ERROR` warning of a file.
pub open spec fn parse_warning_s(rel: Seq<char>, msg: Seq<char>) -> WarningText {
    file_warning("PARSE_ERROR"@, rel, msg)
}

/// A method's formal spec from the text of its `arguments` node: trimmed, and
/// when it is wrapped in parentheses, what they hold, trimmed.
pub open spec fn formal_spec_s(raw: Seq<char>) -> Seq<char> {
    let t = trim_s(raw);
    if t.len() >= 2 && t[0] == '(' && t[t.len() - 1] == ')' {
        trim_s(t.subrange(1, t.len() - 1))
    } else {
        t
    }
}

/// Reading the children, from `j` on, of a `method_definition` of depth `d`:
/// the identifier text of its last `method_name` child whose text is not
/// empty, and the formal spec of its last `arguments` child (`name` and
/// `spec` hold what the children before `j` gave).
pub open spec fn method_parts(
    ns: Seq<NodeText>,
    src: Seq<u8>,
    d: int,
    j: int,
    name: Option<Seq<char>>,
    spec: Option<Seq<char>>,
) -> (Option<Seq<char>>, Option<Seq<char>>)
    decreases ns.len() - j,
{
    if !within(ns, d, j) {
        (name, spec)
    } else if ns[j].3 == d + 1 && ns[j].0 == "method_name"@ {
        let t = first_ident_text(ns, src, j);
        method_parts(ns, src, d, j + 1, if t.len() > 0 { Some(t) } else { name }, spec)
    } else if ns[j].3 == d + 1 && ns[j].0 == "arguments"@ {
        method_parts(ns, src, d, j + 1, name, Some(formal_spec_s(node_text_s(ns, src, j))))
    } else {
        method_parts(ns, src, d, j + 1, name, spec)
    }
}

/// The symbol of a `method` or `classmethod` node of depth `d`, from its
/// children at or after `j`: `class.name`, with its formal spec, for the
/// first `method_definition` child that names the method.
pub open spec fn method_scan(
    ns: Seq<NodeText>,
    src: Seq<u8>,
    cname: Seq<char>,
    rel: Seq<char>,
    d: int,
    j: int,
) -> Option<SymbolText>
    decreases ns.len() - j,
{
    if !within(ns, d, j) {
        None
    } else if ns[j].3 == d + 1 && ns[j].0 == "method_definition"@ {
        match method_parts(ns, src, ns[j].3 as int, j + 1, None, None).0 {
            Some(n) => Some(
                (
                    cname + "."@ + n,
                    "method"@,
                    rel,
                    method_parts(ns, src, ns[j].3 as int, j + 1, None, None).1,
                    None,
                ),
            ),
            None => method_scan(ns, src, cname, rel, d, j + 1),
        }
    } else {
        method_scan(ns, src, cname, rel, d, j + 1)
    }
}

/// The name of a property or parameter node of depth `d`: the identifier
/// text of its first child, at or after `j`, of kind `k` whose text is not
/// empty.
pub open spec fn member_name_scan(ns: Seq<NodeText>, src: Seq<u8>, d: int, j: int, k: Seq<char>) -> Option<
    Seq<char>,
>
    decreases ns.len() - j,
{
    if !within(ns, d, j) {
        None
    } else if ns[j].3 == d + 1 && ns[j].0 == k && first_ident_text(ns, src, j).len() > 0 {
        Some(first_ident_text(ns, src, j))
    } else {
        member_name_scan(ns, src, d, j + 1, k)
    }
}

/// The symbol of a class member of kind `label`, named by its child of kind
/// `k`.
pub open spec fn named_member(
    ns: Seq<NodeText>,
    src: Seq<u8>,
    cname: Seq<char>,
    rel: Seq<char>,
    m: int,
    k: Seq<char>,
    label: Seq<char>,
) -> Option<SymbolText> {
    match member_name_scan(ns, src, ns[m].3 as int, m + 1, k) {
        Some(n) => Some(plain_sym(cname + "."@ + n, label, rel)),
        None => None,
    }
}

/// The symbol a class member node stands for: a method, a property or a
/// parameter; nothing for other nodes.
pub open spec fn member_sym(ns: Seq<NodeText>, src: Seq<u8>, cname: Seq<char>, rel: Seq<char>, m: int) -> Option<
    SymbolText,
> {
    let k = ns[m].0;
    if k == "method"@ || k == "classmethod"@ {
        method_scan(ns, src, cname, rel, ns[m].3 as int, m + 1)
    } else if k == "property"@ {
        named_member(ns, src, cname, rel, m, "property_name"@, "property"@)
    } else if k == "parameter"@ {
        named_member(ns, src, cname, rel, m, "parameter_name"@, "parameter"@)
    } else {
        None
    }
}

/// The symbol of a statement of a class body: a `class_statement` stands for
/// its first named child, any other node for itself.
pub open spec fn stmt_sym(ns: Seq<NodeText>, src: Seq<u8>, cname: Seq<char>, rel: Seq<char>, j: int) -> Option<
    SymbolText,
> {
    if ns[j].0 == "class_statement"@ {
        match find_named_kid(ns, ns[j].3 as int, j + 1) {
            Some(m) => member_sym(ns, src, cname, rel, m),
            None => None,
        }
    } else {
        member_sym(ns, src, cname, rel, j)
    }
}

/// The symbols of the statements, from `j` on, of a `class_body` of depth `d`.
pub open spec fn stmts_scan(
    ns: Seq<NodeText>,
    src: Seq<u8>,
    cname: Seq<char>,
    rel: Seq<char>,
    d: int,
    j: int,
) -> Seq<SymbolText>
    decreases ns.len() - j,
{
    if !within(ns, d, j) {
        Seq::empty()
    } else if ns[j].3 == d + 1 {
        opt_syms(stmt_sym(ns, src, cname, rel, j)) + stmts_scan(ns, src, cname, rel, d, j + 1)
    } else {
        stmts_scan(ns, src, cname, rel, d, j + 1)
    }
}

/// The symbols of the `class_body` children, from `j` on, of a
/// `class_definition` of depth `d`.
pub open spec fn bodies_scan(
    ns: Seq<NodeText>,
    src: Seq<u8>,
    cname: Seq<char>,
    rel: Seq<char>,
    d: int,
    j: int,
) -> Seq<SymbolText>
    decreases ns.len() - j,
{
    if !within(ns, d, j) {
        Seq::empty()
    } else if ns[j].3 == d + 1 && ns[j].0 == "class_body"@ {
        stmts_scan(ns, src, cname, rel, ns[j].3 as int, j + 1) + bodies_scan(
            ns,
            src,
            cname,
            rel,
            d,
            j + 1,
        )
    } else {
        bodies_scan(ns, src, cname, rel, d, j + 1)
    }
}

/// The member symbols of the `class_definition` children, from `j` on, of the
/// root (of depth `d`).
pub open spec fn tops_scan(
    ns: Seq<NodeText>,
    src: Seq<u8>,
    cname: Seq<char>,
    rel: Seq<char>,
    d: int,
    j: int,
) -> Seq<SymbolText>
    decreases ns.len() - j,
{
    if !within(ns, d, j) {
        Seq::empty()
    } else if ns[j].3 == d + 1 && ns[j].0 == "class_definition"@ {
        bodies_scan(ns, src, cname, rel, ns[j].3 as int, j + 1) + tops_scan(
            ns,
            src,
            cname,
            rel,
            d,
            j + 1,
        )
    } else {
        tops_scan(ns, src, cname, rel, d, j + 1)
    }
}

/// The class name: the text of the `class_name` child of the first
/// `class_definition` child, from `j` on, of the root (of depth `d`) that has
/// one.
pub open spec fn class_name_scan(ns: Seq<NodeText>, src: Seq<u8>, d: int, j: int) -> Option<Seq<char>>
    decreases ns.len() - j,
{
    if !within(ns, d, j) {
        None
    } else if ns[j].3 == d + 1 && ns[j].0 == "class_definition"@ {
        match find_kid(ns, ns[j].3 as int, j + 1, "class_name"@, "class_name"@) {
            Some(k) => Some(node_text_s(ns, src, k)),
            None => class_name_scan(ns, src, d, j + 1),
        }
    } else {
        class_name_scan(ns, src, d, j + 1)
    }
}

/// The symbols and warnings of a class file given what parsing it gave: a
/// `PARSE_ERROR` when the grammar is refused, when there is no tree, or when
/// the tree holds an error (the symbols are then still read); no symbols when
/// there is no class name or `query` does not match it; otherwise the class
/// and then its methods, properties and parameters, in source order.
pub open spec fn cls_symbols_s(
    outcome: Option<Option<(bool, Seq<NodeText>)>>,
    src: Seq<u8>,
    rel: Seq<char>,
    query: Seq<char>,
) -> (Seq<SymbolText>, Seq<WarningText>) {
    match outcome {
        None => (Seq::empty(), seq![parse_warning_s(rel, "failed to set tree-sitter language"@)]),
        Some(None) => (Seq::empty(), seq![parse_warning_s(rel, "tree-sitter parse returned None"@)]),
        Some(Some((has_error, ns))) => {
            let w = if has_error {
                seq![parse_warning_s(rel, "syntax error in file"@)]
            } else {
                Seq::empty()
            };
            let cn = if ns.len() > 0 {
                class_name_scan(ns, src, ns[0].3 as int, 1)
            } else {
                None
            };
            match cn {
                Some(c) => if glob_match_s(query, c) {
                    (seq![plain_sym(c, "class"@, rel)] + tops_scan(ns, src, c, rel, ns[0].3 as int, 1), w)
                } else {
                    (Seq::empty(), w)
                },
                None => (Seq::empty(), w),
            }
        },
    }
}

/// A routine label's name from its node's text: the text before the first
/// `(`, trimmed, without trailing `:`, trimmed again.
pub open spec fn tag_name_s(text: Seq<char>) -> Seq<char> {
    trim_s(trim_end_char_s(trim_s(before_char_s(text, '(')), ':'))
}

/// The label symbol `routine:tag`, when the tag's name is not empty.
pub open spec fn label_syms(rn: Seq<char>, rel: Seq<char>, tag: Seq<char>) -> Seq<SymbolText> {
    if tag.len() > 0 {
        seq![plain_sym(rn + ":"@ + tag, "label"@, rel)]
    } else {
        Seq::empty()
    }
}

/// The symbol of the tag child, of kind `k1` or `k2`, of the node at `j`.
pub open spec fn tag_syms(
    ns: Seq<NodeText>,
    src: Seq<u8>,
    rn: Seq<char>,
    rel: Seq<char>,
    j: int,
    k1: Seq<char>,
    k2: Seq<char>,
) -> Seq<SymbolText> {
    match find_kid(ns, ns[j].3 as int, j + 1, k1, k2) {
        Some(s) => label_syms(rn, rel, tag_name_s(node_text_s(ns, src, s))),
        None => Seq::empty(),
    }
}

/// The symbol of the `macro_def` child of the `#define` at `j`, when its text
/// is not empty.
pub open spec fn macro_syms(ns: Seq<NodeText>, src: Seq<u8>, rel: Seq<char>, j: int) -> Seq<SymbolText> {
    match find_kid(ns, ns[j].3 as int, j + 1, "macro_def"@, "macro_def"@) {
        Some(s) => if node_text_s(ns, src, s).len() > 0 {
            seq![plain_sym(node_text_s(ns, src, s), "macro"@, rel)]
        } else {
            Seq::empty()
        },
        None => Seq::empty(),
    }
}

/// The symbols of the children, from `j` on, of a routine node of depth `d`:
/// a label for a tag statement or a tag with parameters, a macro for a
/// `#define`, and the symbols within statements, read recursively.
pub open spec fn routine_scan(
    ns: Seq<NodeText>,
    src: Seq<u8>,
    rn: Seq<char>,
    rel: Seq<char>,
    d: int,
    j: int,
) -> Seq<SymbolText>
    decreases ns.len() - j,
{
    if !within(ns, d, j) {
        Seq::empty()
    } else if ns[j].3 == d + 1 {
        let k = ns[j].0;
        let here = if k == "tag_statement"@ {
            tag_syms(ns, src, rn, rel, j, "tag"@, "tag_with_params"@)
        } else if k == "pound_define"@ {
            macro_syms(ns, src, rel, j)
        } else if k == "tag_with_params"@ {
            tag_syms(ns, src, rn, rel, j, "tag"@, "tag"@)
        } else if k == "statement"@ || k == "source_file"@ {
            routine_scan(ns, src, rn, rel, ns[j].3 as int, j + 1)
        } else {
            Seq::empty()
        };
        here + routine_scan(ns, src, rn, rel, d, j + 1)
    } else {
        routine_scan(ns, src, rn, rel, d, j + 1)
    }
}

/// The symbols and warnings of a routine file named `rn` given what parsing
/// it gave: a `PARSE_ERROR` when the grammar is refused, when there is no
/// tree, or when the tree holds an error (the symbols are then still read);
/// no symbols when `query` does not match `rn`; otherwise its labels and
/// macros in source order.
pub open spec fn routine_symbols_s(
    outcome: Option<Option<(bool, Seq<NodeText>)>>,
    src: Seq<u8>,
    rel: Seq<char>,
    rn: Seq<char>,
    query: Seq<char>,
) -> (Seq<SymbolText>, Seq<WarningText>) {
    match outcome {
        None => (Seq::empty(), seq![parse_warning_s(rel, "failed to set routine language"@)]),
        Some(None) => (Seq::empty(), seq![parse_warning_s(rel, "parse returned None"@)]),
        Some(Some((has_error, ns))) => {
            let w = if has_error {
                seq![parse_warning_s(rel, "syntax error in routine"@)]
            } else {
                Seq::empty()
            };
            if !glob_match_s(query, rn) {
                (Seq::empty(), w)
            } else if ns.len() > 0 {
                (routine_scan(ns, src, rn, rel, ns[0].3 as int, 1), w)
            } else {
                (Seq::empty(), w)
            }
        },
    }
}

/// The views of a list of symbols and a list of warnings.
pub open spec fn found_texts(r: (Vec<Symbol>, Vec<ParseWarning>)) -> (Seq<SymbolText>, Seq<WarningText>) {
    (symbol_texts(r.0@), warning_texts(r.1@))
}

fn plain_symbol(name: &str, kind: &str, rel: &str) -> (s: Symbol)
    ensures
        s@ == plain_sym(name@, kind@, rel@),
{
    Symbol {
        name: String::from_str(name),
        kind: String::from_str(kind),
        file: String::from_str(rel),
        formal_spec: None,
        type_label: None,
    }
}

fn joined(a: &str, sep: &str, b: &str) -> (r: String)
    ensures
        r@ == a@ + sep@ + b@,
{
    let mut r = String::from_str(a);
    r.append(sep);
    r.append(b);
    r
}

fn formal_spec(raw: &str) -> (r: String)
    ensures
        r@ == formal_spec_s(raw@),
{
    let t = trim(raw);
    let v = chars_of(t.as_str());
    let n = v.len();
    if n >= 2 && v[0] == '(' && v[n - 1] == ')' {
        let inner = string_of(&v, 1, n - 1);
        trim(inner.as_str())
    } else {
        t
    }
}

fn push_sym(out: &mut Vec<Symbol>, s: Symbol)
    ensures
        symbol_texts(final(out)@) == symbol_texts(old(out)@) + seq![s@],
{
    out.push(s);
    proof {
        assert(symbol_texts(out@) =~= symbol_texts(old(out)@) + seq![s@]);
    }
}

fn method_parts_exec(ns: &Vec<SyntaxNode>, src: &[u8], d: usize, j: usize) -> (r: (
    Option<String>,
    Option<String>,
))
    ensures
        (ov(r.0), ov(r.1)) == method_parts(node_texts(ns@), src@, d as int, j as int, None, None),
{
    let ghost t = node_texts(ns@);
    let mut name: Option<String> = None;
    let mut spec: Option<String> = None;
    let mut i = j;
    while within_exec(ns, d, i)
        invariant
            t == node_texts(ns@),
            method_parts(t, src@, d as int, i as int, ov(name), ov(spec)) == method_parts(
                t,
                src@,
                d as int,
                j as int,
                None,
                None,
            ),
        decreases ns.len() - i,
    {
        if is_kid(ns, d, i) {
            if str_eq(ns[i].kind.as_str(), "method_name") {
                let n = first_ident_text_exec(ns, src, i);
                if !n.as_str().is_empty() {
                    name = Some(n);
                }
            } else if str_eq(ns[i].kind.as_str(), "arguments") {
                let raw = node_text(ns, src, i);
                spec = Some(formal_spec(raw.as_str()));
            }
        }
        i = i + 1;
    }
    (name, spec)
}

fn method_scan_exec(ns: &Vec<SyntaxNode>, src: &[u8], cname: &str, rel: &str, d: usize, j: usize) -> (r:
    Option<Symbol>)
    ensures
        osym(r) == method_scan(node_texts(ns@), src@, cname@, rel@, d as int, j as int),
{
    let ghost t = node_texts(ns@);
    let mut i = j;
    while within_exec(ns, d, i)
        invariant
            t == node_texts(ns@),
            method_scan(t, src@, cname@, rel@, d as int, i as int) == method_scan(
                t,
                src@,
                cname@,
                rel@,
                d as int,
                j as int,
            ),
        decreases ns.len() - i,
    {
        if is_kid(ns, d, i) && str_eq(ns[i].kind.as_str(), "method_definition") {
            let (name, spec) = method_parts_exec(ns, src, ns[i].depth, i + 1);
            match name {
                Some(n) => {
                    return Some(
                        Symbol {
                            name: joined(cname, ".", n.as_str()),
                            kind: String::from_str("method"),
                            file: String::from_str(rel),
                            formal_spec: spec,
                            type_label: None,
                        },
                    );
                },
                None => {},
            }
        }
        i = i + 1;
    }
    None
}

fn member_name_scan_exec(ns: &Vec<SyntaxNode>, src: &[u8], d: usize, j: usize, k: &str) -> (r: Option<
    String,
>)
    ensures
        ov(r) == member_name_scan(node_texts(ns@), src@, d as int, j as int, k@),
{
    let ghost t = node_texts(ns@);
    let mut i = j;
    while within_exec(ns, d, i)
        invariant
            t == node_texts(ns@),
            member_name_scan(t, src@, d as int, i as int, k@) == member_name_scan(
                t,
                src@,
                d as int,
                j as int,
                k@,
            ),
        decreases ns.len() - i,
    {
        if is_kid(ns, d, i) && str_eq(ns[i].kind.as_str(), k) {
            let n = first_ident_text_exec(ns, src, i);
            if !n.as_str().is_empty() {
                return Some(n);
            }
        }
        i = i + 1;
    }
    None
}

fn named_member_exec(
    ns: &Vec<SyntaxNode>,
    src: &[u8],
    cname: &str,
    rel: &str,
    m: usize,
    k: &str,
    label: &str,
) -> (r: Option<Symbol>)
    requires
        m < ns@.len(),
    ensures
        osym(r) == named_member(node_texts(ns@), src@, cname@, rel@, m as int, k@, label@),
{
    assert(ns@.len() == ns.len());
    match member_name_scan_exec(ns, src, ns[m].depth, m + 1, k) {
        Some(n) => Some(plain_symbol(joined(cname, ".", n.as_str()).as_str(), label, rel)),
        None => None,
    }
}

fn member_sym_exec(ns: &Vec<SyntaxNode>, src: &[u8], cname: &str, rel: &str, m: usize) -> (r: Option<
    Symbol,
>)
    requires
        m < ns@.len(),
    ensures
        osym(r) == member_sym(node_texts(ns@), src@, cname@, rel@, m as int),
{
    assert(ns@.len() == ns.len());
    let k = ns[m].kind.as_str();
    if str_eq(k, "method") || str_eq(k, "classmethod") {
        method_scan_exec(ns, src, cname, rel, ns[m].depth, m + 1)
    } else if str_eq(k, "property") {
        named_member_exec(ns, src, cname, rel, m, "property_name", "property")
    } else if str_eq(k, "parameter") {
        named_member_exec(ns, src, cname, rel, m, "parameter_name", "parameter")
    } else {
        None
    }
}

fn stmt_sym_exec(ns: &Vec<SyntaxNode>, src: &[u8], cname: &str, rel: &str, j: usize) -> (r: Option<
    Symbol,
>)
    requires
        j < ns@.len(),
    ensures
        osym(r) == stmt_sym(node_texts(ns@), src@, cname@, rel@, j as int),
{
    assert(ns@.len() == ns.len());
    if str_eq(ns[j].kind.as_str(), "class_statement") {
        match find_named_kid_exec(ns, ns[j].depth, j + 1) {
            Some(m) => member_sym_exec(ns, src, cname, rel, m),
            None => None,
        }
    } else {
        member_sym_exec(ns, src, cname, rel, j)
    }
}

fn stmts_scan_exec(
    ns: &Vec<SyntaxNode>,
    src: &[u8],
    cname: &str,
    rel: &str,
    d: usize,
    j: usize,
    out: &mut Vec<Symbol>,
)
    ensures
        symbol_texts(final(out)@) == symbol_texts(old(out)@) + stmts_scan(
            node_texts(ns@),
            src@,
            cname@,
            rel@,
            d as int,
            j as int,
        ),
{
    let ghost t = node_texts(ns@);
    let mut i = j;
    while within_exec(ns, d, i)
        invariant
            t == node_texts(ns@),
            symbol_texts(out@) + stmts_scan(t, src@, cname@, rel@, d as int, i as int) == symbol_texts(
                old(out)@,
            ) + stmts_scan(t, src@, cname@, rel@, d as int, j as int),
        decreases ns.len() - i,
    {
        let ghost before = symbol_texts(out@);
        let ghost rest = stmts_scan(t, src@, cname@, rel@, d as int, i + 1);
        if is_kid(ns, d, i) {
            match stmt_sym_exec(ns, src, cname, rel, i) {
                Some(s) => {
                    push_sym(out, s);
                    assert(before + (seq![s@] + rest) =~= before + seq![s@] + rest);
                },
                None => {
                    assert(before + (Seq::<SymbolText>::empty() + rest) =~= before + rest);
                },
            }
        }
        i = i + 1;
    }
}

fn bodies_scan_exec(
    ns: &Vec<SyntaxNode>,
    src: &[u8],
    cname: &str,
    rel: &str,
    d: usize,
    j: usize,
    out: &mut Vec<Symbol>,
)
    ensures
        symbol_texts(final(out)@) == symbol_texts(old(out)@) + bodies_scan(
            node_texts(ns@),
            src@,
            cname@,
            rel@,
            d as int,
            j as int,
        ),
{
    let ghost t = node_texts(ns@);
    let mut i = j;
    while within_exec(ns, d, i)
        invariant
            t == node_texts(ns@),
            symbol_texts(out@) + bodies_scan(t, src@, cname@, rel@, d as int, i as int) == symbol_texts(
                old(out)@,
            ) + bodies_scan(t, src@, cname@, rel@, d as int, j as int),
        decreases ns.len() - i,
    {
        let ghost before = symbol_texts(out@);
        let ghost rest = bodies_scan(t, src@, cname@, rel@, d as int, i + 1);
        if is_kid(ns, d, i) && str_eq(ns[i].kind.as_str(), "class_body") {
            stmts_scan_exec(ns, src, cname, rel, ns[i].depth, i + 1, out);
            let ghost here = stmts_scan(t, src@, cname@, rel@, t[i as int].3 as int, i + 1);
            assert(before + (here + rest) =~= before + here + rest);
        }
        i = i + 1;
    }
}

fn tops_scan_exec(
    ns: &Vec<SyntaxNode>,
    src: &[u8],
    cname: &str,
    rel: &str,
    d: usize,
    j: usize,
    out: &mut Vec<Symbol>,
)
    ensures
        symbol_texts(final(out)@) == symbol_texts(old(out)@) + tops_scan(
            node_texts(ns@),
            src@,
            cname@,
            rel@,
            d as int,
            j as int,
        ),
{
    let ghost t = node_texts(ns@);
    let mut i = j;
    while within_exec(ns, d, i)
        invariant
            t == node_texts(ns@),
            symbol_texts(out@) + tops_scan(t, src@, cname@, rel@, d as int, i as int) == symbol_texts(
                old(out)@,
            ) + tops_scan(t, src@, cname@, rel@, d as int, j as int),
        decreases ns.len() - i,
    {
        let ghost before = symbol_texts(out@);
        let ghost rest = tops_scan(t, src@, cname@, rel@, d as int, i + 1);
        if is_kid(ns, d, i) && str_eq(ns[i].kind.as_str(), "class_definition") {
            bodies_scan_exec(ns, src, cname, rel, ns[i].depth, i + 1, out);
            let ghost here = bodies_scan(t, src@, cname@, rel@, t[i as int].3 as int, i + 1);
            assert(before + (here + rest) =~= before + here + rest);
        }
        i = i + 1;
    }
}

fn class_name_scan_exec(ns: &Vec<SyntaxNode>, src: &[u8], d: usize, j: usize) -> (r: Option<String>)
    ensures
        ov(r) == class_name_scan(node_texts(ns@), src@, d as int, j as int),
{
    let ghost t = node_texts(ns@);
    let mut i = j;
    while within_exec(ns, d, i)
        invariant
            t == node_texts(ns@),
            class_name_scan(t, src@, d as int, i as int) == class_name_scan(t, src@, d as int, j as int),
        decreases ns.len() - i,
    {
        if is_kid(ns, d, i) && str_eq(ns[i].kind.as_str(), "class_definition") {
            match find_kid_exec(ns, ns[i].depth, i + 1, "class_name", "class_name") {
                Some(k) => {
                    return Some(node_text(ns, src, k));
                },
                None => {},
            }
        }
        i = i + 1;
    }
    None
}

fn one_warning(rel: &str, msg: &str) -> (r: Vec<ParseWarning>)
    ensures
        warning_texts(r@) == seq![parse_warning_s(rel@, msg@)],
{
    let mut r: Vec<ParseWarning> = Vec::new();
    r.push(text_warning("PARSE_ERROR", rel, msg));
    proof {
        assert(warning_texts(r@) =~= seq![parse_warning_s(rel@, msg@)]);
    }
    r
}

/// The symbols and warnings of the class file `rel_path` whose source parsed
/// to `outcome` (see `cls_symbols_s`).
pub fn cls_symbols_from_syntax(outcome: &ParseOutcome, source: &[u8], rel_path: &str, query: &str) -> (r:
    (Vec<Symbol>, Vec<ParseWarning>))
    ensures
        found_texts(r) == cls_symbols_s(outcome@, source@, rel_path@, query@),
{
    match outcome {
        ParseOutcome::LanguageRejected => {
            (Vec::new(), one_warning(rel_path, "failed to set tree-sitter language"))
        },
        ParseOutcome::NoTree => (Vec::new(), one_warning(rel_path, "tree-sitter parse returned None")),
        ParseOutcome::Parsed { has_error, nodes } => {
            let warnings = if *has_error {
                one_warning(rel_path, "syntax error in file")
            } else {
                Vec::new()
            };
            proof {
                if !*has_error {
                    assert(warning_texts(warnings@) =~= Seq::empty());
                }
            }
            let ghost t = node_texts(nodes@);
            if nodes.len() == 0 {
                proof {
                    assert(symbol_texts(Seq::<Symbol>::empty()) =~= Seq::empty());
                }
                return (Vec::new(), warnings);
            }
            let d0 = nodes[0].depth;
            let cname = match class_name_scan_exec(nodes, source, d0, 1) {
                Some(c) => c,
                None => {
                    proof {
                        assert(symbol_texts(Seq::<Symbol>::empty()) =~= Seq::empty());
                    }
                    return (Vec::new(), warnings);
                },
            };
            if !glob_match(query, cname.as_str()) {
                proof {
                    assert(symbol_texts(Seq::<Symbol>::empty()) =~= Seq::empty());
                }
                return (Vec::new(), warnings);
            }
            let mut symbols: Vec<Symbol> = Vec::new();
            push_sym(&mut symbols, plain_symbol(cname.as_str(), "class", rel_path));
            tops_scan_exec(nodes, source, cname.as_str(), rel_path, d0, 1, &mut symbols);
            proof {
                assert(symbol_texts(Seq::<Symbol>::empty()) =~= Seq::empty());
                assert(Seq::<SymbolText>::empty() + seq![plain_sym(cname@, "class"@, rel_path@)]
                    =~= seq![plain_sym(cname@, "class"@, rel_path@)]);
            }
            (symbols, warnings)
        },
    }
}

/// Parse `source` as a class and gather its symbols and warnings (see
/// `cls_symbols_s`, applied to what the parser gives).
pub fn extract_cls_symbols(source: &[u8], rel_path: &str, query: &str) -> (r: (
    Vec<Symbol>,
    Vec<ParseWarning>,
))
    ensures
        found_texts(r) == cls_symbols_s(udl_syntax(source@), source@, rel_path@, query@),
{
    let outcome = parse_udl(source);
    cls_symbols_from_syntax(&outcome, source, rel_path, query)
}

fn tag_name(text: &str) -> (r: String)
    ensures
        r@ == tag_name_s(text@),
{
    let head = before_char(text, '(');
    let t = trim(head.as_str());
    let u = trim_end_char(t.as_str(), ':');
    trim(u.as_str())
}

fn push_tag(
    ns: &Vec<SyntaxNode>,
    src: &[u8],
    rn: &str,
    rel: &str,
    j: usize,
    k1: &str,
    k2: &str,
    out: &mut Vec<Symbol>,
)
    requires
        j < ns@.len(),
    ensures
        symbol_texts(final(out)@) == symbol_texts(old(out)@) + tag_syms(
            node_texts(ns@),
            src@,
            rn@,
            rel@,
            j as int,
            k1@,
            k2@,
        ),
{
    assert(ns@.len() == ns.len());
    match find_kid_exec(ns, ns[j].depth, j + 1, k1, k2) {
        Some(s) => {
            let text = node_text(ns, src, s);
            let tag = tag_name(text.as_str());
            if !tag.as_str().is_empty() {
                push_sym(out, plain_symbol(joined(rn, ":", tag.as_str()).as_str(), "label", rel));
            } else {
                assert(symbol_texts(out@) + Seq::<SymbolText>::empty() =~= symbol_texts(out@));
            }
        },
        None => {
            assert(symbol_texts(out@) + Seq::<SymbolText>::empty() =~= symbol_texts(out@));
        },
    }
}

fn push_macro(ns: &Vec<SyntaxNode>, src: &[u8], rel: &str, j: usize, out: &mut Vec<Symbol>)
    requires
        j < ns@.len(),
    ensures
        symbol_texts(final(out)@) == symbol_texts(old(out)@) + macro_syms(
            node_texts(ns@),
            src@,
            rel@,
            j as int,
        ),
{
    assert(ns@.len() == ns.len());
    match find_kid_exec(ns, ns[j].depth, j + 1, "macro_def", "macro_def") {
        Some(s) => {
            let text = node_text(ns, src, s);
            if !text.as_str().is_empty() {
                push_sym(out, plain_symbol(text.as_str(), "macro", rel));
            } else {
                assert(symbol_texts(out@) + Seq::<SymbolText>::empty() =~= symbol_texts(out@));
            }
        },
        None => {
            assert(symbol_texts(out@) + Seq::<SymbolText>::empty() =~= symbol_texts(out@));
        },
    }
}

fn routine_scan_exec(
    ns: &Vec<SyntaxNode>,
    src: &[u8],
    rn: &str,
    rel: &str,
    d: usize,
    j: usize,
    out: &mut Vec<Symbol>,
)
    ensures
        symbol_texts(final(out)@) == symbol_texts(old(out)@) + routine_scan(
            node_texts(ns@),
            src@,
            rn@,
            rel@,
            d as int,
            j as int,
        ),
    decreases ns@.len() - j,
{
    let ghost t = node_texts(ns@);
    let mut i = j;
    while within_exec(ns, d, i)
        invariant
            t == node_texts(ns@),
            j <= i,
            symbol_texts(out@) + routine_scan(t, src@, rn@, rel@, d as int, i as int) == symbol_texts(
                old(out)@,
            ) + routine_scan(t, src@, rn@, rel@, d as int, j as int),
        decreases ns.len() - i,
    {
        let ghost before = symbol_texts(out@);
        let ghost rest = routine_scan(t, src@, rn@, rel@, d as int, i + 1);
        if is_kid(ns, d, i) {
            let k = ns[i].kind.as_str();
            if str_eq(k, "tag_statement") {
                push_tag(ns, src, rn, rel, i, "tag", "tag_with_params", out);
            } else if str_eq(k, "pound_define") {
                push_macro(ns, src, rel, i, out);
            } else if str_eq(k, "tag_with_params") {
                push_tag(ns, src, rn, rel, i, "tag", "tag", out);
            } else if str_eq(k, "statement") || str_eq(k, "source_file") {
                routine_scan_exec(ns, src, rn, rel, ns[i].depth, i + 1, out);
            } else {
                assert(before + Seq::<SymbolText>::empty() =~= before);
            }
            let ghost now = symbol_texts(out@);
            assert(now.subrange(before.len() as int, now.len() as int) + rest =~= now.subrange(
                before.len() as int,
                now.len() as int,
            ) + rest);
            assert(before + (now.subrange(before.len() as int, now.len() as int) + rest) =~= now + rest);
        }
        i = i + 1;
    }
}

/// The symbols and warnings of the routine file `rel_path`, named
/// `routine_name`, whose source parsed to `outcome` (see
/// `routine_symbols_s`).
pub fn routine_symbols_from_syntax(
    outcome: &ParseOutcome,
    source: &[u8],
    rel_path: &str,
    routine_name: &str,
    query: &str,
) -> (r: (Vec<Symbol>, Vec<ParseWarning>))
    ensures
        found_texts(r) == routine_symbols_s(outcome@, source@, rel_path@, routine_name@, query@),
{
    proof {
        assert(symbol_texts(Seq::<Symbol>::empty()) =~= Seq::empty());
    }
    match outcome {
        ParseOutcome::LanguageRejected => {
            (Vec::new(), one_warning(rel_path, "failed to set routine language"))
        },
        ParseOutcome::NoTree => (Vec::new(), one_warning(rel_path, "parse returned None")),
        ParseOutcome::Parsed { has_error, nodes } => {
            let warnings = if *has_error {
                one_warning(rel_path, "syntax error in routine")
            } else {
                Vec::new()
            };
            proof {
                if !*has_error {
                    assert(warning_texts(warnings@) =~= Seq::empty());
                }
            }
            if !glob_match(query, routine_name) || nodes.len() == 0 {
                return (Vec::new(), warnings);
            }
            let mut symbols: Vec<Symbol> = Vec::new();
            routine_scan_exec(nodes, source, routine_name, rel_path, nodes[0].depth, 1, &mut symbols);
            proof {
                let s = routine_scan(node_texts(nodes@), source@, routine_name@, rel_path@, node_texts(nodes@)[0].3 as int, 1);
                assert(Seq::<SymbolText>::empty() + s =~= s);
            }
            (symbols, warnings)
        },
    }
}

/// Parse `source` as a routine and gather its symbols and warnings (see
/// `routine_symbols_s`, applied to what the parser gives). The routine's name
/// is the stem of `rel_path`'s file name. How a path splits into components
/// depends on the platform: in general the name is a run of characters of
/// `rel_path`; for a path every platform splits at `/` alone it is
/// `path_stem_s(rel_path)`.
pub fn extract_routine_symbols(source: &[u8], rel_path: &str, query: &str) -> (r: (
    Vec<Symbol>,
    Vec<ParseWarning>,
))
    ensures
        plain_relative_path(rel_path@) ==> found_texts(r) == routine_symbols_s(
            routine_syntax(source@),
            source@,
            rel_path@,
            path_stem_s(rel_path@),
            query@,
        ),
        exists|stem: Seq<char>|
            #![trigger routine_symbols_s(routine_syntax(source@), source@, rel_path@, stem, query@)]
            is_run_of(stem, rel_path@) && found_texts(r) == routine_symbols_s(
                routine_syntax(source@),
                source@,
                rel_path@,
                stem,
                query@,
            ),
{
    let outcome = parse_routine(source);
    let stem = path_file_stem(rel_path);
    let r = routine_symbols_from_syntax(&outcome, source, rel_path, stem.as_str(), query);
    assert(is_run_of(stem@, rel_path@) && found_texts(r) == routine_symbols_s(
        routine_syntax(source@),
        source@,
        rel_path@,
        stem@,
        query@,
    ));
    r
}

// ---------------------------------------------------------------------------
// Workspace scan
// ---------------------------------------------------------------------------
/// What reading a workspace file gave.
pub enum FileRead {
    /// The file could not be read.
    Unreadable,
    /// The file's bytes.
    Contents(Vec<u8>),
}

/// A regular file under the workspace (symbolic links are not followed),
/// in scan order: each directory's entries sorted, depth first.
pub struct ScannedFile {
    /// The path relative to the workspace.
    pub rel_path: String,
    /// The last component of the path.
    pub file_name: String,
    pub read: FileRead,
}

/// The kind of source a file holds, by extension.
pub enum SourceKind {
    /// `.cls`: a class
    Class,
    /// `.mac` or `.inc`: a routine
    Routine,
}

/// `Path::extension` of a file name: the text after the last `.`, unless
/// there is no `.` or the only one starts the name.
pub open spec fn extension_s(file_name: Seq<char>) -> Option<Seq<char>> {
    match rfind_char_s(file_name, '.') {
        Some(i) => if i > 0 {
            Some(file_name.skip(i + 1))
        } else {
            None
        },
        None => None,
    }
}

/// `Path::file_stem` of a file name: the text before the last `.`, unless
/// there is no `.` or the only one starts the name, when it is the whole name.
pub open spec fn stem_s(file_name: Seq<char>) -> Seq<char> {
    match rfind_char_s(file_name, '.') {
        Some(i) => if i > 0 {
            file_name.take(i)
        } else {
            file_name
        },
        None => file_name,
    }
}

/// The stem of a file name (see `stem_s`): the name of the routine a `.mac`
/// or `.inc` file holds.
pub fn file_stem(file_name: &str) -> (r: String)
    ensures
        r@ == stem_s(file_name@),
{
    let v = chars_of(file_name);
    proof {
        lemma_rfind_char_props(v@, '.');
    }
    match rfind_char(&v, '.') {
        Some(i) => if i > 0 {
            string_of(&v, 0, i)
        } else {
            to_owned(file_name)
        },
        None => to_owned(file_name),
    }
}

/// The kind of source a file holds: `.cls` a class, `.mac` or `.inc` a
/// routine (the extension in any case); any other file is skipped.
pub open spec fn source_kind_s(file_name: Seq<char>) -> Option<SourceKind> {
    match extension_s(file_name) {
        Some(e) => if lower_s(e) == "cls"@ {
            Some(SourceKind::Class)
        } else if lower_s(e) == "mac"@ || lower_s(e) == "inc"@ {
            Some(SourceKind::Routine)
        } else {
            None
        },
        None => None,
    }
}

/// The kind of source a file holds, by its name.
pub fn source_kind(file_name: &str) -> (r: Option<SourceKind>)
    ensures
        r == source_kind_s(file_name@),
{
    let v = chars_of(file_name);
    proof {
        lemma_rfind_char_props(v@, '.');
    }
    match rfind_char(&v, '.') {
        Some(i) => {
            if i == 0 {
                return None;
            }
            assert(i < v@.len() && v@.len() == v.len());
            let e = string_of(&v, i + 1, v.len());
            assert(e@ == file_name@.skip(i + 1));
            let l = to_ascii_lowercase(e.as_str());
            if str_eq(l.as_str(), "cls") {
                Some(SourceKind::Class)
            } else if str_eq(l.as_str(), "mac") || str_eq(l.as_str(), "inc") {
                Some(SourceKind::Routine)
            } else {
                None
            }
        },
        None => None,
    }
}

/// A scan in progress: the symbols so far, the warnings so far, and for each
/// class name the files defining it, in the order first seen.
pub type ScanState = (Seq<SymbolText>, Seq<WarningText>, Seq<(Seq<char>, Seq<Seq<char>>)>);

/// The warning of a file, with a message and no class.
pub open spec fn file_warning(kind: Seq<char>, rel: Seq<char>, msg: Seq<char>) -> WarningText {
    (kind, Some(rel), None, None, Some(msg))
}

/// Where `name` is among the recorded classes.
pub open spec fn class_index(classes: Seq<(Seq<char>, Seq<Seq<char>>)>, name: Seq<char>) -> Option<
    int,
>
    decreases classes.len(),
{
    if classes.len() == 0 {
        None
    } else {
        match class_index(classes.drop_last(), name) {
            Some(i) => Some(i),
            None => if classes.last().0 == name {
                Some(classes.len() - 1)
            } else {
                None
            },
        }
    }
}

/// Record that `rel` defines the class `name`.
pub open spec fn record_class(
    classes: Seq<(Seq<char>, Seq<Seq<char>>)>,
    name: Seq<char>,
    rel: Seq<char>,
) -> Seq<(Seq<char>, Seq<Seq<char>>)> {
    match class_index(classes, name) {
        Some(i) => classes.update(i, (name, classes[i].1.push(rel))),
        None => classes.push((name, seq![rel])),
    }
}

/// Record every class symbol of `syms` as defined in `rel`.
pub open spec fn record_classes(
    classes: Seq<(Seq<char>, Seq<Seq<char>>)>,
    syms: Seq<SymbolText>,
    rel: Seq<char>,
) -> Seq<(Seq<char>, Seq<Seq<char>>)>
    decreases syms.len(),
{
    if syms.len() == 0 {
        classes
    } else {
        let c = record_classes(classes, syms.drop_last(), rel);
        if syms.last().1 == "class"@ {
            record_class(c, syms.last().0, rel)
        } else {
            c
        }
    }
}

/// The symbols and warnings of a source file of the given kind: a class
/// file's from the UDL grammar, a routine file's from the routine grammar,
/// the routine named by the stem of the file name.
pub open spec fn file_symbols_s(
    kind: SourceKind,
    bytes: Seq<u8>,
    rel: Seq<char>,
    file_name: Seq<char>,
    query: Seq<char>,
) -> (Seq<SymbolText>, Seq<WarningText>) {
    match kind {
        SourceKind::Class => cls_symbols_s(udl_syntax(bytes), bytes, rel, query),
        SourceKind::Routine => routine_symbols_s(
            routine_syntax(bytes),
            bytes,
            rel,
            stem_s(file_name),
            query,
        ),
    }
}

/// The scan after one more file: nothing once `limit` symbols are found or
/// for a file of another kind; a warning for an unreadable or non-UTF-8
/// file; otherwise the file's symbols, cut to what the limit leaves, and all
/// its warnings (the class names of a `.cls` file are recorded before the
/// cut).
pub open spec fn scan_step(st: ScanState, f: ScannedFile, query: Seq<char>, limit: nat) -> ScanState {
    if st.0.len() >= limit {
        st
    } else {
        match source_kind_s(f.file_name@) {
            None => st,
            Some(kind) => match f.read {
                FileRead::Unreadable => (
                    st.0,
                    st.1.push(file_warning("PARSE_ERROR"@, f.rel_path@, "failed to read file"@)),
                    st.2,
                ),
                FileRead::Contents(bytes) => if !vstd::utf8::valid_utf8(bytes@) {
                    (
                        st.0,
                        st.1.push(
                            file_warning("ENCODING_ERROR"@, f.rel_path@, "file is not valid UTF-8"@),
                        ),
                        st.2,
                    )
                } else {
                    let found = file_symbols_s(kind, bytes@, f.rel_path@, f.file_name@, query);
                    let s = found.0;
                    let keep = if s.len() <= limit - st.0.len() {
                        s.len() as int
                    } else {
                        limit - st.0.len()
                    };
                    (
                        st.0 + s.take(keep),
                        st.1 + found.1,
                        match kind {
                            SourceKind::Class => record_classes(st.2, s, f.rel_path@),
                            SourceKind::Routine => st.2,
                        },
                    )
                },
            },
        }
    }
}

/// The scan over the files, in order.
pub open spec fn scan_files(files: Seq<ScannedFile>, query: Seq<char>, limit: nat) -> ScanState
    decreases files.len(),
{
    if files.len() == 0 {
        (Seq::empty(), Seq::empty(), Seq::empty())
    } else {
        scan_step(scan_files(files.drop_last(), query, limit), files.last(), query, limit)
    }
}

/// One `DUPLICATE_CLASS` warning per class defined in more than one file.
pub open spec fn duplicate_warnings(classes: Seq<(Seq<char>, Seq<Seq<char>>)>) -> Seq<WarningText>
    decreases classes.len(),
{
    if classes.len() == 0 {
        Seq::empty()
    } else {
        let rest = duplicate_warnings(classes.drop_last());
        let (name, paths) = classes.last();
        if paths.len() > 1 {
            rest.push(("DUPLICATE_CLASS"@, None, Some(name), Some(paths), None))
        } else {
            rest
        }
    }
}

fn text_warning(kind: &str, rel: &str, msg: &str) -> (w: ParseWarning)
    ensures
        w@ == file_warning(kind@, rel@, msg@),
{
    ParseWarning {
        warning_type: String::from_str(kind),
        file: Some(String::from_str(rel)),
        class: None,
        files: None,
        message: Some(String::from_str(msg)),
    }
}

/// The recorded class names and their files, as text.
pub open spec fn class_texts(v: Seq<(String, Vec<String>)>) -> Seq<(Seq<char>, Seq<Seq<char>>)> {
    Seq::new(v.len(), |i: int| (v[i].0@, sv(v[i].1@)))
}

fn find_class(classes: &Vec<(String, Vec<String>)>, name: &str) -> (r: Option<usize>)
    ensures
        match r {
            Some(i) => class_index(class_texts(classes@), name@) == Some(i as int),
            None => class_index(class_texts(classes@), name@) is None,
        },
{
    let ghost ct = class_texts(classes@);
    let mut i: usize = 0;
    while i < classes.len()
        invariant
            ct == class_texts(classes@),
            0 <= i <= classes@.len(),
            class_index(ct.take(i as int), name@) is None,
        decreases classes.len() - i,
    {
        let hit = str_eq(classes[i].0.as_str(), name);
        proof {
            assert(ct.take(i + 1).drop_last() == ct.take(i as int));
            assert(ct.take(i + 1).last() == ct[i as int]);
        }
        if hit {
            proof {
                lemma_class_index_prefix(ct, i as int + 1);
            }
            return Some(i);
        }
        i = i + 1;
    }
    proof {
        assert(ct.take(ct.len() as int) == ct);
    }
    None
}

proof fn lemma_class_index_prefix(ct: Seq<(Seq<char>, Seq<Seq<char>>)>, k: int)
    requires
        0 < k <= ct.len(),
        class_index(ct.take(k), ct[k - 1].0) == Some(k - 1),
    ensures
        class_index(ct, ct[k - 1].0) == Some(k - 1),
    decreases ct.len() - k,
{
    if k < ct.len() {
        assert(ct.take(k + 1).drop_last() == ct.take(k));
        lemma_class_index_prefix_step(ct, k, ct[k - 1].0);
    } else {
        assert(ct.take(k) == ct);
    }
}

proof fn lemma_class_index_prefix_step(ct: Seq<(Seq<char>, Seq<Seq<char>>)>, k: int, name: Seq<char>)
    requires
        0 < k <= ct.len(),
        class_index(ct.take(k), name) is Some,
    ensures
        class_index(ct, name) == class_index(ct.take(k), name),
    decreases ct.len() - k,
{
    if k < ct.len() {
        assert(ct.take(k + 1).drop_last() == ct.take(k));
        lemma_class_index_prefix_step(ct, k + 1, name);
    } else {
        assert(ct.take(k) == ct);
    }
}

fn record_class_exec(classes: &mut Vec<(String, Vec<String>)>, name: &str, rel: &str)
    ensures
        class_texts(final(classes)@) == record_class(class_texts(old(classes)@), name@, rel@),
{
    let ghost before = class_texts(classes@);
    proof {
        lemma_class_index_found(before, name@);
    }
    match find_class(classes, name) {
        Some(i) => {
            let mut entry = classes.remove(i);
            entry.1.push(String::from_str(rel));
            classes.insert(i, entry);
            proof {
                assert(before[i as int].0 == name@);
                assert(sv(classes@[i as int].1@) =~= before[i as int].1.push(rel@));
                assert(class_texts(classes@) =~= before.update(
                    i as int,
                    (name@, before[i as int].1.push(rel@)),
                ));
            }
        },
        None => {
            classes.push((String::from_str(name), vec![String::from_str(rel)]));
            proof {
                assert(sv(classes@.last().1@) =~= seq![rel@]);
                assert(class_texts(classes@) =~= before.push((name@, seq![rel@])));
            }
        },
    }
}

proof fn lemma_class_index_found(ct: Seq<(Seq<char>, Seq<Seq<char>>)>, name: Seq<char>)
    ensures
        class_index(ct, name) matches Some(i) ==> 0 <= i < ct.len() && ct[i].0 == name,
    decreases ct.len(),
{
    if ct.len() > 0 {
        lemma_class_index_found(ct.drop_last(), name);
    }
}

proof fn lemma_record_classes_step(
    classes: Seq<(Seq<char>, Seq<Seq<char>>)>,
    syms: Seq<SymbolText>,
    k: int,
    rel: Seq<char>,
)
    requires
        0 <= k < syms.len(),
    ensures
        record_classes(classes, syms.take(k + 1), rel) == if syms[k].1 == "class"@ {
            record_class(record_classes(classes, syms.take(k), rel), syms[k].0, rel)
        } else {
            record_classes(classes, syms.take(k), rel)
        },
{
    assert(syms.take(k + 1).drop_last() == syms.take(k));
}

fn scan_one(
    f: ScannedFile,
    query: &str,
    limit: usize,
    symbols: &mut Vec<Symbol>,
    warnings: &mut Vec<ParseWarning>,
    classes: &mut Vec<(String, Vec<String>)>,
)
    ensures
        (symbol_texts(final(symbols)@), warning_texts(final(warnings)@), class_texts(final(classes)@))
            == scan_step(
            (symbol_texts(old(symbols)@), warning_texts(old(warnings)@), class_texts(old(classes)@)),
            f,
            query@,
            limit as nat,
        ),
{
    if symbols.len() >= limit {
        return;
    }
    let kind = match source_kind(f.file_name.as_str()) {
        Some(k) => k,
        None => {
            return;
        },
    };
    let ScannedFile { rel_path, file_name, read } = f;
    match read {
        FileRead::Unreadable => {
            let w = text_warning("PARSE_ERROR", rel_path.as_str(), "failed to read file");
            warnings.push(w);
            proof {
                assert(warning_texts(warnings@) =~= warning_texts(old(warnings)@).push(w@));
            }
        },
        FileRead::Contents(bytes) => {
            if !is_utf8(bytes.as_slice()) {
                let w = text_warning("ENCODING_ERROR", rel_path.as_str(), "file is not valid UTF-8");
                warnings.push(w);
                proof {
                    assert(warning_texts(warnings@) =~= warning_texts(old(warnings)@).push(w@));
                }
                return;
            }
            let (syms, warns) = match kind {
                SourceKind::Class => extract_cls_symbols(bytes.as_slice(), rel_path.as_str(), query),
                SourceKind::Routine => {
                    let rn = file_stem(file_name.as_str());
                    let outcome = parse_routine(bytes.as_slice());
                    routine_symbols_from_syntax(
                        &outcome,
                        bytes.as_slice(),
                        rel_path.as_str(),
                        rn.as_str(),
                        query,
                    )
                },
            };
            proof {
                assert((symbol_texts(syms@), warning_texts(warns@)) == file_symbols_s(
                    kind,
                    bytes@,
                    rel_path@,
                    file_name@,
                    query@,
                ));
            }
            let ghost s = symbol_texts(syms@);
            match kind {
                SourceKind::Class => {
                    let mut j: usize = 0;
                    while j < syms.len()
                        invariant
                            s == symbol_texts(syms@),
                            0 <= j <= syms@.len(),
                            class_texts(classes@) == record_classes(
                                class_texts(old(classes)@),
                                s.take(j as int),
                                rel_path@,
                            ),
                        decreases syms.len() - j,
                    {
                        proof {
                            lemma_record_classes_step(
                                class_texts(old(classes)@),
                                s,
                                j as int,
                                rel_path@,
                            );
                        }
                        if str_eq(syms[j].kind.as_str(), "class") {
                            record_class_exec(classes, syms[j].name.as_str(), rel_path.as_str());
                        }
                        j = j + 1;
                    }
                    proof {
                        assert(s.take(s.len() as int) == s);
                    }
                },
                SourceKind::Routine => {},
            }
            let remaining = limit - symbols.len();
            let mut syms = syms;
            if syms.len() > remaining {
                syms.truncate(remaining);
            }
            let ghost before_s = symbols@;
            let ghost before_w = warnings@;
            let mut warns = warns;
            let ghost ws = warns@;
            let ghost kept = syms@;
            symbols.append(&mut syms);
            warnings.append(&mut warns);
            proof {
                assert(symbol_texts(kept) =~= s.take(kept.len() as int));
                assert(symbol_texts(symbols@) =~= symbol_texts(before_s) + symbol_texts(kept));
                assert(warning_texts(warnings@) =~= warning_texts(before_w) + warning_texts(ws));
            }
        },
    }
}

/// Scan the files in order (see `scan_step`), gathering the symbols that
/// match `query`, then add one `DUPLICATE_CLASS` warning per class defined in
/// more than one file, in the order the classes were first seen.
pub fn scan_workspace(files: Vec<ScannedFile>, query: &str, limit: usize) -> (r: SymbolsLocalResult)
    ensures
        ({
            let st = scan_files(files@, query@, limit as nat);
            &&& symbol_texts(r.symbols@) == st.0
            &&& warning_texts(r.parse_warnings@) == st.1 + duplicate_warnings(st.2)
        }),
{
    let ghost fs = files@;
    let mut symbols: Vec<Symbol> = Vec::new();
    let mut warnings: Vec<ParseWarning> = Vec::new();
    let mut classes: Vec<(String, Vec<String>)> = Vec::new();
    let mut files = files;
    let ghost mut done: int = 0;
    while files.len() > 0
        invariant
            0 <= done <= fs.len(),
            files@ == fs.skip(done),
            (symbol_texts(symbols@), warning_texts(warnings@), class_texts(classes@))
                == scan_files(fs.take(done), query@, limit as nat),
        decreases files.len(),
    {
        let f = files.remove(0);
        proof {
            assert(f == fs[done]);
            assert(fs.take(done + 1).drop_last() == fs.take(done));
        }
        scan_one(f, query, limit, &mut symbols, &mut warnings, &mut classes);
        proof {
            done = done + 1;
            assert(files@ =~= fs.skip(done));
        }
    }
    proof {
        assert(fs.take(done) == fs);
    }
    let ghost st2 = class_texts(classes@);
    let mut i: usize = 0;
    let ghost base = warning_texts(warnings@);
    while i < classes.len()
        invariant
            st2 == class_texts(classes@),
            0 <= i <= classes@.len(),
            warning_texts(warnings@) == base + duplicate_warnings(st2.take(i as int)),
        decreases classes.len() - i,
    {
        proof {
            assert(st2.take(i + 1).drop_last() == st2.take(i as int));
        }
        if classes[i].1.len() > 1 {
            let w = ParseWarning {
                warning_type: String::from_str("DUPLICATE_CLASS"),
                file: None,
                class: Some(classes[i].0.clone()),
                files: Some(classes[i].1.clone()),
                message: None,
            };
            proof {
                assert(sv(classes@[i as int].1@) == st2[i as int].1);
            }
            warnings.push(w);
            proof {
                assert(warning_texts(warnings@) =~= (base + duplicate_warnings(
                    st2.take(i as int),
                )).push(w@));
            }
        }
        i = i + 1;
    }
    proof {
        assert(st2.take(st2.len() as int) == st2);
    }
    SymbolsLocalResult { symbols, parse_warnings: warnings }
}

// ---------------------------------------------------------------------------
// What every extraction keeps
// ---------------------------------------------------------------------------
/// Every symbol lies in the file `rel` and is a member of the class `c`: its
/// name is `c.` followed by the member's name.
pub open spec fn members_of(syms: Seq<SymbolText>, c: Seq<char>, rel: Seq<char>) -> bool {
    forall|i: int| 0 <= i < syms.len() ==> #[trigger] syms[i].2 == rel && has_prefix(syms[i].0, c + "."@)
}

/// One symbol that is a member of `c` in `rel`.
pub open spec fn member_of(s: Option<SymbolText>, c: Seq<char>, rel: Seq<char>) -> bool {
    s matches Some(x) ==> x.2 == rel && has_prefix(x.0, c + "."@)
}

proof fn lemma_dotted_prefix(c: Seq<char>, n: Seq<char>)
    ensures
        has_prefix(c + "."@ + n, c + "."@),
{
    assert((c + "."@ + n).take((c + "."@).len() as int) =~= c + "."@);
}

proof fn lemma_members_concat(a: Seq<SymbolText>, b: Seq<SymbolText>, c: Seq<char>, rel: Seq<char>)
    requires
        members_of(a, c, rel),
        members_of(b, c, rel),
    ensures
        members_of(a + b, c, rel),
{
    assert forall|i: int| 0 <= i < (a + b).len() implies #[trigger] (a + b)[i].2 == rel && has_prefix(
        (a + b)[i].0,
        c + "."@,
    ) by {
        if i < a.len() {
            assert((a + b)[i] == a[i]);
            assert(a[i].2 == rel && has_prefix(a[i].0, c + "."@));
        } else {
            let j = i - a.len();
            assert(0 <= j < b.len());
            assert((a + b)[i] == b[j]);
            let s = b[j];
            assert(s.2 == rel);
            assert(has_prefix(s.0, c + "."@));
        }
    }
}

proof fn lemma_method_scan_member(
    ns: Seq<NodeText>,
    src: Seq<u8>,
    c: Seq<char>,
    rel: Seq<char>,
    d: int,
    j: int,
)
    ensures
        member_of(method_scan(ns, src, c, rel, d, j), c, rel),
    decreases ns.len() - j,
{
    if within(ns, d, j) {
        lemma_method_scan_member(ns, src, c, rel, d, j + 1);
        if let Some(n) = method_parts(ns, src, ns[j].3 as int, j + 1, None, None).0 {
            lemma_dotted_prefix(c, n);
        }
    }
}

proof fn lemma_member_sym_member(ns: Seq<NodeText>, src: Seq<u8>, c: Seq<char>, rel: Seq<char>, m: int)
    ensures
        member_of(member_sym(ns, src, c, rel, m), c, rel),
{
    lemma_method_scan_member(ns, src, c, rel, ns[m].3 as int, m + 1);
    if let Some(n) = member_name_scan(ns, src, ns[m].3 as int, m + 1, "property_name"@) {
        lemma_dotted_prefix(c, n);
    }
    if let Some(n) = member_name_scan(ns, src, ns[m].3 as int, m + 1, "parameter_name"@) {
        lemma_dotted_prefix(c, n);
    }
}

proof fn lemma_stmts_members(ns: Seq<NodeText>, src: Seq<u8>, c: Seq<char>, rel: Seq<char>, d: int, j: int)
    ensures
        members_of(stmts_scan(ns, src, c, rel, d, j), c, rel),
    decreases ns.len() - j,
{
    if within(ns, d, j) {
        lemma_stmts_members(ns, src, c, rel, d, j + 1);
        if ns[j].3 == d + 1 {
            lemma_member_sym_member(ns, src, c, rel, j);
            if let Some(m) = find_named_kid(ns, ns[j].3 as int, j + 1) {
                lemma_member_sym_member(ns, src, c, rel, m);
            }
            lemma_members_concat(
                opt_syms(stmt_sym(ns, src, c, rel, j)),
                stmts_scan(ns, src, c, rel, d, j + 1),
                c,
                rel,
            );
        }
    }
}

proof fn lemma_bodies_members(ns: Seq<NodeText>, src: Seq<u8>, c: Seq<char>, rel: Seq<char>, d: int, j: int)
    ensures
        members_of(bodies_scan(ns, src, c, rel, d, j), c, rel),
    decreases ns.len() - j,
{
    if within(ns, d, j) {
        lemma_bodies_members(ns, src, c, rel, d, j + 1);
        lemma_stmts_members(ns, src, c, rel, ns[j].3 as int, j + 1);
        lemma_members_concat(
            stmts_scan(ns, src, c, rel, ns[j].3 as int, j + 1),
            bodies_scan(ns, src, c, rel, d, j + 1),
            c,
            rel,
        );
    }
}

proof fn lemma_tops_members(ns: Seq<NodeText>, src: Seq<u8>, c: Seq<char>, rel: Seq<char>, d: int, j: int)
    ensures
        members_of(tops_scan(ns, src, c, rel, d, j), c, rel),
    decreases ns.len() - j,
{
    if within(ns, d, j) {
        lemma_tops_members(ns, src, c, rel, d, j + 1);
        lemma_bodies_members(ns, src, c, rel, ns[j].3 as int, j + 1);
        lemma_members_concat(
            bodies_scan(ns, src, c, rel, ns[j].3 as int, j + 1),
            tops_scan(ns, src, c, rel, d, j + 1),
            c,
            rel,
        );
    }
}

/// The symbols of a class file answer the query: there are some only when the
/// file's class name matches `query`; the first is then that class, and every
/// other one is a member of it, named `class.member`; all lie in `rel`.
pub proof fn lemma_cls_symbols_answer_query(
    outcome: Option<Option<(bool, Seq<NodeText>)>>,
    src: Seq<u8>,
    rel: Seq<char>,
    query: Seq<char>,
)
    ensures
        ({
            let syms = cls_symbols_s(outcome, src, rel, query).0;
            syms.len() > 0 ==> {
                &&& glob_match_s(query, syms[0].0)
                &&& syms[0] == plain_sym(syms[0].0, "class"@, rel)
                &&& members_of(syms.drop_first(), syms[0].0, rel)
            }
        }),
{
    if let Some(Some((has_error, ns))) = outcome {
        if ns.len() > 0 {
            if let Some(c) = class_name_scan(ns, src, ns[0].3 as int, 1) {
                let members = tops_scan(ns, src, c, rel, ns[0].3 as int, 1);
                lemma_tops_members(ns, src, c, rel, ns[0].3 as int, 1);
                assert((seq![plain_sym(c, "class"@, rel)] + members).drop_first() =~= members);
            }
        }
    }
}

/// Every symbol of a routine file lies in `rel` and is a label or a macro.
pub open spec fn routine_members(syms: Seq<SymbolText>, rel: Seq<char>) -> bool {
    forall|i: int| 0 <= i < syms.len() ==> #[trigger] syms[i].2 == rel && (syms[i].1 == "label"@
        || syms[i].1 == "macro"@)
}

proof fn lemma_routine_members_concat(a: Seq<SymbolText>, b: Seq<SymbolText>, rel: Seq<char>)
    requires
        routine_members(a, rel),
        routine_members(b, rel),
    ensures
        routine_members(a + b, rel),
{
    assert forall|i: int| 0 <= i < (a + b).len() implies #[trigger] (a + b)[i].2 == rel && ((a
        + b)[i].1 == "label"@ || (a + b)[i].1 == "macro"@) by {
        if i < a.len() {
            assert((a + b)[i] == a[i]);
            assert(a[i].2 == rel && (a[i].1 == "label"@ || a[i].1 == "macro"@));
        } else {
            let j = i - a.len();
            assert(0 <= j < b.len());
            assert((a + b)[i] == b[j]);
            let s = b[j];
            assert(s.2 == rel);
            assert(s.1 == "label"@ || s.1 == "macro"@);
        }
    }
}

proof fn lemma_routine_scan_members(
    ns: Seq<NodeText>,
    src: Seq<u8>,
    rn: Seq<char>,
    rel: Seq<char>,
    d: int,
    j: int,
)
    ensures
        routine_members(routine_scan(ns, src, rn, rel, d, j), rel),
    decreases ns.len() - j,
{
    if within(ns, d, j) {
        lemma_routine_scan_members(ns, src, rn, rel, d, j + 1);
        if ns[j].3 == d + 1 {
            lemma_routine_scan_members(ns, src, rn, rel, ns[j].3 as int, j + 1);
            let k = ns[j].0;
            let here = if k == "tag_statement"@ {
                tag_syms(ns, src, rn, rel, j, "tag"@, "tag_with_params"@)
            } else if k == "pound_define"@ {
                macro_syms(ns, src, rel, j)
            } else if k == "tag_with_params"@ {
                tag_syms(ns, src, rn, rel, j, "tag"@, "tag"@)
            } else if k == "statement"@ || k == "source_file"@ {
                routine_scan(ns, src, rn, rel, ns[j].3 as int, j + 1)
            } else {
                Seq::empty()
            };
            lemma_routine_members_concat(here, routine_scan(ns, src, rn, rel, d, j + 1), rel);
        }
    }
}

/// The symbols of a routine file answer the query: there are some only when
/// the routine's name matches `query`; each is a label or a macro of the file
/// `rel`.
pub proof fn lemma_routine_symbols_answer_query(
    outcome: Option<Option<(bool, Seq<NodeText>)>>,
    src: Seq<u8>,
    rel: Seq<char>,
    rn: Seq<char>,
    query: Seq<char>,
)
    ensures
        ({
            let syms = routine_symbols_s(outcome, src, rel, rn, query).0;
            &&& syms.len() > 0 ==> glob_match_s(query, rn)
            &&& routine_members(syms, rel)
        }),
{
    if let Some(Some((has_error, ns))) = outcome {
        if ns.len() > 0 {
            lemma_routine_scan_members(ns, src, rn, rel, ns[0].3 as int, 1);
        }
    }
}

/// A scan never gathers more than `limit` symbols.
pub proof fn lemma_scan_within_limit(files: Seq<ScannedFile>, query: Seq<char>, limit: nat)
    ensures
        scan_files(files, query, limit).0.len() <= limit,
    decreases files.len(),
{
    if files.len() > 0 {
        lemma_scan_within_limit(files.drop_last(), query, limit);
    }
}

} // verus!
