//! Character-level text operations with their mathematical meaning.
//!
//! Every operation here is stated over `Seq<char>`, the view of `str` and
//! `String`, and mirrors the behaviour of the std method named in its doc.
use vstd::prelude::*;

verus! {

// ---------------------------------------------------------------------------
// Specifications
// ---------------------------------------------------------------------------
/// Unicode `White_Space`, the property tested by `char::is_whitespace`.
pub open spec fn is_ws(c: char) -> bool {
    ||| ('\t' <= c && c <= '\r')
    ||| c == ' '
    ||| c == '\u{85}'
    ||| c == '\u{a0}'
    ||| c == '\u{1680}'
    ||| ('\u{2000}' <= c && c <= '\u{200a}')
    ||| c == '\u{2028}'
    ||| c == '\u{2029}'
    ||| c == '\u{202f}'
    ||| c == '\u{205f}'
    ||| c == '\u{3000}'
}

/// Number of leading whitespace characters.
pub open spec fn lead_ws(s: Seq<char>) -> nat
    decreases s.len(),
{
    if s.len() > 0 && is_ws(s[0]) {
        1 + lead_ws(s.drop_first())
    } else {
        0
    }
}

/// Number of trailing whitespace characters.
pub open spec fn trail_ws(s: Seq<char>) -> nat
    decreases s.len(),
{
    if s.len() > 0 && is_ws(s.last()) {
        1 + trail_ws(s.drop_last())
    } else {
        0
    }
}

/// `str::trim_start`.
pub open spec fn trim_start_s(s: Seq<char>) -> Seq<char> {
    s.skip(lead_ws(s) as int)
}

/// `str::trim_end`.
pub open spec fn trim_end_s(s: Seq<char>) -> Seq<char> {
    s.take(s.len() - trail_ws(s))
}

/// `str::trim`.
pub open spec fn trim_s(s: Seq<char>) -> Seq<char> {
    trim_end_s(trim_start_s(s))
}

/// `p` is a prefix of `s`.
pub open spec fn has_prefix(s: Seq<char>, p: Seq<char>) -> bool {
    p.len() <= s.len() && s.take(p.len() as int) == p
}

/// `p` is a suffix of `s`.
pub open spec fn has_suffix(s: Seq<char>, p: Seq<char>) -> bool {
    p.len() <= s.len() && s.skip(s.len() - p.len()) == p
}

/// `p` occurs in `s` at position `i`.
pub open spec fn occurs_at(s: Seq<char>, p: Seq<char>, i: int) -> bool {
    0 <= i && i + p.len() <= s.len() && s.subrange(i, i + p.len()) == p
}

/// `p` occurs somewhere in `s` (`str::contains`).
pub open spec fn contains_s(s: Seq<char>, p: Seq<char>) -> bool {
    exists|i: int| occurs_at(s, p, i)
}

/// Drops one trailing `'\r'`, if any.
pub open spec fn strip_cr(s: Seq<char>) -> Seq<char> {
    if s.len() > 0 && s.last() == '\r' {
        s.drop_last()
    } else {
        s
    }
}

/// The state of `str::lines` after reading `s`: the finished lines and the
/// characters read since the last `'\n'`.
pub open spec fn lines_state(s: Seq<char>) -> (Seq<Seq<char>>, Seq<char>)
    decreases s.len(),
{
    if s.len() == 0 {
        (Seq::empty(), Seq::empty())
    } else {
        let st = lines_state(s.drop_last());
        if s.last() == '\n' {
            (st.0.push(strip_cr(st.1)), Seq::empty())
        } else {
            (st.0, st.1.push(s.last()))
        }
    }
}

/// `str::lines`: split at `'\n'`, drop a `'\r'` before each `'\n'`, and keep
/// the text after the last `'\n'` only when it is not empty.
pub open spec fn lines_s(s: Seq<char>) -> Seq<Seq<char>> {
    let st = lines_state(s);
    if st.1.len() > 0 {
        st.0.push(st.1)
    } else {
        st.0
    }
}

/// `str::replace` with a single-character pattern.
pub open spec fn replace_char_s(s: Seq<char>, c: char, r: Seq<char>) -> Seq<char>
    decreases s.len(),
{
    if s.len() == 0 {
        Seq::empty()
    } else {
        replace_char_s(s.drop_last(), c, r) + if s.last() == c {
            r
        } else {
            seq![s.last()]
        }
    }
}

/// `char::to_ascii_lowercase`.
pub open spec fn lower_char(c: char) -> char {
    if 'A' <= c && c <= 'Z' {
        ((c as u32) + 32) as char
    } else {
        c
    }
}

/// `char::to_ascii_uppercase`.
pub open spec fn upper_char(c: char) -> char {
    if 'a' <= c && c <= 'z' {
        ((c as u32) - 32) as char
    } else {
        c
    }
}

/// `str::to_ascii_lowercase`.
pub open spec fn lower_s(s: Seq<char>) -> Seq<char> {
    Seq::new(s.len(), |i: int| lower_char(s[i]))
}

/// `str::to_ascii_uppercase`.
pub open spec fn upper_s(s: Seq<char>) -> Seq<char> {
    Seq::new(s.len(), |i: int| upper_char(s[i]))
}

/// `[String]::join(sep)`.
pub open spec fn join_s(parts: Seq<Seq<char>>, sep: Seq<char>) -> Seq<char>
    decreases parts.len(),
{
    if parts.len() == 0 {
        Seq::empty()
    } else if parts.len() == 1 {
        parts[0]
    } else {
        join_s(parts.drop_last(), sep) + sep + parts.last()
    }
}

/// Index of the first occurrence of `c` in `s`, if any.
pub open spec fn find_char_s(s: Seq<char>, c: char) -> Option<int>
    decreases s.len(),
{
    if s.len() == 0 {
        None
    } else if s[0] == c {
        Some(0)
    } else {
        match find_char_s(s.drop_first(), c) {
            Some(i) => Some(i + 1),
            None => None,
        }
    }
}

/// Index of the last occurrence of `c` in `s`, if any.
pub open spec fn rfind_char_s(s: Seq<char>, c: char) -> Option<int>
    decreases s.len(),
{
    if s.len() == 0 {
        None
    } else if s.last() == c {
        Some(s.len() - 1)
    } else {
        rfind_char_s(s.drop_last(), c)
    }
}

/// The views of a sequence of strings.
pub open spec fn views(v: Seq<String>) -> Seq<Seq<char>> {
    Seq::new(v.len(), |i: int| v[i]@)
}

// ---------------------------------------------------------------------------
// Lemmas
// ---------------------------------------------------------------------------
proof fn lemma_lead_ws(s: Seq<char>, i: int)
    requires
        0 <= i <= s.len(),
        forall|j: int| 0 <= j < i ==> is_ws(#[trigger] s[j]),
        i == s.len() || !is_ws(s[i]),
    ensures
        lead_ws(s) == i,
    decreases i,
{
    if i > 0 {
        lemma_lead_ws(s.drop_first(), i - 1);
    }
}

proof fn lemma_trail_ws(s: Seq<char>, k: int)
    requires
        0 <= k <= s.len(),
        forall|j: int| s.len() - k <= j < s.len() ==> is_ws(#[trigger] s[j]),
        k == s.len() || !is_ws(s[s.len() - k - 1]),
    ensures
        trail_ws(s) == k,
    decreases k,
{
    if k > 0 {
        lemma_trail_ws(s.drop_last(), k - 1);
    }
}

/// After trimming the start, the first character (if any) is not whitespace.
pub proof fn lemma_lead_ws_bound(s: Seq<char>)
    ensures
        lead_ws(s) <= s.len(),
        forall|j: int| 0 <= j < lead_ws(s) ==> is_ws(#[trigger] s[j]),
        lead_ws(s) < s.len() ==> !is_ws(s[lead_ws(s) as int]),
    decreases s.len(),
{
    if s.len() > 0 && is_ws(s[0]) {
        lemma_lead_ws_bound(s.drop_first());
        assert forall|j: int| 0 <= j < lead_ws(s) implies is_ws(#[trigger] s[j]) by {
            if j > 0 {
                assert(s[j] == s.drop_first()[j - 1]);
            }
        }
    }
}

/// Trailing-whitespace count facts.
pub proof fn lemma_trail_ws_bound(s: Seq<char>)
    ensures
        trail_ws(s) <= s.len(),
        forall|j: int| s.len() - trail_ws(s) <= j < s.len() ==> is_ws(#[trigger] s[j]),
        trail_ws(s) < s.len() ==> !is_ws(s[s.len() - trail_ws(s) - 1]),
    decreases s.len(),
{
    if s.len() > 0 && is_ws(s.last()) {
        lemma_trail_ws_bound(s.drop_last());
        assert forall|j: int| s.len() - trail_ws(s) <= j < s.len() implies is_ws(#[trigger] s[j]) by {
            if j < s.len() - 1 {
                assert(s[j] == s.drop_last()[j]);
            }
        }
    }
}

proof fn lemma_replace_step(s: Seq<char>, i: int, c: char, r: Seq<char>)
    requires
        0 <= i < s.len(),
    ensures
        replace_char_s(s.take(i + 1), c, r) == replace_char_s(s.take(i), c, r) + if s[i] == c {
            r
        } else {
            seq![s[i]]
        },
{
    assert(s.take(i + 1).drop_last() == s.take(i));
}

/// `str::lines` gives at most one line per character.
pub proof fn lemma_lines_len_bound(s: Seq<char>)
    ensures
        lines_s(s).len() <= s.len(),
{
    lemma_lines_state_bound(s);
}

proof fn lemma_lines_state_bound(s: Seq<char>)
    ensures
        lines_state(s).0.len() + (if lines_state(s).1.len() > 0 {
            1int
        } else {
            0int
        }) <= s.len(),
    decreases s.len(),
{
    if s.len() > 0 {
        lemma_lines_state_bound(s.drop_last());
    }
}

proof fn lemma_lines_step(s: Seq<char>, i: int)
    requires
        0 <= i < s.len(),
    ensures
        lines_state(s.take(i + 1)) == (if s[i] == '\n' {
            (lines_state(s.take(i)).0.push(strip_cr(lines_state(s.take(i)).1)), Seq::<char>::empty())
        } else {
            (lines_state(s.take(i)).0, lines_state(s.take(i)).1.push(s[i]))
        }),
{
    assert(s.take(i + 1).drop_last() == s.take(i));
}

proof fn lemma_join_step(parts: Seq<Seq<char>>, i: int, sep: Seq<char>)
    requires
        0 <= i < parts.len(),
    ensures
        join_s(parts.take(i + 1), sep) == if i == 0 {
            parts[0]
        } else {
            join_s(parts.take(i), sep) + sep + parts[i]
        },
{
    assert(parts.take(i + 1).drop_last() == parts.take(i));
}

proof fn lemma_find_char(s: Seq<char>, c: char, i: int)
    requires
        0 <= i <= s.len(),
        forall|j: int| 0 <= j < i ==> s[j] != c,
    ensures
        i < s.len() && s[i] == c ==> find_char_s(s, c) == Some(i),
        i == s.len() ==> find_char_s(s, c) is None,
    decreases i,
{
    if i > 0 {
        lemma_find_char(s.drop_first(), c, i - 1);
    }
}

proof fn lemma_rfind_char(s: Seq<char>, c: char, k: int)
    requires
        0 <= k <= s.len(),
        forall|j: int| k <= j < s.len() ==> s[j] != c,
    ensures
        k > 0 && s[k - 1] == c ==> rfind_char_s(s, c) == Some(k - 1),
        k == 0 ==> rfind_char_s(s, c) is None,
    decreases s.len() - k,
{
    if k < s.len() {
        lemma_rfind_char(s.drop_last(), c, k);
        assert(s.drop_last().len() == s.len() - 1);
    } else {
        if k > 0 && s[k - 1] == c {
        } else if k == 0 {
        }
    }
}

/// Facts about the first occurrence found by `find_char_s`.
pub proof fn lemma_find_char_props(s: Seq<char>, c: char)
    ensures
        find_char_s(s, c) matches Some(i) ==> 0 <= i < s.len() && s[i] == c && forall|j: int|
            0 <= j < i ==> s[j] != c,
        find_char_s(s, c) is None ==> forall|j: int| 0 <= j < s.len() ==> s[j] != c,
    decreases s.len(),
{
    if s.len() > 0 && s[0] != c {
        lemma_find_char_props(s.drop_first(), c);
        assert forall|j: int| 0 <= j < s.len() && (find_char_s(s, c) is None || j < find_char_s(
            s,
            c,
        )->0) implies s[j] != c by {
            if j > 0 {
                assert(s[j] == s.drop_first()[j - 1]);
            }
        }
    }
}

/// Facts about the last occurrence found by `rfind_char_s`.
pub proof fn lemma_rfind_char_props(s: Seq<char>, c: char)
    ensures
        rfind_char_s(s, c) matches Some(i) ==> 0 <= i < s.len() && s[i] == c && forall|j: int|
            i < j < s.len() ==> s[j] != c,
        rfind_char_s(s, c) is None ==> forall|j: int| 0 <= j < s.len() ==> s[j] != c,
    decreases s.len(),
{
    if s.len() > 0 && s.last() != c {
        lemma_rfind_char_props(s.drop_last(), c);
        assert forall|j: int| 0 <= j < s.len() - 1 implies s[j] == #[trigger] s.drop_last()[j] by {}
        assert(s[s.len() - 1] != c);
        match rfind_char_s(s.drop_last(), c) {
            Some(i) => {
                assert(s[i] == s.drop_last()[i]);
                assert forall|j: int| i < j < s.len() implies s[j] != c by {
                    if j < s.len() - 1 {
                        assert(s[j] == s.drop_last()[j]);
                    }
                }
            },
            None => {
                assert forall|j: int| 0 <= j < s.len() implies s[j] != c by {
                    if j < s.len() - 1 {
                        assert(s[j] == s.drop_last()[j]);
                    }
                }
            },
        }
    }
}

// ---------------------------------------------------------------------------
// Trusted std primitives
// ---------------------------------------------------------------------------
/// Appends one character to a string.
/// Trusted: calls `String::push`, which std documents as appending the given char
/// to the end of the string.
#[verifier::external_body]
pub(crate) fn push_char(s: &mut String, c: char)
    ensures
        final(s)@ == old(s)@.push(c),
{
    s.push(c);
}

// ---------------------------------------------------------------------------
// Executable operations
// ---------------------------------------------------------------------------
/// The characters of `s`, in order.
pub fn chars_of(s: &str) -> (v: Vec<char>)
    ensures
        v@ == s@,
{
    let mut v: Vec<char> = Vec::new();
    for c in it: s.chars()
        invariant
            v@ == it.seq().take(it.index() as int),
    {
        v.push(c);
    }
    v
}

/// A string holding `v[from..to]`.
pub fn string_of(v: &[char], from: usize, to: usize) -> (s: String)
    requires
        from <= to <= v@.len(),
    ensures
        s@ == v@.subrange(from as int, to as int),
{
    let mut s = String::new();
    let mut i = from;
    while i < to
        invariant
            from <= i <= to <= v@.len(),
            s@ == v@.subrange(from as int, i as int),
        decreases to - i,
    {
        push_char(&mut s, v[i]);
        assert(v@.subrange(from as int, i + 1) == v@.subrange(from as int, i as int).push(v@[i as int]));
        i = i + 1;
    }
    s
}

/// An owned copy of `s` (`str::to_string`).
pub fn to_owned(s: &str) -> (r: String)
    ensures
        r@ == s@,
{
    String::from_str(s)
}

/// `a == b` on string slices.
pub fn str_eq(a: &str, b: &str) -> (r: bool)
    ensures
        r == (a@ == b@),
{
    let va = chars_of(a);
    let vb = chars_of(b);
    chars_eq(&va, &vb)
}

/// `a == b` on character slices.
pub fn chars_eq(a: &[char], b: &[char]) -> (r: bool)
    ensures
        r == (a@ == b@),
{
    if a.len() != b.len() {
        return false;
    }
    let mut i: usize = 0;
    while i < a.len()
        invariant
            a@.len() == b@.len(),
            0 <= i <= a@.len(),
            forall|j: int| 0 <= j < i ==> a@[j] == b@[j],
        decreases a.len() - i,
    {
        if a[i] != b[i] {
            return false;
        }
        i = i + 1;
    }
    assert(a@ == b@);
    true
}

/// `v[at..]` starts with `p`.
pub fn chars_match_at(v: &[char], at: usize, p: &[char]) -> (r: bool)
    ensures
        r == occurs_at(v@, p@, at as int),
{
    if at > v.len() || p.len() > v.len() - at {
        return false;
    }
    let mut i: usize = 0;
    while i < p.len()
        invariant
            at + p@.len() <= v@.len(),
            at + p.len() <= v.len(),
            0 <= i <= p@.len(),
            forall|j: int| 0 <= j < i ==> v@[at + j] == p@[j],
        decreases p.len() - i,
    {
        if v[at + i] != p[i] {
            assert(v@.subrange(at as int, at + p@.len())[i as int] == v@[at + i]);
            return false;
        }
        i = i + 1;
    }
    assert(v@.subrange(at as int, at + p@.len()) == p@);
    true
}

/// `str::starts_with`.
pub fn starts_with(s: &str, p: &str) -> (r: bool)
    ensures
        r == has_prefix(s@, p@),
{
    let vs = chars_of(s);
    let vp = chars_of(p);
    let r = chars_match_at(&vs, 0, &vp);
    assert(vs@.subrange(0, vp@.len() as int) == vs@.take(vp@.len() as int));
    r
}

/// `str::ends_with`.
pub fn ends_with(s: &str, p: &str) -> (r: bool)
    ensures
        r == has_suffix(s@, p@),
{
    let vs = chars_of(s);
    let vp = chars_of(p);
    if vp.len() > vs.len() {
        return false;
    }
    let r = chars_match_at(&vs, vs.len() - vp.len(), &vp);
    assert(vs@.subrange(vs@.len() - vp@.len(), vs@.len() as int) == vs@.skip(
        vs@.len() - vp@.len(),
    ));
    r
}

/// Index of the first occurrence of `p` in `v` at or after `from`.
pub fn find_from(v: &[char], p: &[char], from: usize) -> (r: Option<usize>)
    requires
        from <= v@.len(),
    ensures
        r matches Some(i) ==> from <= i && occurs_at(v@, p@, i as int) && forall|j: int|
            from <= j < i ==> !occurs_at(v@, p@, j),
        r is None ==> forall|j: int| from <= j ==> !occurs_at(v@, p@, j),
{
    let mut i = from;
    while i < v.len()
        invariant
            from <= i <= v@.len(),
            forall|j: int| from <= j < i ==> !occurs_at(v@, p@, j),
        decreases v.len() - i,
    {
        if chars_match_at(v, i, p) {
            return Some(i);
        }
        i = i + 1;
    }
    if chars_match_at(v, i, p) {
        return Some(i);
    }
    assert forall|j: int| from <= j implies !occurs_at(v@, p@, j) by {
        if j > v@.len() {
        }
    }
    None
}

/// `str::contains` with a string pattern.
pub fn contains(s: &str, p: &str) -> (r: bool)
    ensures
        r == contains_s(s@, p@),
{
    let vs = chars_of(s);
    let vp = chars_of(p);
    match find_from(&vs, &vp, 0) {
        Some(i) => true,
        None => {
            assert forall|j: int| !occurs_at(s@, p@, j) by {
                if j >= 0 {
                }
            }
            false
        },
    }
}

/// Index of the first non-whitespace character.
pub fn lead_ws_exec(v: &[char]) -> (i: usize)
    ensures
        i == lead_ws(v@),
{
    let mut i: usize = 0;
    while i < v.len() && is_whitespace(v[i])
        invariant
            0 <= i <= v@.len(),
            forall|j: int| 0 <= j < i ==> is_ws(#[trigger] v@[j]),
        decreases v.len() - i,
    {
        i = i + 1;
    }
    proof {
        lemma_lead_ws(v@, i as int);
    }
    i
}

/// Number of trailing whitespace characters.
pub fn trail_ws_exec(v: &[char]) -> (k: usize)
    ensures
        k == trail_ws(v@),
{
    let mut k: usize = 0;
    while k < v.len() && is_whitespace(v[v.len() - k - 1])
        invariant
            0 <= k <= v@.len(),
            forall|j: int| v@.len() - k <= j < v@.len() ==> is_ws(#[trigger] v@[j]),
        decreases v.len() - k,
    {
        k = k + 1;
    }
    proof {
        lemma_trail_ws(v@, k as int);
    }
    k
}

/// `char::is_whitespace`.
pub fn is_whitespace(c: char) -> (r: bool)
    ensures
        r == is_ws(c),
{
    ('\t' <= c && c <= '\r') || c == ' ' || c == '\u{85}' || c == '\u{a0}' || c == '\u{1680}' || (
    '\u{2000}' <= c && c <= '\u{200a}') || c == '\u{2028}' || c == '\u{2029}' || c == '\u{202f}'
        || c == '\u{205f}' || c == '\u{3000}'
}

/// `str::trim`.
pub fn trim(s: &str) -> (r: String)
    ensures
        r@ == trim_s(s@),
{
    let v = chars_of(s);
    let a = lead_ws_exec(&v);
    proof {
        lemma_lead_ws_bound(v@);
    }
    let rest = string_of(&v, a, v.len());
    let w = chars_of(rest.as_str());
    let k = trail_ws_exec(&w);
    proof {
        lemma_trail_ws_bound(w@);
    }
    string_of(&w, 0, w.len() - k)
}

/// `str::trim_start`.
pub fn trim_start(s: &str) -> (r: String)
    ensures
        r@ == trim_start_s(s@),
{
    let v = chars_of(s);
    let a = lead_ws_exec(&v);
    proof {
        lemma_lead_ws_bound(v@);
    }
    string_of(&v, a, v.len())
}

/// `str::trim_end`.
pub fn trim_end(s: &str) -> (r: String)
    ensures
        r@ == trim_end_s(s@),
{
    let w = chars_of(s);
    let k = trail_ws_exec(&w);
    proof {
        lemma_trail_ws_bound(w@);
    }
    string_of(&w, 0, w.len() - k)
}

/// `str::replace(c, r)` for a single character `c`.
pub fn replace_char(s: &str, c: char, r: &str) -> (out: String)
    ensures
        out@ == replace_char_s(s@, c, r@),
{
    let v = chars_of(s);
    let mut out = String::new();
    let mut i: usize = 0;
    while i < v.len()
        invariant
            v@ == s@,
            0 <= i <= v@.len(),
            out@ == replace_char_s(v@.take(i as int), c, r@),
        decreases v.len() - i,
    {
        proof {
            lemma_replace_step(v@, i as int, c, r@);
        }
        if v[i] == c {
            out.append(r);
        } else {
            push_char(&mut out, v[i]);
        }
        i = i + 1;
    }
    assert(v@.take(v@.len() as int) == v@);
    out
}

/// `char::to_ascii_lowercase`.
pub fn lower_char_exec(c: char) -> (r: char)
    ensures
        r == lower_char(c),
{
    if 'A' <= c && c <= 'Z' {
        let u = c as u32;
        ((u + 32) as u8) as char
    } else {
        c
    }
}

/// `char::to_ascii_uppercase`.
pub fn upper_char_exec(c: char) -> (r: char)
    ensures
        r == upper_char(c),
{
    if 'a' <= c && c <= 'z' {
        let u = c as u32;
        ((u - 32) as u8) as char
    } else {
        c
    }
}

/// `str::to_ascii_lowercase`.
pub fn to_ascii_lowercase(s: &str) -> (r: String)
    ensures
        r@ == lower_s(s@),
{
    let v = chars_of(s);
    let mut out = String::new();
    let mut i: usize = 0;
    while i < v.len()
        invariant
            v@ == s@,
            0 <= i <= v@.len(),
            out@ == lower_s(v@.take(i as int)),
        decreases v.len() - i,
    {
        push_char(&mut out, lower_char_exec(v[i]));
        assert(lower_s(v@.take(i + 1)) == lower_s(v@.take(i as int)).push(lower_char(v@[i as int])));
        i = i + 1;
    }
    assert(v@.take(v@.len() as int) == v@);
    out
}

/// `str::to_ascii_uppercase`.
pub fn to_ascii_uppercase(s: &str) -> (r: String)
    ensures
        r@ == upper_s(s@),
{
    let v = chars_of(s);
    let mut out = String::new();
    let mut i: usize = 0;
    while i < v.len()
        invariant
            v@ == s@,
            0 <= i <= v@.len(),
            out@ == upper_s(v@.take(i as int)),
        decreases v.len() - i,
    {
        push_char(&mut out, upper_char_exec(v[i]));
        assert(upper_s(v@.take(i + 1)) == upper_s(v@.take(i as int)).push(upper_char(v@[i as int])));
        i = i + 1;
    }
    assert(v@.take(v@.len() as int) == v@);
    out
}

/// `str::lines`, collected.
pub fn lines(s: &str) -> (out: Vec<String>)
    ensures
        views(out@) == lines_s(s@),
{
    let v = chars_of(s);
    let mut done: Vec<String> = Vec::new();
    let mut cur = String::new();
    let mut i: usize = 0;
    while i < v.len()
        invariant
            v@ == s@,
            0 <= i <= v@.len(),
            views(done@) == lines_state(v@.take(i as int)).0,
            cur@ == lines_state(v@.take(i as int)).1,
        decreases v.len() - i,
    {
        proof {
            lemma_lines_step(v@, i as int);
        }
        if v[i] == '\n' {
            let cv = chars_of(cur.as_str());
            let n = cv.len();
            let line = if n > 0 && cv[n - 1] == '\r' {
                string_of(&cv, 0, n - 1)
            } else {
                cur
            };
            assert(line@ == strip_cr(lines_state(v@.take(i as int)).1));
            done.push(line);
            cur = String::new();
            assert(views(done@) == lines_state(v@.take(i as int)).0.push(
                strip_cr(lines_state(v@.take(i as int)).1),
            ));
        } else {
            push_char(&mut cur, v[i]);
        }
        i = i + 1;
    }
    assert(v@.take(v@.len() as int) == v@);
    if cur.as_str().unicode_len() > 0 {
        done.push(cur);
        assert(views(done@) == lines_state(v@).0.push(lines_state(v@).1));
    }
    done
}

/// `[String]::join(sep)`.
pub fn join(parts: &[String], sep: &str) -> (r: String)
    ensures
        r@ == join_s(views(parts@), sep@),
{
    let mut r = String::new();
    let mut i: usize = 0;
    while i < parts.len()
        invariant
            0 <= i <= parts@.len(),
            r@ == join_s(views(parts@).take(i as int), sep@),
        decreases parts.len() - i,
    {
        proof {
            lemma_join_step(views(parts@), i as int, sep@);
        }
        if i > 0 {
            r.append(sep);
        }
        r.append(parts[i].as_str());
        i = i + 1;
    }
    assert(views(parts@).take(parts@.len() as int) == views(parts@));
    r
}

/// Position of the first `c` in `s` (`str::find` with a char pattern).
pub fn find_char(v: &[char], c: char) -> (r: Option<usize>)
    ensures
        r matches Some(i) ==> find_char_s(v@, c) == Some(i as int),
        r is None ==> find_char_s(v@, c) is None,
{
    let mut i: usize = 0;
    while i < v.len()
        invariant
            0 <= i <= v@.len(),
            forall|j: int| 0 <= j < i ==> v@[j] != c,
        decreases v.len() - i,
    {
        if v[i] == c {
            proof {
                lemma_find_char(v@, c, i as int);
            }
            return Some(i);
        }
        i = i + 1;
    }
    proof {
        lemma_find_char(v@, c, i as int);
    }
    None
}

/// Position of the last `c` in `s` (`str::rfind` with a char pattern).
pub fn rfind_char(v: &[char], c: char) -> (r: Option<usize>)
    ensures
        r matches Some(i) ==> rfind_char_s(v@, c) == Some(i as int),
        r is None ==> rfind_char_s(v@, c) is None,
{
    let mut k: usize = v.len();
    while k > 0
        invariant
            0 <= k <= v@.len(),
            forall|j: int| k <= j < v@.len() ==> v@[j] != c,
        decreases k,
    {
        if v[k - 1] == c {
            proof {
                lemma_rfind_char(v@, c, k as int);
            }
            return Some(k - 1);
        }
        k = k - 1;
    }
    proof {
        lemma_rfind_char(v@, c, 0);
    }
    None
}

/// `str::splitn(n, c)` for `n >= 1`: at most `n` pieces, the last one holding
/// the rest of the text.
pub open spec fn splitn_s(s: Seq<char>, n: nat, c: char) -> Seq<Seq<char>>
    decreases n,
{
    if n <= 1 {
        seq![s]
    } else {
        match find_char_s(s, c) {
            None => seq![s],
            Some(i) => seq![s.take(i)] + splitn_s(s.skip(i + 1), (n - 1) as nat, c),
        }
    }
}

/// An ASCII decimal digit.
pub open spec fn is_digit(c: char) -> bool {
    '0' <= c && c <= '9'
}

/// The value of a string of decimal digits.
pub open spec fn digits_value(d: Seq<char>) -> nat
    decreases d.len(),
{
    if d.len() == 0 {
        0
    } else {
        digits_value(d.drop_last()) * 10 + ((d.last() as u32) - ('0' as u32)) as nat
    }
}

/// `str::parse` for an unsigned integer type whose largest value is `max`: an
/// optional `+`, then one or more ASCII digits, with a value not above `max`.
pub open spec fn parse_unsigned_s(s: Seq<char>, max: nat) -> Option<nat> {
    let d = sign_stripped(s);
    if d.len() > 0 && all_digits(d) && digits_value(d) <= max {
        Some(digits_value(d))
    } else {
        None
    }
}

/// The text without one leading `+`.
pub open spec fn sign_stripped(s: Seq<char>) -> Seq<char> {
    if s.len() > 0 && s[0] == '+' {
        s.drop_first()
    } else {
        s
    }
}

/// Every character is an ASCII digit.
pub open spec fn all_digits(d: Seq<char>) -> bool {
    forall|i: int| 0 <= i < d.len() ==> is_digit(#[trigger] d[i])
}

/// `str::eq_ignore_ascii_case`.
pub open spec fn eq_ignore_case_s(a: Seq<char>, b: Seq<char>) -> bool {
    lower_s(a) == lower_s(b)
}

/// The character of decimal digit `d`.
pub open spec fn digit_char(d: int) -> char {
    ((('0' as u32) as int) + d) as char
}

/// The decimal digits of `n`, most significant first (`u64::to_string`).
pub open spec fn digits_s(n: nat) -> Seq<char>
    decreases n,
{
    if n < 10 {
        seq![digit_char(n as int)]
    } else {
        digits_s(n / 10).push(digit_char((n % 10) as int))
    }
}

/// The decimal text of `v` (`i64::to_string`).
pub open spec fn decimal_s(v: int) -> Seq<char> {
    if v < 0 {
        seq!['-'] + digits_s((-v) as nat)
    } else {
        digits_s(v as nat)
    }
}

fn push_digits(out: &mut String, n: u64)
    ensures
        final(out)@ == old(out)@ + digits_s(n as nat),
    decreases n,
{
    if n >= 10 {
        push_digits(out, n / 10);
    }
    let d = (n % 10) as u8;
    push_char(out, (d + 48) as char);
}

/// `u64::to_string`.
pub fn u64_to_string(n: u64) -> (r: String)
    ensures
        r@ == digits_s(n as nat),
{
    let mut r = String::new();
    push_digits(&mut r, n);
    r
}

/// `i64::to_string`.
pub fn i64_to_string(v: i64) -> (r: String)
    ensures
        r@ == decimal_s(v as int),
{
    let mut r = String::new();
    if v < 0 {
        push_char(&mut r, '-');
        let m: u64 = (-(v as i128)) as u64;
        push_digits(&mut r, m);
    } else {
        push_digits(&mut r, v as u64);
    }
    r
}

/// Position of the first `c` in `v` at or after `from`.
pub fn find_char_from(v: &[char], c: char, from: usize) -> (r: Option<usize>)
    requires
        from <= v@.len(),
    ensures
        r matches Some(i) ==> find_char_s(v@.skip(from as int), c) == Some((i - from) as int)
            && from <= i < v@.len(),
        r is None ==> find_char_s(v@.skip(from as int), c) is None,
{
    let mut i = from;
    while i < v.len()
        invariant
            from <= i <= v@.len(),
            forall|j: int| from <= j < i ==> v@[j] != c,
        decreases v.len() - i,
    {
        if v[i] == c {
            proof {
                lemma_find_char(v@.skip(from as int), c, (i - from) as int);
            }
            return Some(i);
        }
        i = i + 1;
    }
    proof {
        lemma_find_char(v@.skip(from as int), c, (i - from) as int);
    }
    None
}

/// `str::splitn(n, c)`, collected.
pub fn splitn(s: &str, n: usize, c: char) -> (r: Vec<String>)
    requires
        n >= 1,
    ensures
        views(r@) == splitn_s(s@, n as nat, c),
{
    let v = chars_of(s);
    let mut parts: Vec<String> = Vec::new();
    let mut pos: usize = 0;
    assert(v@.skip(0) == v@);
    assert(views(parts@) =~= Seq::<Seq<char>>::empty());
    assert(views(parts@) + splitn_s(v@, n as nat, c) =~= splitn_s(v@, n as nat, c));
    loop
        invariant
            v@ == s@,
            0 <= pos <= v@.len(),
            parts@.len() < n,
            views(parts@) + splitn_s(v@.skip(pos as int), (n - parts@.len()) as nat, c)
                == splitn_s(s@, n as nat, c),
        decreases v@.len() - pos,
    {
        let left = n - parts.len();
        if left <= 1 {
            parts.push(string_of(&v, pos, v.len()));
            assert(views(parts@) =~= views(parts@).drop_last() + seq![v@.skip(pos as int)]);
            return parts;
        }
        match find_char_from(&v, c, pos) {
            None => {
                parts.push(string_of(&v, pos, v.len()));
                assert(views(parts@) =~= views(parts@).drop_last() + seq![v@.skip(pos as int)]);
                return parts;
            },
            Some(i) => {
                let ghost old_parts = views(parts@);
                let ghost rest = v@.skip(pos as int);
                parts.push(string_of(&v, pos, i));
                assert(rest.take(i - pos) == v@.subrange(pos as int, i as int));
                assert(rest.skip(i - pos + 1) == v@.skip(i + 1));
                assert(views(parts@) =~= old_parts + seq![rest.take(i - pos)]);
                assert(i < v.len());
                pos = i + 1;
            },
        }
    }
}

/// `str::parse` into an unsigned integer not above `max`.
pub fn parse_unsigned(s: &str, max: u64) -> (r: Option<u64>)
    ensures
        r matches Some(n) ==> parse_unsigned_s(s@, max as nat) == Some(n as nat),
        r is None ==> parse_unsigned_s(s@, max as nat) is None,
{
    let v = chars_of(s);
    let start: usize = if v.len() > 0 && v[0] == '+' {
        1
    } else {
        0
    };
    let ghost d = if s@.len() > 0 && s@[0] == '+' {
        s@.drop_first()
    } else {
        s@
    };
    assert(d == v@.skip(start as int));
    if start >= v.len() {
        return None;
    }
    let mut acc: u64 = 0;
    let mut i = start;
    while i < v.len()
        invariant
            v@ == s@,
            d == v@.skip(start as int),
            d == sign_stripped(s@),
            start < v@.len(),
            start <= i <= v@.len(),
            forall|j: int| start <= j < i ==> is_digit(#[trigger] v@[j]),
            acc == digits_value(v@.subrange(start as int, i as int)),
            acc <= max,
        decreases v.len() - i,
    {
        let c = v[i];
        if !('0' <= c && c <= '9') {
            assert(d[i - start] == v@[i as int]);
            assert(!is_digit(d[i - start]));
            assert(!all_digits(d));
            return None;
        }
        let digit = (c as u32 - '0' as u32) as u128;
        assert(v@.subrange(start as int, i + 1).drop_last() == v@.subrange(start as int, i as int));
        let next: u128 = acc as u128 * 10 + digit;
        if next > max as u128 {
            proof {
                if all_digits(d) {
                    assert(d.take(i - start + 1) == v@.subrange(start as int, i + 1));
                    lemma_digits_value_prefix_grows(d, (i - start + 1) as int);
                }
            }
            return None;
        }
        acc = next as u64;
        i = i + 1;
    }
    assert(v@.subrange(start as int, v@.len() as int) == d);
    Some(acc)
}

/// With all digits, a longer prefix never has a smaller value.
pub proof fn lemma_digits_value_prefix_grows(d: Seq<char>, k: int)
    requires
        0 <= k <= d.len(),
        forall|i: int| 0 <= i < d.len() ==> is_digit(#[trigger] d[i]),
    ensures
        digits_value(d.take(k)) <= digits_value(d),
    decreases d.len() - k,
{
    if k < d.len() {
        lemma_digits_value_prefix_grows(d, k + 1);
        assert(d.take(k + 1).drop_last() == d.take(k));
    } else {
        assert(d.take(k) == d);
    }
}

/// `str::eq_ignore_ascii_case`.
pub fn eq_ignore_ascii_case(a: &str, b: &str) -> (r: bool)
    ensures
        r == eq_ignore_case_s(a@, b@),
{
    let la = to_ascii_lowercase(a);
    let lb = to_ascii_lowercase(b);
    str_eq(la.as_str(), lb.as_str())
}

// ---------------------------------------------------------------------------
// Occurrences
// ---------------------------------------------------------------------------
/// Number of leading `c` characters.
pub open spec fn lead_count(s: Seq<char>, c: char) -> nat
    decreases s.len(),
{
    if s.len() > 0 && s[0] == c {
        1 + lead_count(s.drop_first(), c)
    } else {
        0
    }
}

pub(crate) proof fn lemma_lead_count(s: Seq<char>, c: char, i: int)
    requires
        0 <= i <= s.len(),
        forall|j: int| 0 <= j < i ==> s[j] == c,
        i == s.len() || s[i] != c,
    ensures
        lead_count(s, c) == i,
    decreases i,
{
    if i > 0 {
        lemma_lead_count(s.drop_first(), c, i - 1);
    }
}

/// The leftmost occurrence of `p` in `s` at or after `from`.
pub open spec fn first_occurrence(s: Seq<char>, p: Seq<char>, from: int) -> Option<int>
    decreases s.len() + 1 - from,
{
    if from < 0 || from > s.len() {
        None
    } else if occurs_at(s, p, from) {
        Some(from)
    } else {
        first_occurrence(s, p, from + 1)
    }
}

pub(crate) proof fn lemma_first_occurrence(s: Seq<char>, p: Seq<char>, from: int, k: int)
    requires
        0 <= from <= k,
        occurs_at(s, p, k),
        forall|j: int| from <= j < k ==> !occurs_at(s, p, j),
    ensures
        first_occurrence(s, p, from) == Some(k),
    decreases k - from,
{
    if from < k {
        lemma_first_occurrence(s, p, from + 1, k);
    }
}

pub(crate) proof fn lemma_no_occurrence(s: Seq<char>, p: Seq<char>, from: int)
    requires
        0 <= from,
        forall|j: int| from <= j ==> !occurs_at(s, p, j),
    ensures
        first_occurrence(s, p, from) is None,
    decreases s.len() + 1 - from,
{
    if from <= s.len() {
        lemma_no_occurrence(s, p, from + 1);
    }
}

/// Number of trailing `c` characters.
pub open spec fn trail_count(s: Seq<char>, c: char) -> nat
    decreases s.len(),
{
    if s.len() > 0 && s.last() == c {
        1 + trail_count(s.drop_last(), c)
    } else {
        0
    }
}

/// `str::trim_end_matches(c)` for a character `c`.
pub open spec fn trim_end_char_s(s: Seq<char>, c: char) -> Seq<char> {
    s.take(s.len() - trail_count(s, c))
}

proof fn lemma_trail_count(s: Seq<char>, c: char, k: int)
    requires
        0 <= k <= s.len(),
        forall|j: int| k <= j < s.len() ==> s[j] == c,
        k == 0 || s[k - 1] != c,
    ensures
        trail_count(s, c) == s.len() - k,
    decreases s.len(),
{
    if k < s.len() {
        lemma_trail_count(s.drop_last(), c, k);
    }
}

/// `str::trim_end_matches(c)` for a character `c`.
pub fn trim_end_char(s: &str, c: char) -> (r: String)
    ensures
        r@ == trim_end_char_s(s@, c),
{
    let v = chars_of(s);
    let mut k = v.len();
    while k > 0 && v[k - 1] == c
        invariant
            0 <= k <= v@.len(),
            forall|j: int| k <= j < v@.len() ==> v@[j] == c,
        decreases k,
    {
        k = k - 1;
    }
    proof {
        lemma_trail_count(v@, c, k as int);
    }
    string_of(&v, 0, k)
}

/// The text before the first `c`, or all of `s` when `c` does not occur (the
/// first piece of `str::split(c)`).
pub open spec fn before_char_s(s: Seq<char>, c: char) -> Seq<char> {
    match find_char_s(s, c) {
        Some(i) => s.take(i),
        None => s,
    }
}

/// The text before the first `c`, or all of `s` when `c` does not occur.
pub fn before_char(s: &str, c: char) -> (r: String)
    ensures
        r@ == before_char_s(s@, c),
{
    let v = chars_of(s);
    proof {
        lemma_find_char_props(v@, c);
    }
    match find_char(&v, c) {
        Some(i) => string_of(&v, 0, i),
        None => to_owned(s),
    }
}

/// `str::parse::<i64>`: an optional `+` or `-`, then one or more ASCII
/// digits, with a value that fits in an `i64`.
pub open spec fn parse_i64_s(s: Seq<char>) -> Option<int> {
    if s.len() > 0 && s[0] == '-' {
        let d = s.drop_first();
        if d.len() > 0 && all_digits(d) && digits_value(d) <= 0x8000_0000_0000_0000 {
            Some(-(digits_value(d) as int))
        } else {
            None
        }
    } else {
        match parse_unsigned_s(s, 0x7fff_ffff_ffff_ffff) {
            Some(n) => Some(n as int),
            None => None,
        }
    }
}

/// `str::parse::<i64>`.
pub fn parse_i64(s: &str) -> (r: Option<i64>)
    ensures
        match r {
            Some(n) => parse_i64_s(s@) == Some(n as int),
            None => parse_i64_s(s@) is None,
        },
{
    let v = chars_of(s);
    if v.len() > 0 && v[0] == '-' {
        let rest = string_of(&v, 1, v.len());
        assert(rest@ == s@.drop_first());
        if v.len() > 1 && v[1] == '+' {
            assert(!is_digit(rest@[0]));
            return None;
        }
        assert(sign_stripped(rest@) == rest@);
        match parse_unsigned(rest.as_str(), 0x8000_0000_0000_0000) {
            Some(n) => if n == 0x8000_0000_0000_0000 {
                Some(i64::MIN)
            } else {
                Some(-(n as i64))
            },
            None => None,
        }
    } else {
        match parse_unsigned(s, 0x7fff_ffff_ffff_ffff) {
            Some(n) => Some(n as i64),
            None => None,
        }
    }
}

// ---------------------------------------------------------------------------
// Lines of joined text
// ---------------------------------------------------------------------------
/// The text holds no `'\n'`.
pub open spec fn no_newline(l: Seq<char>) -> bool {
    forall|j: int| 0 <= j < l.len() ==> l[j] != '\n'
}

/// No line holds a `'\n'`.
pub open spec fn no_newlines(ls: Seq<Seq<char>>) -> bool {
    forall|i: int| 0 <= i < ls.len() ==> no_newline(#[trigger] ls[i])
}

/// The lines with one trailing `'\r'` dropped from each.
pub open spec fn strip_crs(ls: Seq<Seq<char>>) -> Seq<Seq<char>> {
    Seq::new(ls.len(), |i: int| strip_cr(ls[i]))
}

proof fn lemma_lines_state_append(p: Seq<char>, t: Seq<char>)
    requires
        no_newline(t),
    ensures
        lines_state(p + t) == (lines_state(p).0, lines_state(p).1 + t),
    decreases t.len(),
{
    if t.len() == 0 {
        assert(p + t =~= p);
        assert(lines_state(p).1 + t =~= lines_state(p).1);
    } else {
        let t2 = t.drop_last();
        lemma_lines_state_append(p, t2);
        assert((p + t).drop_last() =~= p + t2);
        assert((p + t).last() == t.last());
        assert((lines_state(p).1 + t2).push(t.last()) =~= lines_state(p).1 + t);
    }
}

proof fn lemma_lines_state_join(k: Seq<Seq<char>>)
    requires
        k.len() > 0,
        no_newlines(k),
    ensures
        lines_state(join_s(k, "\n"@)) == (strip_crs(k.drop_last()), k.last()),
    decreases k.len(),
{
    reveal_strlit("\n");
    if k.len() == 1 {
        assert(no_newline(k[0]));
        lemma_lines_state_append(Seq::empty(), k[0]);
        assert(Seq::<char>::empty() + k[0] =~= k[0]);
        assert(strip_crs(k.drop_last()) =~= Seq::empty());
    } else {
        let k2 = k.drop_last();
        assert(no_newlines(k2)) by {
            assert forall|i: int| 0 <= i < k2.len() implies no_newline(#[trigger] k2[i]) by {
                assert(k2[i] == k[i]);
            }
        }
        lemma_lines_state_join(k2);
        let pre = join_s(k2, "\n"@) + "\n"@;
        assert(pre.drop_last() =~= join_s(k2, "\n"@));
        assert(pre.last() == '\n');
        assert(no_newline(k.last()));
        lemma_lines_state_append(pre, k.last());
        assert(Seq::<char>::empty() + k.last() =~= k.last());
        assert(strip_crs(k2.drop_last()).push(strip_cr(k2.last())) =~= strip_crs(k.drop_last()));
    }
}

/// The lines of lines joined by `'\n'` with a final `'\n'` are those lines,
/// each without one trailing `'\r'` (one empty line when there are none).
pub proof fn lemma_lines_of_joined_lines(k: Seq<Seq<char>>)
    requires
        no_newlines(k),
    ensures
        lines_s(join_s(k, "\n"@) + "\n"@) == if k.len() == 0 {
            seq![Seq::<char>::empty()]
        } else {
            strip_crs(k)
        },
{
    reveal_strlit("\n");
    let t = join_s(k, "\n"@) + "\n"@;
    assert(t.drop_last() =~= join_s(k, "\n"@));
    assert(t.last() == '\n');
    let prev = lines_state(t.drop_last());
    assert(lines_state(t) == (prev.0.push(strip_cr(prev.1)), Seq::<char>::empty()));
    assert(lines_s(t) == prev.0.push(strip_cr(prev.1)));
    if k.len() == 0 {
        assert(join_s(k, "\n"@) == Seq::<char>::empty());
        assert(prev == (Seq::<Seq<char>>::empty(), Seq::<char>::empty()));
        assert(strip_cr(Seq::<char>::empty()) =~= Seq::<char>::empty());
        assert(Seq::<Seq<char>>::empty().push(Seq::<char>::empty()) =~= seq![Seq::<char>::empty()]);
    } else {
        lemma_lines_state_join(k);
        assert(strip_crs(k.drop_last()).push(strip_cr(k.last())) =~= strip_crs(k));
    }
}

/// The lines of lines joined by `'\n'` (no final `'\n'`): all but the last
/// without a trailing `'\r'`, and the last as it is unless it is empty.
pub proof fn lemma_lines_of_join(k: Seq<Seq<char>>)
    requires
        k.len() > 0,
        no_newlines(k),
    ensures
        lines_s(join_s(k, "\n"@)) == if k.last().len() > 0 {
            strip_crs(k.drop_last()).push(k.last())
        } else {
            strip_crs(k.drop_last())
        },
{
    lemma_lines_state_join(k);
}

proof fn lemma_lines_state_no_newline(s: Seq<char>)
    ensures
        no_newlines(lines_state(s).0),
        no_newline(lines_state(s).1),
    decreases s.len(),
{
    if s.len() > 0 {
        lemma_lines_state_no_newline(s.drop_last());
        let st = lines_state(s.drop_last());
        if s.last() == '\n' {
            assert(no_newline(strip_cr(st.1)));
            assert forall|i: int| 0 <= i < st.0.push(strip_cr(st.1)).len() implies no_newline(
                #[trigger] st.0.push(strip_cr(st.1))[i],
            ) by {
                if i < st.0.len() {
                    assert(st.0.push(strip_cr(st.1))[i] == st.0[i]);
                }
            }
        } else {
            assert(no_newline(st.1.push(s.last())));
        }
    }
}

/// No line of `str::lines` holds a `'\n'`.
pub proof fn lemma_lines_no_newline(s: Seq<char>)
    ensures
        no_newlines(lines_s(s)),
{
    lemma_lines_state_no_newline(s);
    let st = lines_state(s);
    assert forall|i: int| 0 <= i < lines_s(s).len() implies no_newline(#[trigger] lines_s(s)[i]) by {
        if i < st.0.len() {
            assert(lines_s(s)[i] == st.0[i]);
        }
    }
}

/// Dropping a trailing `'\r'` does not change `str::trim_end`.
pub proof fn lemma_trim_end_strip_cr(x: Seq<char>)
    ensures
        trim_end_s(strip_cr(x)) == trim_end_s(x),
{
    if x.len() > 0 && x.last() == '\r' {
        let y = x.drop_last();
        lemma_trail_ws_bound(y);
        assert(trail_ws(x) == 1 + trail_ws(y));
        assert(x.take(x.len() - trail_ws(x)) =~= y.take(y.len() - trail_ws(y)));
    }
}

proof fn lemma_lead_ws_is(s: Seq<char>, k: int)
    requires
        0 <= k <= s.len(),
        forall|j: int| 0 <= j < k ==> is_ws(#[trigger] s[j]),
        k == s.len() || !is_ws(s[k]),
    ensures
        lead_ws(s) == k,
    decreases k,
{
    if k > 0 {
        let d = s.drop_first();
        assert forall|j: int| 0 <= j < k - 1 implies is_ws(#[trigger] d[j]) by {
            assert(d[j] == s[j + 1]);
        }
        if k < s.len() {
            assert(d[k - 1] == s[k]);
        }
        lemma_lead_ws_is(d, k - 1);
    } else if s.len() > 0 {
        assert(!is_ws(s[0]));
    }
}

/// Dropping a trailing `'\r'` does not change `str::trim`.
pub proof fn lemma_trim_strip_cr(x: Seq<char>)
    ensures
        trim_s(strip_cr(x)) == trim_s(x),
{
    if x.len() > 0 && x.last() == '\r' {
        let y = x.drop_last();
        lemma_lead_ws_bound(y);
        let k = lead_ws(y) as int;
        if k < y.len() {
            assert forall|j: int| 0 <= j < k implies is_ws(#[trigger] x[j]) by {
                assert(x[j] == y[j]);
            }
            assert(x[k] == y[k]);
            lemma_lead_ws_is(x, k);
            assert(x.skip(k) =~= y.skip(k).push('\r'));
            assert(y.skip(k).push('\r').len() > 0 && y.skip(k).push('\r').last() == '\r');
            assert(y.skip(k).push('\r').drop_last() =~= y.skip(k));
            lemma_trim_end_strip_cr(y.skip(k).push('\r'));
        } else {
            assert forall|j: int| 0 <= j < x.len() implies is_ws(#[trigger] x[j]) by {
                if j < y.len() {
                    assert(x[j] == y[j]);
                }
            }
            lemma_lead_ws_is(x, x.len() as int);
            lemma_trail_ws_bound(Seq::<char>::empty());
            assert(x.skip(x.len() as int) =~= Seq::<char>::empty());
            assert(y.skip(y.len() as int) =~= Seq::<char>::empty());
        }
    }
}

} // verus!
