//! Laws of glob matching: what a match says of the name.
use vstd::prelude::*;
use crate::text::{
    occurs_at, contains_s, first_occurrence, find_char_s, lemma_find_char_props, has_prefix, has_suffix,
};
use crate::tools::symbols_local::{glob_walk, glob_match_s, split_s};

verus! {

/// The non-empty pieces `parts[i..]` occur in `name` one after another: each
/// at or after `pos`, and each after the end of the one before.
pub open spec fn pieces_in_order(parts: Seq<Seq<char>>, i: int, pos: int, name: Seq<char>) -> bool
    decreases parts.len() - i,
{
    if i < 0 || i >= parts.len() {
        true
    } else if parts[i].len() == 0 {
        pieces_in_order(parts, i + 1, pos, name)
    } else {
        exists|k: int|
            pos <= k && #[trigger] occurs_at(name, parts[i], k) && pieces_in_order(
                parts,
                i + 1,
                k + parts[i].len(),
                name,
            )
    }
}

proof fn lemma_first_occurrence_found(s: Seq<char>, p: Seq<char>, from: int)
    ensures
        first_occurrence(s, p, from) matches Some(k) ==> from <= k && occurs_at(s, p, k),
    decreases s.len() + 1 - from,
{
    if 0 <= from <= s.len() && !occurs_at(s, p, from) {
        lemma_first_occurrence_found(s, p, from + 1);
    }
}

proof fn lemma_occurrence_is_found(s: Seq<char>, p: Seq<char>, from: int, k: int)
    requires
        0 <= from <= k,
        occurs_at(s, p, k),
    ensures
        first_occurrence(s, p, from) is Some,
    decreases k - from,
{
    if from < k && !occurs_at(s, p, from) {
        lemma_occurrence_is_found(s, p, from + 1, k);
    }
}

proof fn lemma_walk_in_order(parts: Seq<Seq<char>>, i: int, pos: int, name: Seq<char>)
    requires
        0 <= pos,
        glob_walk(parts, i, pos, name),
    ensures
        pieces_in_order(parts, i, pos, name),
    decreases parts.len() - i,
{
    if i < 0 || i >= parts.len() {
    } else if parts[i].len() == 0 {
        lemma_walk_in_order(parts, i + 1, pos, name);
    } else if i == 0 {
        lemma_walk_in_order(parts, 1, pos + parts[0].len(), name);
        assert(occurs_at(name, parts[i], pos));
    } else if i == parts.len() - 1 {
        let k = name.len() - parts[i].len();
        assert(occurs_at(name, parts[i], k));
        assert(pieces_in_order(parts, i + 1, k + parts[i].len(), name));
    } else {
        lemma_first_occurrence_found(name, parts[i], pos);
        let k = first_occurrence(name, parts[i], pos)->0;
        lemma_walk_in_order(parts, i + 1, k + parts[i].len(), name);
        assert(occurs_at(name, parts[i], k));
    }
}

/// When `name` matches the glob `query`, every non-empty piece between the
/// `*`s of `query` occurs in `name`, in the query's order and without
/// overlapping: a piece that is not found makes the match fail.
pub proof fn lemma_glob_match_pieces_occur(query: Seq<char>, name: Seq<char>)
    requires
        glob_match_s(query, name),
    ensures
        pieces_in_order(split_s(query, '*'), 0, 0, name),
{
    if find_char_s(query, '*') is None {
        let ps = split_s(query, '*');
        assert(ps == seq![query]);
        assert(occurs_at(name, ps[0], 0)) by {
            assert(name.subrange(0, query.len() as int) =~= name);
        }
        assert(pieces_in_order(ps, 1, query.len() as int, name));
    } else {
        lemma_walk_in_order(split_s(query, '*'), 0, 0, name);
    }
}

/// A query `*x*`, with `x` non-empty and without `*`, matches exactly the
/// names in which `x` occurs.
pub proof fn lemma_glob_contains(x: Seq<char>, name: Seq<char>)
    requires
        x.len() > 0,
        forall|j: int| 0 <= j < x.len() ==> x[j] != '*',
    ensures
        glob_match_s(seq!['*'] + x + seq!['*'], name) <==> contains_s(name, x),
{
    let q = seq!['*'] + x + seq!['*'];
    let e = Seq::<char>::empty();
    lemma_find_char_props(q, '*');
    assert(q[0] == '*');
    assert(find_char_s(q, '*') == Some(0int));
    let rest = q.skip(1);
    assert(rest =~= x + seq!['*']);
    lemma_find_char_props(rest, '*');
    assert(rest[x.len() as int] == '*');
    match find_char_s(rest, '*') {
        Some(m) => {
            if m < x.len() {
                assert(rest[m] == x[m]);
            }
        },
        None => {},
    }
    assert(find_char_s(rest, '*') == Some(x.len() as int));
    assert(rest.take(x.len() as int) =~= x);
    assert(rest.skip(x.len() as int + 1) =~= e);
    assert(find_char_s(e, '*') is None);
    assert(split_s(e, '*') == seq![e]);
    assert(split_s(rest, '*') == seq![x] + seq![e]);
    assert(q.take(0) =~= e);
    let ps = split_s(q, '*');
    assert(ps == seq![e] + split_s(rest, '*'));
    assert(ps =~= seq![e, x, e]);
    assert(ps.len() == 3 && ps[0] == e && ps[1] == x && ps[2] == e);
    assert forall|pos: int| glob_walk(ps, 2, pos, name) by {
        assert(glob_walk(ps, 3, pos, name));
    }
    if contains_s(name, x) {
        let k = choose|k: int| occurs_at(name, x, k);
        lemma_occurrence_is_found(name, x, 0, k);
        let f = first_occurrence(name, x, 0)->0;
        assert(glob_walk(ps, 2, f + x.len(), name));
        assert(glob_walk(ps, 1, 0, name));
        assert(glob_walk(ps, 0, 0, name));
    }
    if glob_match_s(q, name) {
        assert(glob_walk(ps, 1, 0, name));
        lemma_first_occurrence_found(name, x, 0);
        let f = first_occurrence(name, x, 0)->0;
        assert(occurs_at(name, x, f));
    }
}

proof fn lemma_split_star_free(x: Seq<char>)
    requires
        forall|j: int| 0 <= j < x.len() ==> x[j] != '*',
    ensures
        split_s(x, '*') == seq![x],
{
    lemma_find_char_props(x, '*');
    match find_char_s(x, '*') {
        Some(m) => {
            assert(x[m] != '*');
        },
        None => {},
    }
}

proof fn lemma_split_after_piece(x: Seq<char>, rest: Seq<char>)
    requires
        forall|j: int| 0 <= j < x.len() ==> x[j] != '*',
    ensures
        split_s(x + seq!['*'] + rest, '*') == seq![x] + split_s(rest, '*'),
{
    let q = x + seq!['*'] + rest;
    lemma_find_char_props(q, '*');
    assert(q[x.len() as int] == '*');
    match find_char_s(q, '*') {
        Some(m) => {
            if m < x.len() {
                assert(q[m] == x[m]);
            }
        },
        None => {},
    }
    assert(find_char_s(q, '*') == Some(x.len() as int));
    assert(q.take(x.len() as int) =~= x);
    assert(q.skip(x.len() as int + 1) =~= rest);
}

/// A query `x*`, with `x` non-empty and without `*`, matches exactly the
/// names that start with `x`.
pub proof fn lemma_glob_prefix(x: Seq<char>, name: Seq<char>)
    requires
        x.len() > 0,
        forall|j: int| 0 <= j < x.len() ==> x[j] != '*',
    ensures
        glob_match_s(x + seq!['*'], name) <==> has_prefix(name, x),
{
    let e = Seq::<char>::empty();
    let q = x + seq!['*'];
    assert(q =~= x + seq!['*'] + e);
    lemma_split_after_piece(x, e);
    lemma_split_star_free(e);
    let ps = split_s(q, '*');
    assert(ps =~= seq![x, e]);
    lemma_find_char_props(q, '*');
    assert(q[x.len() as int] == '*');
    assert(find_char_s(q, '*') is Some);
    assert(ps.len() == 2 && ps[0] == x && ps[1] == e);
    assert forall|pos: int| glob_walk(ps, 1, pos, name) by {
        assert(glob_walk(ps, 2, pos, name));
    }
    assert(glob_walk(ps, 0, 0, name) == (occurs_at(name, x, 0) && glob_walk(
        ps,
        1,
        x.len() as int,
        name,
    )));
    if has_prefix(name, x) {
        assert(name.subrange(0, x.len() as int) =~= name.take(x.len() as int));
        assert(occurs_at(name, x, 0));
    }
    if glob_match_s(q, name) {
        assert(occurs_at(name, x, 0));
        assert(name.subrange(0, x.len() as int) =~= name.take(x.len() as int));
    }
}

/// A query `*x`, with `x` non-empty and without `*`, matches exactly the
/// names that end with `x`.
pub proof fn lemma_glob_suffix(x: Seq<char>, name: Seq<char>)
    requires
        x.len() > 0,
        forall|j: int| 0 <= j < x.len() ==> x[j] != '*',
    ensures
        glob_match_s(seq!['*'] + x, name) <==> has_suffix(name, x),
{
    let e = Seq::<char>::empty();
    let q = seq!['*'] + x;
    assert(q =~= e + seq!['*'] + x);
    lemma_split_after_piece(e, x);
    lemma_split_star_free(x);
    let ps = split_s(q, '*');
    assert(ps =~= seq![e, x]);
    lemma_find_char_props(q, '*');
    assert(q[0] == '*');
    assert(find_char_s(q, '*') is Some);
    assert(glob_walk(ps, 0, 0, name) == glob_walk(ps, 1, 0, name));
    if has_suffix(name, x) {
        let k = name.len() - x.len();
        assert(name.subrange(k, k + x.len()) =~= name.skip(k));
        assert(occurs_at(name, x, k));
    }
    if glob_match_s(q, name) {
        let k = name.len() - x.len();
        assert(occurs_at(name, x, k));
        assert(name.subrange(k, k + x.len()) =~= name.skip(k));
    }
}

} // verus!
