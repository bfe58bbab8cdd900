//! A syntax tree as a pre-order listing of its nodes, each with its depth
//! below the root, and the searches over a node's children that symbol
//! extraction needs.
//!
//! The children of the node at index `i` are the nodes after it that lie one
//! level deeper, up to the first node that is not deeper than it.
use vstd::prelude::*;
use crate::deps::utf8_lossy;
use crate::deps::lossy_text;
use crate::text::str_eq;

verus! {

/// One node of a syntax tree.
pub struct SyntaxNode {
    /// The node's kind, as the grammar names it.
    pub kind: String,
    /// The first byte of the node in the source.
    pub start: usize,
    /// The byte after the node's last byte.
    pub end: usize,
    /// How far below the root the node lies (the root is at depth 0).
    pub depth: usize,
    /// Whether the node stands for a named rule of the grammar.
    pub named: bool,
}

/// A node as plain values: kind, start, end, depth, named.
pub type NodeText = (Seq<char>, usize, usize, usize, bool);

impl View for SyntaxNode {
    type V = NodeText;

    open spec fn view(&self) -> NodeText {
        (self.kind@, self.start, self.end, self.depth, self.named)
    }
}

/// What parsing a source gave.
pub enum ParseOutcome {
    /// The parser refused the grammar.
    LanguageRejected,
    /// The parser gave no tree.
    NoTree,
    /// The tree: whether it holds a syntax error, and its nodes in pre-order
    /// (the root first).
    Parsed { has_error: bool, nodes: Vec<SyntaxNode> },
}

/// The views of a sequence of nodes.
pub open spec fn node_texts(v: Seq<SyntaxNode>) -> Seq<NodeText> {
    Seq::new(v.len(), |i: int| v[i]@)
}

impl View for ParseOutcome {
    type V = Option<Option<(bool, Seq<NodeText>)>>;

    open spec fn view(&self) -> Option<Option<(bool, Seq<NodeText>)>> {
        match self {
            ParseOutcome::LanguageRejected => None,
            ParseOutcome::NoTree => Some(None),
            ParseOutcome::Parsed { has_error, nodes } => Some(Some((*has_error, node_texts(nodes@)))),
        }
    }
}

// ---------------------------------------------------------------------------
// Children
// ---------------------------------------------------------------------------
/// Whether index `j` still lies under a node of depth `d`.
pub open spec fn within(ns: Seq<NodeText>, d: int, j: int) -> bool {
    0 <= j < ns.len() && ns[j].3 > d
}

/// The first child, at or after `j`, of a node of depth `d` whose kind is `k1`
/// or `k2`.
pub open spec fn find_kid(ns: Seq<NodeText>, d: int, j: int, k1: Seq<char>, k2: Seq<char>) -> Option<
    int,
>
    decreases ns.len() - j,
{
    if !within(ns, d, j) {
        None
    } else if ns[j].3 == d + 1 && (ns[j].0 == k1 || ns[j].0 == k2) {
        Some(j)
    } else {
        find_kid(ns, d, j + 1, k1, k2)
    }
}

/// The first named child, at or after `j`, of a node of depth `d`.
pub open spec fn find_named_kid(ns: Seq<NodeText>, d: int, j: int) -> Option<int>
    decreases ns.len() - j,
{
    if !within(ns, d, j) {
        None
    } else if ns[j].3 == d + 1 && ns[j].4 {
        Some(j)
    } else {
        find_named_kid(ns, d, j + 1)
    }
}

/// Whether a node of depth `d` has a child at or after `j`.
pub open spec fn has_kid(ns: Seq<NodeText>, d: int, j: int) -> bool
    decreases ns.len() - j,
{
    if !within(ns, d, j) {
        false
    } else if ns[j].3 == d + 1 {
        true
    } else {
        has_kid(ns, d, j + 1)
    }
}

/// The text of the node at `j`: the source bytes it spans, decoded as
/// `String::from_utf8_lossy` does; empty when the span does not lie in the
/// source.
pub open spec fn node_text_s(ns: Seq<NodeText>, src: Seq<u8>, j: int) -> Seq<char> {
    let s = ns[j].1;
    let e = ns[j].2;
    if s <= e && e <= src.len() {
        utf8_lossy(src.subrange(s as int, e as int))
    } else {
        Seq::empty()
    }
}

/// The text of the first `identifier` or `dotted_name` child of the node at
/// `i`; the node's own text when it has no child or no such child.
pub open spec fn first_ident_text(ns: Seq<NodeText>, src: Seq<u8>, i: int) -> Seq<char> {
    let d = ns[i].3 as int;
    if !has_kid(ns, d, i + 1) {
        node_text_s(ns, src, i)
    } else {
        match find_kid(ns, d, i + 1, "identifier"@, "dotted_name"@) {
            Some(k) => node_text_s(ns, src, k),
            None => node_text_s(ns, src, i),
        }
    }
}

/// A child found by `find_kid` lies at or after `j`, one level below `d`, and
/// has one of the kinds asked for.
pub proof fn lemma_find_kid(ns: Seq<NodeText>, d: int, j: int, k1: Seq<char>, k2: Seq<char>)
    ensures
        find_kid(ns, d, j, k1, k2) matches Some(k) ==> j <= k < ns.len() && ns[k].3 == d + 1 && (
        ns[k].0 == k1 || ns[k].0 == k2),
    decreases ns.len() - j,
{
    if within(ns, d, j) {
        lemma_find_kid(ns, d, j + 1, k1, k2);
    }
}

/// A child found by `find_named_kid` lies at or after `j`, one level below
/// `d`.
pub proof fn lemma_find_named_kid(ns: Seq<NodeText>, d: int, j: int)
    ensures
        find_named_kid(ns, d, j) matches Some(k) ==> j <= k < ns.len() && ns[k].3 == d + 1,
    decreases ns.len() - j,
{
    if within(ns, d, j) {
        lemma_find_named_kid(ns, d, j + 1);
    }
}

// ---------------------------------------------------------------------------
// Executable searches
// ---------------------------------------------------------------------------
/// Whether index `j` still lies under a node of depth `d`.
pub fn within_exec(ns: &Vec<SyntaxNode>, d: usize, j: usize) -> (r: bool)
    ensures
        r == within(node_texts(ns@), d as int, j as int),
{
    j < ns.len() && ns[j].depth > d
}

/// Whether the node at `j` is a child of a node of depth `d` (which `j` lies
/// under).
pub fn is_kid(ns: &Vec<SyntaxNode>, d: usize, j: usize) -> (r: bool)
    requires
        j < ns@.len(),
        ns@[j as int].depth > d,
    ensures
        r == (node_texts(ns@)[j as int].3 == d + 1),
{
    ns[j].depth - 1 == d
}

/// The first child, at or after `j`, of a node of depth `d` whose kind is `k1`
/// or `k2`.
pub fn find_kid_exec(ns: &Vec<SyntaxNode>, d: usize, j: usize, k1: &str, k2: &str) -> (r: Option<
    usize,
>)
    ensures
        find_kid(node_texts(ns@), d as int, j as int, k1@, k2@) == match r {
            Some(k) => Some(k as int),
            None => None::<int>,
        },
        r matches Some(k) ==> j <= k < ns@.len(),
{
    let ghost t = node_texts(ns@);
    proof {
        lemma_find_kid(t, d as int, j as int, k1@, k2@);
    }
    let mut i = j;
    while within_exec(ns, d, i)
        invariant
            t == node_texts(ns@),
            j <= i,
            find_kid(t, d as int, i as int, k1@, k2@) == find_kid(t, d as int, j as int, k1@, k2@),
        decreases ns.len() - i,
    {
        if is_kid(ns, d, i) && (str_eq(ns[i].kind.as_str(), k1) || str_eq(ns[i].kind.as_str(), k2)) {
            return Some(i);
        }
        i = i + 1;
    }
    None
}

/// The first named child, at or after `j`, of a node of depth `d`.
pub fn find_named_kid_exec(ns: &Vec<SyntaxNode>, d: usize, j: usize) -> (r: Option<usize>)
    ensures
        find_named_kid(node_texts(ns@), d as int, j as int) == match r {
            Some(k) => Some(k as int),
            None => None::<int>,
        },
        r matches Some(k) ==> j <= k < ns@.len(),
{
    let ghost t = node_texts(ns@);
    proof {
        lemma_find_named_kid(t, d as int, j as int);
    }
    let mut i = j;
    while within_exec(ns, d, i)
        invariant
            t == node_texts(ns@),
            j <= i,
            find_named_kid(t, d as int, i as int) == find_named_kid(t, d as int, j as int),
        decreases ns.len() - i,
    {
        if is_kid(ns, d, i) && ns[i].named {
            return Some(i);
        }
        i = i + 1;
    }
    None
}

/// Whether a node of depth `d` has a child at or after `j`.
pub fn has_kid_exec(ns: &Vec<SyntaxNode>, d: usize, j: usize) -> (r: bool)
    ensures
        r == has_kid(node_texts(ns@), d as int, j as int),
{
    let ghost t = node_texts(ns@);
    let mut i = j;
    while within_exec(ns, d, i)
        invariant
            t == node_texts(ns@),
            has_kid(t, d as int, i as int) == has_kid(t, d as int, j as int),
        decreases ns.len() - i,
    {
        if is_kid(ns, d, i) {
            return true;
        }
        i = i + 1;
    }
    false
}

/// The text of the node at `j` (see `node_text_s`).
pub fn node_text(ns: &Vec<SyntaxNode>, src: &[u8], j: usize) -> (r: String)
    requires
        j < ns@.len(),
    ensures
        r@ == node_text_s(node_texts(ns@), src@, j as int),
{
    let s = ns[j].start;
    let e = ns[j].end;
    if s <= e && e <= src.len() {
        lossy_text(src, s, e)
    } else {
        String::new()
    }
}

/// The text of the first `identifier` or `dotted_name` child of the node at
/// `i` (see `first_ident_text`).
pub fn first_ident_text_exec(ns: &Vec<SyntaxNode>, src: &[u8], i: usize) -> (r: String)
    requires
        i < ns@.len(),
    ensures
        r@ == first_ident_text(node_texts(ns@), src@, i as int),
{
    let d = ns[i].depth;
    assert(ns@.len() == ns.len());
    let next = i + 1;
    if !has_kid_exec(ns, d, next) {
        return node_text(ns, src, i);
    }
    let found = find_kid_exec(ns, d, next, "identifier", "dotted_name");
    assert(node_texts(ns@)[i as int].3 == d);
    match found {
        Some(k) => node_text(ns, src, k),
        None => node_text(ns, src, i),
    }
}

} // verus!
