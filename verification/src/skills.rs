//! Skills and knowledge-base items loaded from GitHub repositories: the
//! registry, the front-matter and title reading of their Markdown, and the
//! URLs they are fetched from.
use vstd::prelude::*;
use crate::text::{
    chars_of, string_of, find_from, first_occurrence, lemma_first_occurrence, lemma_no_occurrence,
    lines, lines_s, views, trim, trim_s, has_prefix, chars_match_at, occurs_at, lead_count,
    find_char, find_char_s, lemma_find_char_props,
};

verus! {

/// A skill: a `SKILL.md` with a name in its front matter.
pub struct Skill {
    pub name: String,
    pub description: String,
    pub content: String,
    pub source_repo: String,
}

/// A knowledge-base item.
pub struct KbItem {
    pub title: String,
    pub content: String,
    pub source_repo: String,
}

/// The skills and knowledge-base items loaded so far, in load order.
pub struct SkillRegistry {
    skills: Vec<Skill>,
    kb_items: Vec<KbItem>,
}

impl SkillRegistry {
    /// The skills, in load order.
    pub closed spec fn skills_spec(&self) -> Seq<Skill> {
        self.skills@
    }

    /// The knowledge-base items, in load order.
    pub closed spec fn kb_items_spec(&self) -> Seq<KbItem> {
        self.kb_items@
    }

    /// An empty registry.
    pub fn new() -> (r: Self)
        ensures
            r.skills_spec().len() == 0,
            r.kb_items_spec().len() == 0,
    {
        SkillRegistry { skills: Vec::new(), kb_items: Vec::new() }
    }

    /// The skills loaded so far.
    pub fn list_skills(&self) -> (r: &[Skill])
        ensures
            r@ == self.skills_spec(),
    {
        self.skills.as_slice()
    }

    /// The knowledge-base items loaded so far.
    pub fn list_kb_items(&self) -> (r: &[KbItem])
        ensures
            r@ == self.kb_items_spec(),
    {
        self.kb_items.as_slice()
    }

    /// Add the skill a `SKILL.md` describes: it needs a `name` in its front
    /// matter; its `description` defaults to the name. Returns whether a
    /// skill was added.
    pub fn add_skill_document(&mut self, content: String, source_repo: &str) -> (added: bool)
        ensures
            added == (frontmatter_field_s(content@, "name"@) is Some),
            final(self).kb_items_spec() == old(self).kb_items_spec(),
            !added ==> final(self).skills_spec() == old(self).skills_spec(),
            added ==> final(self).skills_spec().len() == old(self).skills_spec().len() + 1
                && final(self).skills_spec().drop_last() == old(self).skills_spec() && ({
                let s = final(self).skills_spec().last();
                &&& Some(s.name@) == frontmatter_field_s(content@, "name"@)
                &&& s.description@ == match frontmatter_field_s(content@, "description"@) {
                    Some(d) => d,
                    None => s.name@,
                }
                &&& s.content@ == content@
                &&& s.source_repo@ == source_repo@
            }),
    {
        let name = match extract_frontmatter_field(content.as_str(), "name") {
            Some(n) => n,
            None => {
                return false;
            },
        };
        let description = match extract_frontmatter_field(content.as_str(), "description") {
            Some(d) => d,
            None => name.clone(),
        };
        let ghost before = self.skills@;
        self.skills.push(
            Skill { name, description, content, source_repo: String::from_str(source_repo) },
        );
        proof {
            assert(self.skills@.drop_last() == before);
        }
        true
    }

    /// Add a knowledge-base item. Its title is the front matter's `title`,
    /// else its first `# ` heading, else its path.
    pub fn add_kb_document(&mut self, content: String, kb_path: &str, source_repo: &str)
        ensures
            final(self).skills_spec() == old(self).skills_spec(),
            final(self).kb_items_spec().len() == old(self).kb_items_spec().len() + 1,
            final(self).kb_items_spec().drop_last() == old(self).kb_items_spec(),
            ({
                let k = final(self).kb_items_spec().last();
                &&& k.title@ == kb_title_s(content@, kb_path@)
                &&& k.content@ == content@
                &&& k.source_repo@ == source_repo@
            }),
    {
        let title = match extract_frontmatter_field(content.as_str(), "title") {
            Some(t) => t,
            None => match extract_h1_title(content.as_str()) {
                Some(t) => t,
                None => String::from_str(kb_path),
            },
        };
        let ghost before = self.kb_items@;
        self.kb_items.push(KbItem { title, content, source_repo: String::from_str(source_repo) });
        proof {
            assert(self.kb_items@.drop_last() == before);
        }
    }
}

impl Default for SkillRegistry {
    fn default() -> (r: Self)
        ensures
            r.skills_spec().len() == 0,
            r.kb_items_spec().len() == 0,
    {
        Self::new()
    }
}

/// The title of a knowledge-base item: front matter `title`, else the first
/// `# ` heading, else the path.
pub open spec fn kb_title_s(content: Seq<char>, kb_path: Seq<char>) -> Seq<char> {
    match frontmatter_field_s(content, "title"@) {
        Some(t) => t,
        None => match h1_title_s(content) {
            Some(t) => t,
            None => kb_path,
        },
    }
}

// ---------------------------------------------------------------------------
// Front matter and headings
// ---------------------------------------------------------------------------
/// The front matter of a document: after a leading `---`, the text up to
/// the next `---` (or the end).
pub open spec fn frontmatter_s(content: Seq<char>) -> Option<Seq<char>> {
    if has_prefix(content, "---"@) {
        let rest = content.skip(3);
        match first_occurrence(rest, "---"@, 0) {
            Some(k) => Some(rest.take(k)),
            None => Some(rest),
        }
    } else {
        None
    }
}

/// Number of trailing `c` characters.
pub open spec fn trail_count(s: Seq<char>, c: char) -> nat
    decreases s.len(),
{
    if s.len() > 0 && s.last() == c {
        1 + trail_count(s.drop_last(), c)
    } else {
        0
    }
}

/// `str::trim_matches('"')`: leading and trailing `"` removed.
pub open spec fn trim_quotes_s(s: Seq<char>) -> Seq<char> {
    let t = s.skip(lead_count(s, '"') as int);
    t.take(t.len() - trail_count(t, '"'))
}

/// The value of the first line starting with `key`: the rest of the line,
/// trimmed of whitespace and then of `"`.
pub open spec fn field_in_lines(ls: Seq<Seq<char>>, key: Seq<char>) -> Option<Seq<char>>
    decreases ls.len(),
{
    if ls.len() == 0 {
        None
    } else if has_prefix(ls[0], key) {
        Some(trim_quotes_s(trim_s(ls[0].skip(key.len() as int))))
    } else {
        field_in_lines(ls.drop_first(), key)
    }
}

/// The value of `field` in the front matter: the first of its lines that
/// starts with `field:`.
pub open spec fn frontmatter_field_s(content: Seq<char>, field: Seq<char>) -> Option<Seq<char>> {
    match frontmatter_s(content) {
        Some(inside) => field_in_lines(lines_s(inside), field + ":"@),
        None => None,
    }
}

/// `str::trim_start_matches(p)` for a non-empty `p`.
pub open spec fn strip_all_prefix(s: Seq<char>, p: Seq<char>) -> Seq<char>
    decreases s.len(),
{
    if p.len() > 0 && has_prefix(s, p) {
        strip_all_prefix(s.skip(p.len() as int), p)
    } else {
        s
    }
}

/// The first line starting with `# `, without its leading `# `s.
pub open spec fn h1_in_lines(ls: Seq<Seq<char>>) -> Option<Seq<char>>
    decreases ls.len(),
{
    if ls.len() == 0 {
        None
    } else if has_prefix(ls[0], "# "@) {
        Some(strip_all_prefix(ls[0], "# "@))
    } else {
        h1_in_lines(ls.drop_first())
    }
}

/// The first `# ` heading of a document.
pub open spec fn h1_title_s(content: Seq<char>) -> Option<Seq<char>> {
    h1_in_lines(lines_s(content))
}

fn lead_quotes(v: &[char], from: usize, to: usize) -> (k: usize)
    requires
        from <= to <= v@.len(),
    ensures
        from <= k <= to,
        k - from == lead_count(v@.subrange(from as int, to as int), '"'),
    decreases to - from,
{
    if from < to && v[from] == '"' {
        let k = lead_quotes(v, from + 1, to);
        proof {
            assert(v@.subrange(from as int, to as int).drop_first() == v@.subrange(
                from + 1,
                to as int,
            ));
        }
        k
    } else {
        from
    }
}

fn trail_quotes(v: &[char], from: usize, to: usize) -> (k: usize)
    requires
        from <= to <= v@.len(),
    ensures
        from <= k <= to,
        to - k == trail_count(v@.subrange(from as int, to as int), '"'),
    decreases to - from,
{
    if from < to && v[to - 1] == '"' {
        let k = trail_quotes(v, from, to - 1);
        proof {
            assert(v@.subrange(from as int, to as int).drop_last() == v@.subrange(
                from as int,
                to - 1,
            ));
        }
        k
    } else {
        to
    }
}

fn trim_quotes(s: &str) -> (r: String)
    ensures
        r@ == trim_quotes_s(s@),
{
    let v = chars_of(s);
    let a = lead_quotes(&v, 0, v.len());
    let b = trail_quotes(&v, a, v.len());
    proof {
        assert(v@.subrange(0, v@.len() as int) == v@);
        let t = s@.skip(lead_count(s@, '"') as int);
        assert(t == v@.subrange(a as int, v@.len() as int));
        assert(t.take(t.len() - trail_count(t, '"')) == v@.subrange(a as int, b as int));
    }
    string_of(&v, a, b)
}

fn field_value(line: &[char], key: &[char]) -> (r: Option<String>)
    ensures
        match r {
            Some(v) => has_prefix(line@, key@) && v@ == trim_quotes_s(
                trim_s(line@.skip(key@.len() as int)),
            ),
            None => !has_prefix(line@, key@),
        },
{
    if !chars_match_at(line, 0, key) {
        proof {
            assert(!occurs_at(line@, key@, 0));
            if has_prefix(line@, key@) {
                assert(line@.subrange(0, key@.len() as int) == line@.take(key@.len() as int));
            }
        }
        return None;
    }
    proof {
        assert(line@.subrange(0, key@.len() as int) == line@.take(key@.len() as int));
    }
    let rest = string_of(line, key.len(), line.len());
    assert(rest@ == line@.skip(key@.len() as int));
    let t = trim(rest.as_str());
    Some(trim_quotes(t.as_str()))
}

/// The value of a front-matter field: `---`, then lines up to the next
/// `---`, the first starting with `field:` giving the value, trimmed of
/// whitespace and of `"`.
pub fn extract_frontmatter_field(content: &str, field: &str) -> (r: Option<String>)
    ensures
        match r {
            Some(v) => frontmatter_field_s(content@, field@) == Some(v@),
            None => frontmatter_field_s(content@, field@) is None,
        },
{
    let v = chars_of(content);
    let dashes = chars_of("---");
    proof {
        reveal_strlit("---");
        reveal_strlit(":");
    }
    if !chars_match_at(&v, 0, &dashes) {
        proof {
            if has_prefix(content@, "---"@) {
                assert(v@.subrange(0, 3) == v@.take(3));
            }
        }
        return None;
    }
    proof {
        assert(v@.subrange(0, 3) == v@.take(3));
    }
    let rest = string_of(&v, 3, v.len());
    let rv = chars_of(rest.as_str());
    assert(rv@ == content@.skip(3));
    let end = match find_from(&rv, &dashes, 0) {
        Some(k) => {
            proof {
                lemma_first_occurrence(rv@, dashes@, 0, k as int);
            }
            k
        },
        None => {
            proof {
                lemma_no_occurrence(rv@, dashes@, 0);
                assert(rv@.subrange(0, rv@.len() as int) == rv@);
            }
            rv.len()
        },
    };
    let inside = string_of(&rv, 0, end);
    assert(inside@ == frontmatter_s(content@)->0);
    let ls = lines(inside.as_str());
    let mut key = chars_of(field);
    key.push(':');
    assert(key@ == field@ + ":"@);
    let ghost lv = lines_s(inside@);
    let mut i: usize = 0;
    assert(lv.skip(0) == lv);
    while i < ls.len()
        invariant
            views(ls@) == lv,
            0 <= i <= ls@.len(),
            key@ == field@ + ":"@,
            field_in_lines(lv, key@) == field_in_lines(lv.skip(i as int), key@),
            frontmatter_field_s(content@, field@) == field_in_lines(lv, key@),
        decreases ls.len() - i,
    {
        let lc = chars_of(ls[i].as_str());
        proof {
            assert(lv.skip(i as int)[0] == lc@);
            assert(lv.skip(i as int).drop_first() == lv.skip(i + 1));
        }
        match field_value(&lc, &key) {
            Some(val) => {
                return Some(val);
            },
            None => {},
        }
        i = i + 1;
    }
    None
}

fn strip_all_h1(v: &[char], from: usize) -> (k: usize)
    requires
        from <= v@.len(),
    ensures
        from <= k <= v@.len(),
        v@.skip(k as int) == strip_all_prefix(v@.skip(from as int), "# "@),
    decreases v@.len() - from,
{
    proof {
        reveal_strlit("# ");
    }
    if from < v.len() && v.len() - from > 1 && v[from] == '#' && v[from + 1] == ' ' {
        proof {
            assert(v@.skip(from as int).take(2) == "# "@);
            assert(v@.skip(from as int).skip(2) == v@.skip(from + 2));
        }
        strip_all_h1(v, from + 2)
    } else {
        proof {
            if has_prefix(v@.skip(from as int), "# "@) {
                assert(v@.skip(from as int).take(2)[0] == v@[from as int]);
                assert(v@.skip(from as int).take(2)[1] == v@[from + 1]);
            }
        }
        from
    }
}

/// The first `# ` heading: the first line starting with `# `, without its
/// leading `# `s.
pub fn extract_h1_title(content: &str) -> (r: Option<String>)
    ensures
        match r {
            Some(v) => h1_title_s(content@) == Some(v@),
            None => h1_title_s(content@) is None,
        },
{
    let ls = lines(content);
    let ghost lv = lines_s(content@);
    let h = chars_of("# ");
    proof {
        reveal_strlit("# ");
    }
    let mut i: usize = 0;
    assert(lv.skip(0) == lv);
    while i < ls.len()
        invariant
            views(ls@) == lv,
            lv == lines_s(content@),
            h@ == "# "@,
            0 <= i <= ls@.len(),
            h1_in_lines(lv) == h1_in_lines(lv.skip(i as int)),
        decreases ls.len() - i,
    {
        let lc = chars_of(ls[i].as_str());
        proof {
            assert(lv.skip(i as int)[0] == lc@);
            assert(lv.skip(i as int).drop_first() == lv.skip(i + 1));
        }
        if chars_match_at(&lc, 0, &h) {
            proof {
                assert(lc@.subrange(0, 2) == lc@.take(2));
                assert(lc@.skip(0) == lc@);
            }
            let k = strip_all_h1(&lc, 0);
            return Some(string_of(&lc, k, lc.len()));
        }
        proof {
            if has_prefix(lc@, "# "@) {
                assert(lc@.subrange(0, 2) == lc@.take(2));
            }
        }
        i = i + 1;
    }
    None
}

// ---------------------------------------------------------------------------
// Where skills come from
// ---------------------------------------------------------------------------
/// `owner/repo` split at its first `/`.
pub open spec fn split_owner_repo_s(s: Seq<char>) -> Option<(Seq<char>, Seq<char>)> {
    match find_char_s(s, '/') {
        Some(i) => Some((s.take(i), s.skip(i + 1))),
        None => None,
    }
}

/// Split `owner/repo` at its first `/`; `Err` with `invalid owner/repo: …`
/// when there is none.
pub fn split_owner_repo(owner_repo: &str) -> (r: Result<(String, String), String>)
    ensures
        match r {
            Ok((o, p)) => split_owner_repo_s(owner_repo@) == Some((o@, p@)),
            Err(e) => split_owner_repo_s(owner_repo@) is None && e@ == "invalid owner/repo: "@
                + owner_repo@,
        },
{
    let v = chars_of(owner_repo);
    proof {
        lemma_find_char_props(v@, '/');
    }
    match find_char(&v, '/') {
        Some(i) => Ok((string_of(&v, 0, i), string_of(&v, i + 1, v.len()))),
        None => {
            let mut e = String::from_str("invalid owner/repo: ");
            e.append(owner_repo);
            Err(e)
        },
    }
}

/// The raw-content URL of a file at `HEAD` of `owner/repo`.
pub open spec fn raw_url_s(owner: Seq<char>, repo: Seq<char>, path: Seq<char>) -> Seq<char> {
    "https://raw.githubusercontent.com/"@ + owner + "/"@ + repo + "/HEAD/"@ + path
}

/// The raw-content URL of `path` at `HEAD` of `owner/repo`.
pub fn raw_url(owner: &str, repo: &str, path: &str) -> (r: String)
    ensures
        r@ == raw_url_s(owner@, repo@, path@),
{
    let mut r = String::from_str("https://raw.githubusercontent.com/");
    r.append(owner);
    r.append("/");
    r.append(repo);
    r.append("/HEAD/");
    r.append(path);
    r
}

/// The manifest a repository provides skills through.
pub fn manifest_url(owner: &str, repo: &str) -> (r: String)
    ensures
        r@ == raw_url_s(owner@, repo@, "iris-agentic-dev.toml"@),
{
    raw_url(owner, repo, "iris-agentic-dev.toml")
}

/// The `SKILL.md` of a skill directory.
pub fn skill_md_url(owner: &str, repo: &str, skill_path: &str) -> (r: String)
    ensures
        r@ == raw_url_s(owner@, repo@, skill_path@ + "/SKILL.md"@),
{
    let mut p = String::from_str(skill_path);
    p.append("/SKILL.md");
    raw_url(owner, repo, p.as_str())
}

/// What a repository's manifest provides: skill directories and
/// knowledge-base files (each empty when not listed).
pub struct SkillManifest {
    pub provides_skills: Vec<String>,
    pub provides_kb_items: Vec<String>,
}

} // verus!
