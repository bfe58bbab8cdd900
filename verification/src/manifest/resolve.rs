//! Dependency resolution: where each dependency comes from, which version it
//! resolves to, and the lock file written from the result.
use vstd::prelude::*;
use crate::deps::{
    version_parse, semver_version_parse, req_parse, semver_req_parse, req_matches,
    semver_req_matches, version_less, semver_version_less, debug_str, rust_debug_str, opt_view,
    toml_string, toml_string_at, parse_json, json_text_parses, json_value_of, json_field_strings,
    json_array_field_strings,
};
use crate::manifest::schema::{DependencySpec, Manifest};
use crate::text::{
    chars_of, string_of, splitn, splitn_s, views, replace_char, replace_char_s, has_prefix, str_eq,
    find_char_s, lemma_find_char_props,
};

verus! {

/// Where a dependency comes from.
pub enum ResolvedSource {
    /// A local directory (its path).
    Local(String),
    /// A git URL.
    Git(String),
    GitHub { owner: String, repo: String },
    /// An Open Exchange package id.
    OpenExchange(String),
}

/// A version that `semver` parses: the text it was read from, and the text
/// it displays as.
pub struct SemVersion {
    source: String,
    display: String,
}

impl SemVersion {
    #[verifier::type_invariant]
    spec fn inv(self) -> bool {
        semver_version_parse(self.source@) == Ok::<Seq<char>, Seq<char>>(self.display@)
    }

    /// The text the version was read from.
    pub closed spec fn source_spec(&self) -> Seq<char> {
        self.source@
    }

    /// The text the version displays as.
    pub closed spec fn display_spec(&self) -> Seq<char> {
        self.display@
    }

    /// Parse a version; `Err` holds `semver`'s error text.
    pub fn parse(s: &str) -> (r: Result<SemVersion, String>)
        ensures
            match r {
                Ok(v) => v.source_spec() == s@ && semver_version_parse(s@) == Ok::<
                    Seq<char>,
                    Seq<char>,
                >(v.display_spec()),
                Err(e) => semver_version_parse(s@) == Err::<Seq<char>, Seq<char>>(e@),
            },
    {
        match version_parse(s) {
            Ok(d) => Ok(SemVersion { source: String::from_str(s), display: d }),
            Err(e) => Err(e),
        }
    }

    /// The version as `semver` displays it (`Version::to_string`).
    pub fn to_text(&self) -> (r: String)
        ensures
            r@ == self.display_spec(),
    {
        self.display.clone()
    }

    /// The text the version was read from.
    pub fn source_text(&self) -> (r: &str)
        ensures
            r@ == self.source_spec(),
            semver_version_parse(r@) is Ok,
    {
        proof {
            use_type_invariant(self);
        }
        self.source.as_str()
    }

    /// Whether `self` orders before `other`.
    pub fn less_than(&self, other: &SemVersion) -> (r: bool)
        ensures
            r == semver_version_less(self.source_spec(), other.source_spec()),
            r ==> !semver_version_less(other.source_spec(), self.source_spec()),
            r ==> forall|x: Seq<char>|
                semver_version_parse(x) is Ok && !semver_version_less(self.source_spec(), x)
                    ==> !#[trigger] semver_version_less(other.source_spec(), x),
    {
        proof {
            use_type_invariant(self);
            use_type_invariant(other);
        }
        version_less(self.source.as_str(), other.source.as_str())
    }
}

/// A version requirement that `semver` parses.
pub struct SemReq {
    source: String,
    display: String,
}

impl SemReq {
    #[verifier::type_invariant]
    spec fn inv(self) -> bool {
        semver_req_parse(self.source@) == Ok::<Seq<char>, Seq<char>>(self.display@)
    }

    /// The text the requirement was read from.
    pub closed spec fn source_spec(&self) -> Seq<char> {
        self.source@
    }

    /// The text the requirement displays as.
    pub closed spec fn display_spec(&self) -> Seq<char> {
        self.display@
    }

    /// Parse a requirement; `Err` holds `semver`'s error text.
    pub fn parse(s: &str) -> (r: Result<SemReq, String>)
        ensures
            match r {
                Ok(q) => q.source_spec() == s@ && semver_req_parse(s@) == Ok::<
                    Seq<char>,
                    Seq<char>,
                >(q.display_spec()),
                Err(e) => semver_req_parse(s@) == Err::<Seq<char>, Seq<char>>(e@),
            },
    {
        match req_parse(s) {
            Ok(d) => Ok(SemReq { source: String::from_str(s), display: d }),
            Err(e) => Err(e),
        }
    }

    /// Whether the version satisfies the requirement.
    pub fn matches(&self, v: &SemVersion) -> (r: bool)
        ensures
            r == semver_req_matches(self.source_spec(), v.source_spec()),
    {
        proof {
            use_type_invariant(self);
        }
        let vs = v.source_text();
        req_matches(self.source.as_str(), vs)
    }

    /// The requirement as `semver` displays it.
    pub fn to_text(&self) -> (r: String)
        ensures
            r@ == self.display_spec(),
    {
        self.display.clone()
    }
}

/// A dependency resolved to a version.
pub struct ResolvedPackage {
    pub name: String,
    pub version: SemVersion,
    pub source: ResolvedSource,
}

/// The resolved dependencies.
pub struct Resolve {
    pub packages: Vec<ResolvedPackage>,
}

/// The text of an optional string.
pub open spec fn opt_s(o: Option<String>) -> Option<Seq<char>> {
    match o {
        Some(s) => Some(s@),
        None => None,
    }
}

/// The source a dependency names, in this order of preference: a `github`
/// of the form `owner/repo`, then `git`, then `repository` (a local path),
/// then `openexchange`.
pub open spec fn dep_source_s(dep: DependencySpec) -> Option<ResolvedSourceText> {
    let gh = match dep.github {
        Some(g) => {
            let parts = splitn_s(g@, 2, '/');
            if parts.len() == 2 {
                Some(ResolvedSourceText::GitHub(parts[0], parts[1]))
            } else {
                None
            }
        },
        None => None,
    };
    if gh is Some {
        gh
    } else if dep.git is Some {
        Some(ResolvedSourceText::Git(dep.git->0@))
    } else if dep.repository is Some {
        Some(ResolvedSourceText::Local(dep.repository->0@))
    } else if dep.openexchange is Some {
        Some(ResolvedSourceText::OpenExchange(dep.openexchange->0@))
    } else {
        None
    }
}

/// A source as text.
pub enum ResolvedSourceText {
    Local(Seq<char>),
    Git(Seq<char>),
    GitHub(Seq<char>, Seq<char>),
    OpenExchange(Seq<char>),
}

/// The text of a source.
pub open spec fn source_text(s: ResolvedSource) -> ResolvedSourceText {
    match s {
        ResolvedSource::Local(p) => ResolvedSourceText::Local(p@),
        ResolvedSource::Git(u) => ResolvedSourceText::Git(u@),
        ResolvedSource::GitHub { owner, repo } => ResolvedSourceText::GitHub(owner@, repo@),
        ResolvedSource::OpenExchange(i) => ResolvedSourceText::OpenExchange(i@),
    }
}

fn clone_opt(o: &Option<String>) -> (r: Option<String>)
    ensures
        opt_s(r) == opt_s(*o),
{
    match o {
        Some(s) => Some(s.clone()),
        None => None,
    }
}

/// Where a dependency comes from; `Err` when it names no source.
pub fn dep_to_source(name: &str, dep: &DependencySpec) -> (r: Result<ResolvedSource, String>)
    ensures
        match r {
            Ok(s) => dep_source_s(*dep) == Some(source_text(s)),
            Err(e) => dep_source_s(*dep) is None && e@ == "dependency '"@ + name@
                + "' has no source (git, github, repository, or openexchange)"@,
        },
{
    if let Some(github) = &dep.github {
        let parts = splitn(github.as_str(), 2, '/');
        if parts.len() == 2 {
            proof {
                assert(views(parts@)[0] == parts@[0]@);
                assert(views(parts@)[1] == parts@[1]@);
            }
            return Ok(ResolvedSource::GitHub { owner: parts[0].clone(), repo: parts[1].clone() });
        }
    }
    if let Some(git) = &dep.git {
        return Ok(ResolvedSource::Git(git.clone()));
    }
    if let Some(repo) = &dep.repository {
        return Ok(ResolvedSource::Local(repo.clone()));
    }
    if let Some(ox) = &dep.openexchange {
        return Ok(ResolvedSource::OpenExchange(ox.clone()));
    }
    let mut e = String::from_str("dependency '");
    e.append(name);
    e.append("' has no source (git, github, repository, or openexchange)");
    Err(e)
}

/// A `github` entry holding a `/` names the GitHub repository `owner/repo`
/// split at its first `/`, whatever the other fields say.
pub proof fn lemma_dep_github_source(dep: DependencySpec, k: int)
    requires
        dep.github is Some,
        0 <= k < dep.github->0@.len(),
        dep.github->0@[k] == '/',
        forall|j: int| 0 <= j < k ==> dep.github->0@[j] != '/',
    ensures
        dep_source_s(dep) == Some(
            ResolvedSourceText::GitHub(dep.github->0@.take(k), dep.github->0@.skip(k + 1)),
        ),
{
    let g = dep.github->0@;
    lemma_find_char_props(g, '/');
    assert(find_char_s(g, '/') == Some(k)) by {
        match find_char_s(g, '/') {
            Some(m) => {
                if m < k {
                    assert(g[m] != '/');
                } else if m > k {
                    assert(g[k] != '/');
                }
            },
            None => {
                assert(g[k] != '/');
            },
        }
    }
    assert(splitn_s(g.skip(k + 1), 1, '/') == seq![g.skip(k + 1)]);
    assert(splitn_s(g, 2, '/') =~= seq![g.take(k), g.skip(k + 1)]);
}

/// Without a `github` entry holding a `/`, the source is the first of `git`,
/// `repository` and `openexchange` that is given, in that order; only a
/// dependency with none of the four has no source.
pub proof fn lemma_dep_other_sources(dep: DependencySpec)
    requires
        dep.github matches Some(g) ==> forall|j: int| 0 <= j < g@.len() ==> g@[j] != '/',
    ensures
        dep.git matches Some(u) ==> dep_source_s(dep) == Some(ResolvedSourceText::Git(u@)),
        dep.git is None && dep.repository is Some ==> dep_source_s(dep) == Some(
            ResolvedSourceText::Local(dep.repository->0@),
        ),
        dep.git is None && dep.repository is None && dep.openexchange is Some ==> dep_source_s(dep)
            == Some(ResolvedSourceText::OpenExchange(dep.openexchange->0@)),
        dep_source_s(dep) is None <==> (dep.git is None && dep.repository is None
            && dep.openexchange is None),
{
    match dep.github {
        Some(g) => {
            lemma_find_char_props(g@, '/');
            match find_char_s(g@, '/') {
                Some(m) => {
                    assert(g@[m] != '/');
                },
                None => {},
            }
            assert(splitn_s(g@, 2, '/') == seq![g@]);
        },
        None => {},
    }
}

/// The `[package].version` of a local package's manifest text, as
/// `toml_string_at` reads it: the parse error's text when the text is not
/// TOML, nothing when there is no version string.
pub open spec fn local_manifest_version_s(content: Seq<char>) -> Result<Option<Seq<char>>, Seq<char>> {
    toml_string_at(content, "package"@, "version"@)
}

/// Read the `[package].version` of a local package's manifest text (see
/// `local_manifest_version_s`).
pub fn local_manifest_version(content: &str) -> (r: Result<Option<String>, String>)
    ensures
        match r {
            Ok(v) => local_manifest_version_s(content@) == Ok::<Option<Seq<char>>, Seq<char>>(
                opt_view(v),
            ),
            Err(e) => local_manifest_version_s(content@) == Err::<Option<Seq<char>>, Seq<char>>(e@),
        },
{
    match toml_string(content, "package", "version") {
        Ok(v) => Ok(v),
        Err(e) => Err(e),
    }
}

/// The texts that are present, in order.
pub open spec fn present_texts(items: Seq<Option<Seq<char>>>) -> Seq<Seq<char>>
    decreases items.len(),
{
    if items.len() == 0 {
        Seq::empty()
    } else {
        let rest = present_texts(items.drop_last());
        match items.last() {
            Some(t) => rest.push(t),
            None => rest,
        }
    }
}

/// The tag names of a GitHub tags answer: the body must be JSON (else the
/// answer could not be decoded) and an array (else it is not a tags answer);
/// then the string `name` of each tag that has one, in order.
pub open spec fn github_tag_names_s(body: Seq<char>) -> Result<Seq<Seq<char>>, Seq<char>> {
    if !json_text_parses(body) {
        Err("error decoding response body"@)
    } else {
        match json_array_field_strings(json_value_of(body), "name"@) {
            None => Err("unexpected GitHub tags response"@),
            Some(items) => Ok(present_texts(items)),
        }
    }
}

/// The tag names of a GitHub tags answer's body (see `github_tag_names_s`).
pub fn github_tag_names(body: &str) -> (r: Result<Vec<String>, String>)
    ensures
        match r {
            Ok(v) => github_tag_names_s(body@) == Ok::<Seq<Seq<char>>, Seq<char>>(views(v@)),
            Err(e) => github_tag_names_s(body@) == Err::<Seq<Seq<char>>, Seq<char>>(e@),
        },
{
    let v = match parse_json(body) {
        Some(v) => v,
        None => {
            return Err(String::from_str("error decoding response body"));
        },
    };
    let items = match json_field_strings(&v, "name") {
        Some(items) => items,
        None => {
            return Err(String::from_str("unexpected GitHub tags response"));
        },
    };
    let ghost iv = Seq::new(items@.len(), |i: int| opt_view(items@[i]));
    let mut out: Vec<String> = Vec::new();
    let mut i: usize = 0;
    while i < items.len()
        invariant
            iv == Seq::new(items@.len(), |i: int| opt_view(items@[i])),
            0 <= i <= items@.len(),
            views(out@) == present_texts(iv.take(i as int)),
        decreases items.len() - i,
    {
        proof {
            assert(iv.take(i + 1).drop_last() == iv.take(i as int));
            assert(iv.take(i + 1).last() == opt_view(items@[i as int]));
        }
        match &items[i] {
            Some(t) => {
                let ghost before = views(out@);
                out.push(t.clone());
                assert(views(out@) =~= before.push(t@));
            },
            None => {},
        }
        i = i + 1;
    }
    assert(iv.take(iv.len() as int) == iv);
    Ok(out)
}

/// The names of the dependency table's entries, in table order.
pub open spec fn dep_names(deps: Seq<(String, DependencySpec)>) -> Seq<Seq<char>> {
    Seq::new(deps.len(), |i: int| deps[i].0@)
}

/// The positions a resolution visits, in table order: an entry whose name an
/// earlier entry already has is skipped.
pub open spec fn first_positions(names: Seq<Seq<char>>) -> Seq<int>
    decreases names.len(),
{
    if names.len() == 0 {
        Seq::empty()
    } else {
        let rest = first_positions(names.drop_last());
        if names.drop_last().contains(names.last()) {
            rest
        } else {
            rest.push(names.len() - 1)
        }
    }
}

/// The positions of the dependencies a resolution of `manifest` visits, in
/// order (see `first_positions`): each name is resolved once, at its first
/// entry.
pub fn resolution_order(manifest: &Manifest) -> (r: Vec<usize>)
    ensures
        r@.map_values(|i: usize| i as int) == first_positions(dep_names(manifest.dependencies@)),
{
    let deps = &manifest.dependencies;
    let ghost names = dep_names(deps@);
    let mut out: Vec<usize> = Vec::new();
    let mut i: usize = 0;
    while i < deps.len()
        invariant
            names == dep_names(deps@),
            0 <= i <= deps@.len(),
            out@.map_values(|k: usize| k as int) == first_positions(names.take(i as int)),
        decreases deps.len() - i,
    {
        let mut seen = false;
        let mut j: usize = 0;
        while j < i
            invariant
                names == dep_names(deps@),
                0 <= j <= i < deps@.len(),
                seen <==> exists|k: int| 0 <= k < j && names[k] == names[i as int],
            decreases i - j,
        {
            assert(names[j as int] == deps@[j as int].0@ && names[i as int] == deps@[i as int].0@);
            if str_eq(deps[j].0.as_str(), deps[i].0.as_str()) {
                seen = true;
            }
            j = j + 1;
        }
        proof {
            let pre = names.take(i + 1);
            assert(pre.drop_last() == names.take(i as int));
            assert(pre.last() == names[i as int]);
            if seen {
                let k = choose|k: int| 0 <= k < i && names[k] == names[i as int];
                assert(names.take(i as int)[k] == names[i as int]);
            } else {
                assert forall|k: int| 0 <= k < names.take(i as int).len() implies names.take(
                    i as int,
                )[k] != names[i as int] by {
                    assert(names.take(i as int)[k] == names[k]);
                }
            }
        }
        if !seen {
            let ghost before = out@;
            out.push(i);
            proof {
                assert(out@.map_values(|k: usize| k as int) =~= before.map_values(|k: usize| k as int).push(
                    i as int,
                ));
            }
        }
        i = i + 1;
    }
    proof {
        assert(names.take(names.len() as int) == names);
    }
    out
}

/// A dependency ready to resolve: its requirement and its source.
pub struct PreparedDependency {
    pub name: String,
    pub req: SemReq,
    pub source: ResolvedSource,
}

/// Read a dependency's requirement, then its source: the first that fails
/// gives the error.
pub fn prepare_dependency(name: &str, dep: &DependencySpec) -> (r: Result<PreparedDependency, String>)
    ensures
        match r {
            Ok(p) => p.name@ == name@ && semver_req_parse(dep.version@) is Ok && p.req.source_spec()
                == dep.version@ && dep_source_s(*dep) == Some(source_text(p.source)),
            Err(e) => match semver_req_parse(dep.version@) {
                Err(pe) => e@ == "invalid semver '"@ + dep.version@ + "' for dep '"@ + name@
                    + "': "@ + pe,
                Ok(_) => dep_source_s(*dep) is None && e@ == "dependency '"@ + name@
                    + "' has no source (git, github, repository, or openexchange)"@,
            },
        },
{
    let req = match SemReq::parse(dep.version.as_str()) {
        Ok(q) => q,
        Err(pe) => {
            let mut e = String::from_str("invalid semver '");
            e.append(dep.version.as_str());
            e.append("' for dep '");
            e.append(name);
            e.append("': ");
            e.append(pe.as_str());
            return Err(e);
        },
    };
    let source = dep_to_source(name, dep)?;
    Ok(PreparedDependency { name: String::from_str(name), req, source })
}

/// The error for a source whose versions cannot be resolved (git, Open
/// Exchange): the source as `{:?}` writes it, and the requirement.
pub open spec fn unsupported_source_msg(source: ResolvedSourceText, req: Seq<char>) -> Seq<char> {
    "version resolution not yet implemented for source "@ + match source {
        ResolvedSourceText::Git(u) => "Git("@ + rust_debug_str(u) + ")"@,
        ResolvedSourceText::OpenExchange(i) => "OpenExchange("@ + rust_debug_str(i) + ")"@,
        ResolvedSourceText::Local(p) => "Local("@ + rust_debug_str(p) + ")"@,
        ResolvedSourceText::GitHub(o, r) => "GitHub { owner: "@ + rust_debug_str(o) + ", repo: "@
            + rust_debug_str(r) + " }"@,
    } + " (requirement: "@ + req + ")"@
}

/// The error for a git or Open Exchange dependency.
pub fn unsupported_source_error(req: &SemReq, source: &ResolvedSource) -> (r: String)
    ensures
        r@ == unsupported_source_msg(source_text(*source), req.display_spec()),
{
    let mut m = String::from_str("version resolution not yet implemented for source ");
    match source {
        ResolvedSource::Git(u) => {
            m.append("Git(");
            m.append(debug_str(u.as_str()).as_str());
            m.append(")");
        },
        ResolvedSource::OpenExchange(i) => {
            m.append("OpenExchange(");
            m.append(debug_str(i.as_str()).as_str());
            m.append(")");
        },
        ResolvedSource::Local(p) => {
            m.append("Local(");
            m.append(debug_str(p.as_str()).as_str());
            m.append(")");
        },
        ResolvedSource::GitHub { owner, repo } => {
            m.append("GitHub { owner: ");
            m.append(debug_str(owner.as_str()).as_str());
            m.append(", repo: ");
            m.append(debug_str(repo.as_str()).as_str());
            m.append(" }");
        },
    }
    m.append(" (requirement: ");
    m.append(req.to_text().as_str());
    m.append(")");
    m
}

/// The version a tag names: the tag without one leading `v`, when that
/// parses as a version.
pub open spec fn tag_version_s(tag: Seq<char>) -> Option<Seq<char>> {
    let t = if has_prefix(tag, "v"@) {
        tag.skip(1)
    } else {
        tag
    };
    if semver_version_parse(t) is Ok {
        Some(t)
    } else {
        None
    }
}

/// The versions the tags name that satisfy `req`, in tag order.
pub open spec fn tag_candidates(req: Seq<char>, tags: Seq<Seq<char>>) -> Seq<Seq<char>>
    decreases tags.len(),
{
    if tags.len() == 0 {
        Seq::empty()
    } else {
        let rest = tag_candidates(req, tags.drop_last());
        match tag_version_s(tags.last()) {
            Some(v) => if semver_req_matches(req, v) {
                rest.push(v)
            } else {
                rest
            },
            None => rest,
        }
    }
}

/// No version of `vs` orders after `v`: each is `v` itself or not above it.
pub open spec fn no_candidate_above(v: Seq<char>, vs: Seq<Seq<char>>) -> bool {
    forall|j: int|
        0 <= j < vs.len() ==> vs[j] == v || !semver_version_less(v, #[trigger] vs[j])
}

/// The greatest of a non-empty sequence of versions: each later one
/// replaces the current greatest when that orders before it.
pub open spec fn greatest_version(vs: Seq<Seq<char>>) -> Seq<char>
    decreases vs.len(),
{
    if vs.len() <= 1 {
        vs[0]
    } else {
        let g = greatest_version(vs.drop_last());
        if semver_version_less(g, vs.last()) {
            vs.last()
        } else {
            g
        }
    }
}

/// A tag `v<t>`, for a version text `t` that parses, names the version `t`:
/// the leading `v` is dropped.
pub proof fn lemma_v_tag_names_version(t: Seq<char>)
    requires
        semver_version_parse(t) is Ok,
    ensures
        tag_version_s("v"@ + t) == Some(t),
{
    reveal_strlit("v");
    let tag = "v"@ + t;
    assert(tag.take(1) =~= "v"@);
    assert(tag.skip(1) =~= t);
}

/// A tag that does not start with `v` and parses as a version names that
/// version itself.
pub proof fn lemma_plain_tag_names_version(t: Seq<char>)
    requires
        semver_version_parse(t) is Ok,
        t.len() == 0 || t[0] != 'v',
    ensures
        tag_version_s(t) == Some(t),
{
    reveal_strlit("v");
    if has_prefix(t, "v"@) {
        assert(t.take(1)[0] == t[0]);
    }
}

/// A tag `v<t>` whose version `t` satisfies the requirement makes `t` one of
/// the candidates the greatest is chosen from.
pub proof fn lemma_v_tag_is_candidate(req: Seq<char>, tags: Seq<Seq<char>>, j: int, t: Seq<char>)
    requires
        0 <= j < tags.len(),
        tags[j] == "v"@ + t,
        semver_version_parse(t) is Ok,
        semver_req_matches(req, t),
    ensures
        tag_candidates(req, tags).contains(t),
    decreases tags.len(),
{
    lemma_v_tag_names_version(t);
    if j == tags.len() - 1 {
        let c = tag_candidates(req, tags);
        assert(c == tag_candidates(req, tags.drop_last()).push(t));
        assert(c[c.len() - 1] == t);
    } else {
        let d = tags.drop_last();
        assert(d[j] == tags[j]);
        lemma_v_tag_is_candidate(req, d, j, t);
        let r = tag_candidates(req, d);
        let k = choose|k: int| 0 <= k < r.len() && r[k] == t;
        let c = tag_candidates(req, tags);
        match tag_version_s(tags.last()) {
            Some(v) => if semver_req_matches(req, v) {
                assert(c == r.push(v));
                assert(c[k] == t);
            } else {
                assert(c == r);
            },
            None => {
                assert(c == r);
            },
        }
    }
}

fn tag_version(tag: &str) -> (r: Option<SemVersion>)
    ensures
        match r {
            Some(v) => tag_version_s(tag@) == Some(v.source_spec()),
            None => tag_version_s(tag@) is None,
        },
{
    let v = chars_of(tag);
    proof {
        reveal_strlit("v");
    }
    let t = if v.len() > 0 && v[0] == 'v' {
        proof {
            assert(tag@.take(1) == "v"@);
        }
        string_of(&v, 1, v.len())
    } else {
        proof {
            if has_prefix(tag@, "v"@) {
                assert(tag@.take(1)[0] == tag@[0]);
            }
            assert(v@.subrange(0, v@.len() as int) == v@);
        }
        string_of(&v, 0, v.len())
    };
    match SemVersion::parse(t.as_str()) {
        Ok(x) => Some(x),
        Err(_) => None,
    }
}

/// The version a GitHub dependency resolves to: the greatest of the tagged
/// versions (`v1.2.3` and `1.2.3` both count) that satisfy `req`; an error
/// when there is none.
pub fn select_github_version(req: &SemReq, tags: &[String], owner: &str, repo: &str) -> (r: Result<
    SemVersion,
    String,
>)
    ensures
        ({
            let c = tag_candidates(req.source_spec(), views(tags@));
            match r {
                Ok(v) => c.len() > 0 && v.source_spec() == greatest_version(c) && no_candidate_above(
                    v.source_spec(),
                    c,
                ),
                Err(e) => c.len() == 0 && e@ == "no tags in "@ + owner@ + "/"@ + repo@
                    + " satisfy version requirement "@ + req.display_spec(),
            }
        }),
{
    let ghost tv = views(tags@);
    let mut best: Option<SemVersion> = None;
    let mut i: usize = 0;
    while i < tags.len()
        invariant
            tv == views(tags@),
            0 <= i <= tags@.len(),
            ({
                let c = tag_candidates(req.source_spec(), tv.take(i as int));
                match best {
                    None => c.len() == 0,
                    Some(b) => c.len() > 0 && b.source_spec() == greatest_version(c)
                        && no_candidate_above(b.source_spec(), c),
                }
            }),
            forall|j: int|
                0 <= j < tag_candidates(req.source_spec(), tv.take(i as int)).len()
                    ==> semver_version_parse(
                    #[trigger] tag_candidates(req.source_spec(), tv.take(i as int))[j],
                ) is Ok,
        decreases tags.len() - i,
    {
        proof {
            assert(tv.take(i + 1).drop_last() == tv.take(i as int));
            assert(tv.take(i + 1).last() == tags@[i as int]@);
        }
        match tag_version(tags[i].as_str()) {
            Some(v) => {
                if req.matches(&v) {
                    let ghost c = tag_candidates(req.source_spec(), tv.take(i as int));
                    let ghost c2 = c.push(v.source_spec());
                    proof {
                        assert(c2.drop_last() == c);
                        assert(c2.last() == v.source_spec());
                    }
                    best = match best {
                        None => {
                            proof {
                                assert(c2.len() == 1);
                            }
                            Some(v)
                        },
                        Some(b) => {
                            if b.less_than(&v) {
                                Some(v)
                            } else {
                                Some(b)
                            }
                        },
                    };
                }
            },
            None => {},
        }
        i = i + 1;
    }
    proof {
        assert(tv.take(tags@.len() as int) == tv);
    }
    match best {
        Some(b) => Ok(b),
        None => {
            let mut e = String::from_str("no tags in ");
            e.append(owner);
            e.append("/");
            e.append(repo);
            e.append(" satisfy version requirement ");
            e.append(req.to_text().as_str());
            Err(e)
        },
    }
}

/// The version a local dependency resolves to, from the `[package].version`
/// of its manifest at `manifest_path` (`None` when absent): it must parse
/// and satisfy `req`.
pub fn check_local_version(req: &SemReq, version: Option<&str>, manifest_path: &str) -> (r: Result<
    SemVersion,
    String,
>)
    ensures
        match version {
            None => r matches Err(e) && e@ == "no [package].version in "@ + rust_debug_str(
                manifest_path@,
            ),
            Some(t) => match semver_version_parse(t@) {
                Err(pe) => r matches Err(e) && e@ == pe,
                Ok(d) => if semver_req_matches(req.source_spec(), t@) {
                    r matches Ok(v) && v.source_spec() == t@
                } else {
                    r matches Err(e) && e@ == "local version "@ + d + " does not satisfy "@
                        + req.display_spec()
                },
            },
        },
{
    let t = match version {
        Some(t) => t,
        None => {
            let mut e = String::from_str("no [package].version in ");
            e.append(debug_str(manifest_path).as_str());
            return Err(e);
        },
    };
    let v = SemVersion::parse(t)?;
    if req.matches(&v) {
        return Ok(v);
    }
    let mut e = String::from_str("local version ");
    e.append(v.to_text().as_str());
    e.append(" does not satisfy ");
    e.append(req.to_text().as_str());
    Err(e)
}

/// The error for a local dependency without a manifest.
pub fn local_missing_error(path: &str) -> (r: String)
    ensures
        r@ == "local source "@ + rust_debug_str(path@) + " has no iris-agentic-dev.toml"@,
{
    let mut e = String::from_str("local source ");
    e.append(debug_str(path).as_str());
    e.append(" has no iris-agentic-dev.toml");
    e
}

// ---------------------------------------------------------------------------
// The lock file
// ---------------------------------------------------------------------------
/// The resolved dependencies as the lock file records them.
pub struct ResolveLock {
    pub packages: Vec<PackageLock>,
}

/// One locked package.
pub struct PackageLock {
    pub name: String,
    pub version: String,
    pub repository: String,
    pub checksum: Option<String>,
}

/// The repository a source is recorded under.
pub open spec fn repository_s(s: ResolvedSourceText) -> Seq<char> {
    match s {
        ResolvedSourceText::GitHub(owner, repo) => "https://github.com/"@ + owner + "/"@ + repo,
        ResolvedSourceText::Git(url) => url,
        ResolvedSourceText::Local(path) => path,
        ResolvedSourceText::OpenExchange(id) => "openexchange:"@ + id,
    }
}

fn repository_of(s: &ResolvedSource) -> (r: String)
    ensures
        r@ == repository_s(source_text(*s)),
{
    match s {
        ResolvedSource::GitHub { owner, repo } => {
            let mut r = String::from_str("https://github.com/");
            r.append(owner.as_str());
            r.append("/");
            r.append(repo.as_str());
            r
        },
        ResolvedSource::Git(url) => url.clone(),
        ResolvedSource::Local(path) => path.clone(),
        ResolvedSource::OpenExchange(id) => {
            let mut r = String::from_str("openexchange:");
            r.append(id.as_str());
            r
        },
    }
}

impl Resolve {
    /// The lock entries: one per package, in order, with its displayed
    /// version and its repository URL, and no checksum.
    pub fn to_lock(&self) -> (r: ResolveLock)
        ensures
            r.packages@.len() == self.packages@.len(),
            forall|i: int|
                0 <= i < r.packages@.len() ==> {
                    let p = #[trigger] self.packages@[i];
                    let l = r.packages@[i];
                    &&& l.name@ == p.name@
                    &&& l.version@ == p.version.display_spec()
                    &&& l.repository@ == repository_s(source_text(p.source))
                    &&& l.checksum is None
                },
    {
        let mut out: Vec<PackageLock> = Vec::new();
        let mut i: usize = 0;
        while i < self.packages.len()
            invariant
                0 <= i <= self.packages@.len(),
                out@.len() == i,
                forall|j: int|
                    0 <= j < i ==> {
                        let p = #[trigger] self.packages@[j];
                        let l = out@[j];
                        &&& l.name@ == p.name@
                        &&& l.version@ == p.version.display_spec()
                        &&& l.repository@ == repository_s(source_text(p.source))
                        &&& l.checksum is None
                    },
            decreases self.packages.len() - i,
        {
            let p = &self.packages[i];
            out.push(
                PackageLock {
                    name: p.name.clone(),
                    version: p.version.to_text(),
                    repository: repository_of(&p.source),
                    checksum: None,
                },
            );
            i = i + 1;
        }
        ResolveLock { packages: out }
    }
}

/// TOML basic-string escaping of `\` and `"`.
pub open spec fn toml_escape_s(s: Seq<char>) -> Seq<char> {
    replace_char_s(replace_char_s(s, '\\', "\\\\"@), '"', "\\\""@)
}

fn toml_escape(s: &str) -> (r: String)
    ensures
        r@ == toml_escape_s(s@),
{
    let a = replace_char(s, '\\', "\\\\");
    replace_char(a.as_str(), '"', "\\\"")
}

/// The entry of one package in the lock file.
pub open spec fn package_entry_s(name: Seq<char>, version: Seq<char>, repository: Seq<char>) -> Seq<
    char,
> {
    "[[package]]\nname = \""@ + toml_escape_s(name) + "\"\nversion = \""@ + toml_escape_s(version)
        + "\"\nrepository = \""@ + toml_escape_s(repository) + "\"\n\n"@
}

/// The lock file text of the first `n` packages.
pub open spec fn lock_text_s(ps: Seq<PackageLock>) -> Seq<char>
    decreases ps.len(),
{
    if ps.len() == 0 {
        "[metadata]\nformat-version = 1\n\n"@
    } else {
        lock_text_s(ps.drop_last()) + package_entry_s(
            ps.last().name@,
            ps.last().version@,
            ps.last().repository@,
        )
    }
}

impl ResolveLock {
    /// The lock file: a `[metadata]` header, then one `[[package]]` table per
    /// package with its strings escaped.
    pub fn to_toml(&self) -> (r: String)
        ensures
            r@ == lock_text_s(self.packages@),
    {
        let mut out = String::from_str("[metadata]\nformat-version = 1\n\n");
        let mut i: usize = 0;
        while i < self.packages.len()
            invariant
                0 <= i <= self.packages@.len(),
                out@ == lock_text_s(self.packages@.take(i as int)),
            decreases self.packages.len() - i,
        {
            let p = &self.packages[i];
            out.append("[[package]]\nname = \"");
            out.append(toml_escape(p.name.as_str()).as_str());
            out.append("\"\nversion = \"");
            out.append(toml_escape(p.version.as_str()).as_str());
            out.append("\"\nrepository = \"");
            out.append(toml_escape(p.repository.as_str()).as_str());
            out.append("\"\n\n");
            proof {
                assert(self.packages@.take(i + 1).drop_last() == self.packages@.take(i as int));
            }
            i = i + 1;
        }
        proof {
            assert(self.packages@.take(self.packages@.len() as int) == self.packages@);
        }
        out
    }
}

} // verus!
