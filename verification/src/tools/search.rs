//! iris_search — full-text search via Atelier REST v2 with a synchronous try,
//! an asynchronous fallback, and polling; and the flattening of its answer.
use vstd::prelude::*;
use crate::deps::{url_encode, url_encoded, json_clone};
use crate::text::{join, join_s, views};

verus! {

/// Parameters of `iris_search`.
pub struct SearchParams {
    pub query: String,
    pub regex: bool,
    pub case_sensitive: bool,
    /// Filter to document category: CLS, MAC, INT, INC, or ALL (default)
    pub category: Option<String>,
    /// Required wildcard document scope, e.g. ["Region.**.*.cls"]: an empty
    /// scope would grep the whole namespace and time out server-side.
    pub documents: Vec<String>,
    pub namespace: String,
    /// Return all results inline regardless of count.
    pub inline: bool,
}

/// The namespace searched when none is given.
pub fn default_namespace() -> (r: String)
    ensures
        r@ == "USER"@,
{
    String::from_str("USER")
}

/// The Atelier `files` scope of a search: the documents joined with `,`, or
/// `None` when there are none (a namespace-wide grep is refused).
pub fn resolve_files(documents: &[String]) -> (r: Option<String>)
    ensures
        documents@.len() == 0 <==> r is None,
        r matches Some(f) ==> f@ == join_s(views(documents@), ","@),
{
    if documents.len() == 0 {
        return None;
    }
    Some(join(documents, ","))
}

/// The error text when no scope is given.
pub const SCOPE_REQUIRED_MSG: &'static str = "iris_search requires a document scope. Namespace-wide search greps every document sequentially and times out server-side. Pass `documents` with a wildcard scope, e.g. [\"Region.**.*.cls\"] or [\"MyPkg.*.cls\"].";

/// The text of a boolean as `format!` writes it.
pub open spec fn bool_text(b: bool) -> Seq<char> {
    if b {
        "true"@
    } else {
        "false"@
    }
}

/// The category searched: the given one, or `ALL`.
pub open spec fn category_s(c: Option<String>) -> Seq<char> {
    match c {
        Some(s) => s@,
        None => "ALL"@,
    }
}

/// The `case` flag sent: 1 for a case-sensitive search, else 0 (a missing
/// flag would mean case-sensitive server-side, so it is always sent).
pub open spec fn case_flag_s(case_sensitive: bool) -> u8 {
    if case_sensitive {
        1
    } else {
        0
    }
}

/// The query string of the synchronous search.
pub open spec fn search_query_string_s(
    query: Seq<char>,
    regex: bool,
    category: Seq<char>,
    files: Seq<char>,
    case_sensitive: bool,
) -> Seq<char> {
    "query="@ + url_encoded(query) + "&regex="@ + bool_text(regex) + "&sys=false&category="@
        + category + "&files="@ + url_encoded(files) + "&case="@ + if case_sensitive {
        "1"@
    } else {
        "0"@
    }
}

/// How a search starts: refused for want of a scope, or with its request.
pub enum SearchPlan {
    /// `{"success": false, "error_code": "SCOPE_REQUIRED", "error", "query"}`
    ScopeRequired { query: String },
    /// The synchronous GET's query string, and the fields of the POST fallback.
    Start { query_string: String, files: String, category: String, case_flag: u8 },
}

fn bool_string(b: bool) -> (r: String)
    ensures
        r@ == bool_text(b),
{
    if b {
        String::from_str("true")
    } else {
        String::from_str("false")
    }
}

/// Decide how a search starts.
pub fn plan_search(p: &SearchParams) -> (r: SearchPlan)
    ensures
        p.documents@.len() == 0 ==> (r matches SearchPlan::ScopeRequired { query } && query@
            == p.query@),
        p.documents@.len() > 0 ==> (r matches SearchPlan::Start {
            query_string,
            files,
            category,
            case_flag,
        } && files@ == join_s(views(p.documents@), ","@) && category@ == category_s(p.category)
            && case_flag == case_flag_s(p.case_sensitive) && query_string@
            == search_query_string_s(
            p.query@,
            p.regex,
            category_s(p.category),
            files@,
            p.case_sensitive,
        )),
{
    let files = match resolve_files(p.documents.as_slice()) {
        Some(f) => f,
        None => {
            return SearchPlan::ScopeRequired { query: p.query.clone() };
        },
    };
    let category = match &p.category {
        Some(c) => c.clone(),
        None => String::from_str("ALL"),
    };
    let case_flag: u8 = if p.case_sensitive {
        1
    } else {
        0
    };
    let mut q = String::from_str("query=");
    let eq = url_encode(p.query.as_str());
    q.append(eq.as_str());
    q.append("&regex=");
    let rb = bool_string(p.regex);
    q.append(rb.as_str());
    q.append("&sys=false&category=");
    q.append(category.as_str());
    q.append("&files=");
    let ef = url_encode(files.as_str());
    q.append(ef.as_str());
    q.append("&case=");
    if p.case_sensitive {
        q.append("1");
    } else {
        q.append("0");
    }
    SearchPlan::Start { query_string: q, files, category, case_flag }
}

/// The path that polls an asynchronous search.
pub fn poll_path(work_id: &str) -> (r: String)
    ensures
        r@ == "/action/search?workId="@ + url_encoded(work_id@),
{
    let mut r = String::from_str("/action/search?workId=");
    let e = url_encode(work_id);
    r.append(e.as_str());
    r
}

// ---------------------------------------------------------------------------
// The request loop: synchronous try, POST fallback, polling
// ---------------------------------------------------------------------------
/// What happened to the last request of a search.
pub enum SearchEvent {
    /// The synchronous GET answered. `success`: its status was a success.
    /// `work_id`: `None` when `result.workId` is null, else its text (empty
    /// when it is not a string).
    SyncAnswered { success: bool, work_id: Option<String> },
    /// The synchronous GET timed out or failed.
    SyncFailed,
    /// The POST answered; `work_id` is `result.workId` when it is a string.
    PostAnswered { work_id: Option<String> },
    /// The POST could not be sent.
    PostFailed { error: String },
    /// A poll interval passed; `past_deadline`: the five minutes are over.
    PollTick { past_deadline: bool },
    /// A poll answered. `success`: its status was a success; `pending`:
    /// `result.workId` is still set.
    PollAnswered { success: bool, pending: bool },
    /// A poll request failed.
    PollFailed,
}

/// What to do next.
pub enum SearchAction {
    /// Read the last answer's body as the results.
    ParseBody,
    /// Send the asynchronous POST.
    Post,
    /// Poll the asynchronous search `work_id`.
    Poll { work_id: String },
    /// Wait a poll interval, then check the deadline.
    Wait,
    /// Send the poll request again.
    SendPoll,
    /// `{"success": false, "error_code": "SEARCH_TIMEOUT", ...}`
    TimedOut,
    /// The call fails with `Search request failed: <error>`.
    Fail { message: String },
}

/// The next action after `event`.
pub fn search_step(event: SearchEvent) -> (r: SearchAction)
    ensures
        match event {
            SearchEvent::SyncAnswered { success, work_id } => if !success {
                r is Post
            } else {
                match work_id {
                    None => r is ParseBody,
                    Some(w) => r matches SearchAction::Poll { work_id: w2 } && w2@ == w@,
                }
            },
            SearchEvent::SyncFailed => r is Post,
            SearchEvent::PostAnswered { work_id } => match work_id {
                None => r is ParseBody,
                Some(w) => r matches SearchAction::Poll { work_id: w2 } && w2@ == w@,
            },
            SearchEvent::PostFailed { error } => r matches SearchAction::Fail { message }
                && message@ == "Search request failed: "@ + error@,
            SearchEvent::PollTick { past_deadline } => if past_deadline {
                r is TimedOut
            } else {
                r is SendPoll
            },
            SearchEvent::PollAnswered { success, pending } => if success && !pending {
                r is ParseBody
            } else {
                r is Wait
            },
            SearchEvent::PollFailed => r is Wait,
        },
{
    match event {
        SearchEvent::SyncAnswered { success, work_id } => {
            if !success {
                SearchAction::Post
            } else {
                match work_id {
                    None => SearchAction::ParseBody,
                    Some(w) => SearchAction::Poll { work_id: w },
                }
            }
        },
        SearchEvent::SyncFailed => SearchAction::Post,
        SearchEvent::PostAnswered { work_id } => match work_id {
            None => SearchAction::ParseBody,
            Some(w) => SearchAction::Poll { work_id: w },
        },
        SearchEvent::PostFailed { error } => {
            let mut m = String::from_str("Search request failed: ");
            m.append(error.as_str());
            SearchAction::Fail { message: m }
        },
        SearchEvent::PollTick { past_deadline } => {
            if past_deadline {
                SearchAction::TimedOut
            } else {
                SearchAction::SendPoll
            }
        },
        SearchEvent::PollAnswered { success, pending } => {
            if success && !pending {
                SearchAction::ParseBody
            } else {
                SearchAction::Wait
            }
        },
        SearchEvent::PollFailed => SearchAction::Wait,
    }
}

// ---------------------------------------------------------------------------
// Flattening the answer
// ---------------------------------------------------------------------------
/// One match as Atelier nests it under `matches[]`. Each field is the JSON
/// value found there, `None` when it is null or missing.
pub struct SearchMatch {
    pub line: Option<serde_json::Value>,
    pub at_line: Option<serde_json::Value>,
    pub member: Option<serde_json::Value>,
    pub text: Option<serde_json::Value>,
}

/// One document entry of the answer. `matches` is the `matches` array when
/// there is one; the other fields hold a flat single match.
pub struct SearchEntry {
    pub doc: Option<serde_json::Value>,
    pub matches: Option<Vec<SearchMatch>>,
    pub line: Option<serde_json::Value>,
    pub at_line: Option<serde_json::Value>,
    pub member: Option<serde_json::Value>,
    pub text: Option<serde_json::Value>,
}

/// The parts of the answer's body the results come from: `result` when it is
/// an array (Atelier v8), and `result.content` when that is one.
pub struct SearchBody {
    pub result_array: Option<Vec<SearchEntry>>,
    pub content_array: Option<Vec<SearchEntry>>,
}

/// One result: `{"document", "line", "member", "content"}`.
pub struct SearchHit {
    pub document: Option<serde_json::Value>,
    pub line: Option<serde_json::Value>,
    pub member: Option<serde_json::Value>,
    pub content: Option<serde_json::Value>,
}

/// `{"success": true, "query", "results", "total_found"}`
pub struct SearchResults {
    pub query: String,
    pub results: Vec<SearchHit>,
    pub total_found: usize,
}

/// `line`, or `atLine` when `line` is null.
pub open spec fn pick_line(line: Option<serde_json::Value>, at_line: Option<serde_json::Value>) -> Option<
    serde_json::Value,
> {
    if line is None {
        at_line
    } else {
        line
    }
}

/// The result of one nested match of document `doc`.
pub open spec fn match_hit(doc: Option<serde_json::Value>, m: SearchMatch) -> SearchHit {
    SearchHit { document: doc, line: pick_line(m.line, m.at_line), member: m.member, content: m.text }
}

/// The results of one entry: one per nested match, or the flat match when
/// there is no non-empty `matches` array.
pub open spec fn entry_hits(e: SearchEntry) -> Seq<SearchHit> {
    match e.matches {
        Some(ms) if ms@.len() > 0 => Seq::new(ms@.len(), |i: int| match_hit(e.doc, ms@[i])),
        _ => seq![
            SearchHit {
                document: e.doc,
                line: pick_line(e.line, e.at_line),
                member: e.member,
                content: e.text,
            },
        ],
    }
}

/// All results of the entries, in order.
pub open spec fn flatten_hits(es: Seq<SearchEntry>) -> Seq<SearchHit>
    decreases es.len(),
{
    if es.len() == 0 {
        Seq::empty()
    } else {
        flatten_hits(es.drop_last()) + entry_hits(es.last())
    }
}

/// The entries the results come from: `result` as an array, else
/// `result.content`, else none.
pub open spec fn body_entries(b: SearchBody) -> Seq<SearchEntry> {
    match b.result_array {
        Some(v) => v@,
        None => match b.content_array {
            Some(v) => v@,
            None => Seq::empty(),
        },
    }
}

/// Each nested match of an entry gives one result, in the matches' order,
/// carrying the entry's document and that match's member, text, and line
/// (its `atLine` when `line` is null).
pub proof fn lemma_nested_match_hits(e: SearchEntry)
    requires
        e.matches is Some,
        e.matches->0@.len() > 0,
    ensures
        entry_hits(e).len() == e.matches->0@.len(),
        forall|i: int|
            0 <= i < e.matches->0@.len() ==> {
                let m = e.matches->0@[i];
                let h = #[trigger] entry_hits(e)[i];
                &&& h.document == e.doc
                &&& h.member == m.member
                &&& h.content == m.text
                &&& h.line == if m.line is Some {
                    m.line
                } else {
                    m.at_line
                }
            },
{
}

/// An entry without a non-empty `matches` array gives exactly one result,
/// from its own document, member, text and line (`atLine` when `line` is
/// null).
pub proof fn lemma_flat_entry_hit(e: SearchEntry)
    requires
        !(e.matches is Some && e.matches->0@.len() > 0),
    ensures
        entry_hits(e).len() == 1,
        entry_hits(e)[0].document == e.doc,
        entry_hits(e)[0].member == e.member,
        entry_hits(e)[0].content == e.text,
        entry_hits(e)[0].line == if e.line is Some {
            e.line
        } else {
            e.at_line
        },
{
}

/// The results of two runs of entries are those of the first run followed by
/// those of the second.
pub proof fn lemma_flatten_append(es: Seq<SearchEntry>, fs: Seq<SearchEntry>)
    ensures
        flatten_hits(es + fs) == flatten_hits(es) + flatten_hits(fs),
    decreases fs.len(),
{
    if fs.len() == 0 {
        assert(es + fs =~= es);
        assert(flatten_hits(fs) =~= Seq::<SearchHit>::empty());
        assert(flatten_hits(es) + flatten_hits(fs) =~= flatten_hits(es));
    } else {
        lemma_flatten_append(es, fs.drop_last());
        assert((es + fs).drop_last() =~= es + fs.drop_last());
        assert((es + fs).last() == fs.last());
        assert(flatten_hits(es + fs) =~= flatten_hits(es) + flatten_hits(fs));
    }
}

fn clone_slot(v: &Option<serde_json::Value>) -> (r: Option<serde_json::Value>)
    ensures
        r == *v,
{
    match v {
        Some(x) => Some(json_clone(x)),
        None => None,
    }
}

fn push_entry_hits(out: &mut Vec<SearchHit>, e: &SearchEntry)
    ensures
        final(out)@ == old(out)@ + entry_hits(*e),
{
    match &e.matches {
        Some(ms) if ms.len() > 0 => {
            let mut j: usize = 0;
            while j < ms.len()
                invariant
                    0 <= j <= ms@.len(),
                    ms@.len() > 0,
                    e.matches == Some(*ms),
                    out@ == old(out)@ + Seq::new(j as nat, |i: int| match_hit(e.doc, ms@[i])),
                decreases ms.len() - j,
            {
                let m = &ms[j];
                let line = if m.line.is_none() {
                    clone_slot(&m.at_line)
                } else {
                    clone_slot(&m.line)
                };
                let h = SearchHit {
                    document: clone_slot(&e.doc),
                    line,
                    member: clone_slot(&m.member),
                    content: clone_slot(&m.text),
                };
                out.push(h);
                proof {
                    assert(out@ =~= old(out)@ + Seq::new(
                        (j + 1) as nat,
                        |i: int| match_hit(e.doc, ms@[i]),
                    ));
                }
                j = j + 1;
            }
            proof {
                assert(Seq::new(ms@.len(), |i: int| match_hit(e.doc, ms@[i])) == entry_hits(*e));
            }
        },
        _ => {
            let line = if e.line.is_none() {
                clone_slot(&e.at_line)
            } else {
                clone_slot(&e.line)
            };
            out.push(
                SearchHit {
                    document: clone_slot(&e.doc),
                    line,
                    member: clone_slot(&e.member),
                    content: clone_slot(&e.text),
                },
            );
        },
    }
}

/// Flatten the entries into one result per match.
pub fn flatten_search_entries(entries: &[SearchEntry]) -> (r: Vec<SearchHit>)
    ensures
        r@ == flatten_hits(entries@),
{
    let mut out: Vec<SearchHit> = Vec::new();
    let mut i: usize = 0;
    while i < entries.len()
        invariant
            0 <= i <= entries@.len(),
            out@ == flatten_hits(entries@.take(i as int)),
        decreases entries.len() - i,
    {
        push_entry_hits(&mut out, &entries[i]);
        proof {
            assert(entries@.take(i + 1).drop_last() == entries@.take(i as int));
        }
        i = i + 1;
    }
    proof {
        assert(entries@.take(entries@.len() as int) == entries@);
    }
    out
}

/// The search's answer: one result per match, and how many.
pub fn parse_search_results(body: &SearchBody, query: &str) -> (r: SearchResults)
    ensures
        r.query@ == query@,
        r.results@ == flatten_hits(body_entries(*body)),
        r.total_found == r.results@.len(),
{
    let results = match &body.result_array {
        Some(v) => flatten_search_entries(v.as_slice()),
        None => match &body.content_array {
            Some(v) => flatten_search_entries(v.as_slice()),
            None => Vec::new(),
        },
    };
    let total_found = results.len();
    SearchResults { query: String::from_str(query), results, total_found }
}

} // verus!
