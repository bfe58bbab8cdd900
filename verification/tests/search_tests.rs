use iris_agentic_dev_core::tools::search::{
    flatten_search_entries, parse_search_results, plan_search, poll_path, resolve_files,
    search_step, SearchAction, SearchBody, SearchEntry, SearchEvent, SearchMatch, SearchParams,
    SearchPlan,
};

#[test]
fn test_resolve_files_honours_explicit_documents() {
    let docs = vec!["Region.**.*.cls".to_string(), "Foo.*.mac".to_string()];
    assert_eq!(resolve_files(&docs).as_deref(), Some("Region.**.*.cls,Foo.*.mac"));
}
#[test]
fn test_resolve_files_single_document() {
    let docs = vec!["MyPkg.*.cls".to_string()];
    assert_eq!(resolve_files(&docs).as_deref(), Some("MyPkg.*.cls"));
}
#[test]
fn test_resolve_files_empty_scope_is_rejected() {
    assert_eq!(resolve_files(&[]), None);
}

fn params() -> SearchParams {
    SearchParams {
        query: "Set x".to_string(),
        regex: false,
        case_sensitive: false,
        category: None,
        documents: vec!["App.*.cls".to_string()],
        namespace: "USER".to_string(),
        inline: false,
    }
}

#[test]
fn search_plan_sends_case_flag_and_encodes() {
    match plan_search(&params()) {
        SearchPlan::Start { query_string, files, category, case_flag } => {
            assert_eq!(query_string, "query=Set%20x&regex=false&sys=false&category=ALL&files=App.%2A.cls&case=0");
            assert_eq!(files, "App.*.cls");
            assert_eq!(category, "ALL");
            assert_eq!(case_flag, 0);
        }
        _ => panic!("scoped search starts"),
    }
    let mut p = params();
    p.documents.clear();
    assert!(matches!(plan_search(&p), SearchPlan::ScopeRequired { .. }));
}

#[test]
fn search_steps() {
    assert!(matches!(search_step(SearchEvent::SyncAnswered { success: true, work_id: None }), SearchAction::ParseBody));
    assert!(matches!(search_step(SearchEvent::SyncAnswered { success: false, work_id: None }), SearchAction::Post));
    match search_step(SearchEvent::SyncAnswered { success: true, work_id: Some("w1".to_string()) }) {
        SearchAction::Poll { work_id } => assert_eq!(work_id, "w1"),
        _ => panic!("work id polls"),
    }
    assert!(matches!(search_step(SearchEvent::PollTick { past_deadline: true }), SearchAction::TimedOut));
    assert!(matches!(search_step(SearchEvent::PollAnswered { success: true, pending: true }), SearchAction::Wait));
    match search_step(SearchEvent::PostFailed { error: "boom".to_string() }) {
        SearchAction::Fail { message } => assert_eq!(message, "Search request failed: boom"),
        _ => panic!("post failure"),
    }
    assert_eq!(poll_path("a b"), "/action/search?workId=a%20b");
}

fn jv(s: &str) -> Option<serde_json::Value> {
    Some(serde_json::from_str(s).unwrap())
}

#[test]
fn nested_matches_flatten_one_result_per_match() {
    let m = |line: &str, text: &str| SearchMatch { line: jv(line), at_line: None, member: None, text: jv(text) };
    let entry = SearchEntry {
        doc: jv("\"Foo.cls\""),
        matches: Some(vec![m("10", "\"A\""), m("20", "\"B\"")]),
        line: None,
        at_line: None,
        member: None,
        text: None,
    };
    let body = SearchBody { result_array: None, content_array: Some(vec![entry]) };
    let r = parse_search_results(&body, "q");
    assert_eq!(r.total_found, 2);
    assert_eq!(r.results[1].line, jv("20"));
    assert_eq!(r.results[0].document, jv("\"Foo.cls\""));
}

#[test]
fn flat_entry_uses_at_line_when_line_is_null() {
    let entry = SearchEntry { doc: jv("\"Bar.cls\""), matches: Some(vec![]), line: None, at_line: jv("1"), member: jv("\"\""), text: jv("\"bar\"") };
    let hits = flatten_search_entries(&[entry]);
    assert_eq!(hits.len(), 1);
    assert_eq!(hits[0].line, jv("1"));
    assert_eq!(hits[0].content, jv("\"bar\""));
}

// ── the answer of /action/search, as the library takes it ────────────────
fn field(v: &serde_json::Value, k: &str) -> Option<serde_json::Value> {
    v.get(k).filter(|x| !x.is_null()).cloned()
}

fn entries(a: &[serde_json::Value]) -> Vec<SearchEntry> {
    a.iter()
        .map(|item| SearchEntry {
            doc: field(item, "doc"),
            matches: item["matches"].as_array().map(|ms| {
                ms.iter()
                    .map(|m| SearchMatch {
                        line: field(m, "line"),
                        at_line: field(m, "atLine"),
                        member: field(m, "member"),
                        text: field(m, "text"),
                    })
                    .collect()
            }),
            line: field(item, "line"),
            at_line: field(item, "atLine"),
            member: field(item, "member"),
            text: field(item, "text"),
        })
        .collect()
}

fn body_of(text: &str) -> SearchBody {
    let v: serde_json::Value = serde_json::from_str(text).unwrap();
    SearchBody {
        result_array: v["result"].as_array().map(|a| entries(a)),
        content_array: v["result"]["content"].as_array().map(|a| entries(a)),
    }
}

fn js(x: &str) -> Option<serde_json::Value> {
    Some(serde_json::Value::from(x))
}

fn jn(x: i64) -> Option<serde_json::Value> {
    Some(serde_json::Value::from(x))
}

#[test]
fn test_parse_nested_matches_shape() {
    let body = body_of(r#"{"result": {"workId": null, "content": [
        {"doc": "Foo.cls", "matches": [
            {"text": "ClassMethod A()", "line": 10, "member": "A"},
            {"text": "ClassMethod B()", "line": 20, "member": "B"}
        ]}
    ]}}"#);
    let v = parse_search_results(&body, "q");
    assert_eq!(v.total_found, 2);
    assert_eq!(v.results[0].document, js("Foo.cls"));
    assert_eq!(v.results[0].line, jn(10));
    assert_eq!(v.results[0].content, js("ClassMethod A()"));
    assert_eq!(v.results[1].line, jn(20));
}

#[test]
fn test_parse_v8_result_is_array_directly() {
    let body = body_of(r#"{"result": [
        {"doc": "Region.FRXX.Foo.cls", "matches": [
            {"member": "Bar", "line": 122, "text": "set x = DataSource"},
            {"member": "Bar", "line": 135, "text": "quit DataSource"}
        ]}
    ]}"#);
    let v = parse_search_results(&body, "q");
    assert_eq!(v.total_found, 2);
    assert_eq!(v.results[0].document, js("Region.FRXX.Foo.cls"));
    assert_eq!(v.results[0].line, jn(122));
    assert_eq!(v.results[0].content, js("set x = DataSource"));
    assert_eq!(v.results[1].line, jn(135));
}

#[test]
fn test_parse_flat_shape() {
    let body = body_of(r#"{"result": {"workId": null, "content": [
        {"doc": "Bar.cls", "atLine": 1, "text": "bar", "member": ""}
    ]}}"#);
    let v = parse_search_results(&body, "q");
    assert_eq!(v.total_found, 1);
    assert_eq!(v.results[0].document, js("Bar.cls"));
    assert_eq!(v.results[0].line, jn(1));
    assert_eq!(v.results[0].content, js("bar"));
}

#[test]
fn test_parse_empty_content() {
    let body = body_of(r#"{"result": {"workId": null, "content": []}}"#);
    let v = parse_search_results(&body, "q");
    assert_eq!(v.total_found, 0);
    assert_eq!(v.results.len(), 0);
}
