use iris_agentic_dev_core::elicitation::{ElicitationAction, ElicitationStore, EXPIRY_NANOS};
use iris_agentic_dev_core::tools::doc::{
    batch_read_entries, BatchRead,
    apply_delete_lines, apply_insert, batch_delete, batch_read_order, compile_report,
    compiled_content, derive_routine_name, diff_expected, doc_resume_begin, doc_resume_begin_at,
    edit_delete_lines,
    edit_insert, execute_method_code, lenient_i64, execute_method_result, glob_to_regex, http_err_json,
    list_documents, plan_compiled, plan_delete_lines, plan_fragment, plan_insert, plan_list,
    plan_upload, put_content, require_name, scm_write_gate, slice_lines, strip_storage_blocks,
    checkout_commit_error, default_mode, doc_content_to_string, delete_status_error, docnames_fetch_error, fragment_lines,
    invalid_mode_error, read_status_error, write_check_code, FragmentRequest,
    BatchAnswer, CompileAnswer, DocNameEntry, DocResume, EditError, IrisDocParams, WriteGate,
};

fn v(items: &[&str]) -> Vec<String> {
    items.iter().map(|s| s.to_string()).collect()
}

fn params(mode: &str) -> IrisDocParams {
    IrisDocParams {
        mode: mode.to_string(),
        name: None,
        names: vec![],
        content: None,
        namespace: "USER".to_string(),
        elicitation_id: None,
        elicitation_answer: None,
        compile: false,
        start: None,
        end: None,
        line: None,
        expected: None,
        compiled_type: None,
        pattern: None,
        category: None,
        max_results: None,
    }
}

// ── strip_storage_blocks ──────────────────────────────────────────────────
#[test]
fn test_strip_storage_blocks_single_line_storage() {
    let cls = "Class Foo {\nStorage Default {}\n}";
    let (stripped, flag) = strip_storage_blocks(cls);
    assert!(flag, "should detect storage");
    assert!(!stripped.contains("Storage Default"), "should strip");
}
#[test]
fn test_strip_storage_blocks_preserves_class_wrapper() {
    let cls = "Class Foo {\nProperty X As %String;\nStorage Default {\n<Type>T</Type>\n}\n}";
    let (stripped, _) = strip_storage_blocks(cls);
    assert!(stripped.contains("Class Foo"), "class wrapper preserved");
    assert!(stripped.contains("Property X"), "property preserved");
    assert!(stripped.trim_end().ends_with('}'), "closing brace preserved");
}
#[test]
fn test_strip_storage_blocks_inline_brace_strips_content() {
    let cls = "Class Foo {\nStorage Default {\n<Data>\n<Value>{ nested }</Value>\n</Data>\n}\n}";
    let (stripped, flag) = strip_storage_blocks(cls);
    assert!(flag);
    assert!(!stripped.contains("Storage Default"));
    assert!(!stripped.contains("nested"));
}
#[test]
fn test_strip_storage_blocks_no_storage_returns_unchanged() {
    let cls = "Class Foo {\nProperty X As %String;\n}";
    let (stripped, flag) = strip_storage_blocks(cls);
    assert!(!flag, "no storage block should be flagged false");
    assert_eq!(stripped, cls);
}
#[test]
fn test_strip_storage_blocks_multiple_storage_blocks() {
    let cls = "Class Foo {\nStorage A {\n<one/>\n}\nStorage B {\n<two/>\n}\n}";
    let (stripped, flag) = strip_storage_blocks(cls);
    assert!(flag);
    assert!(!stripped.contains("Storage A"));
    assert!(!stripped.contains("Storage B"));
    assert!(stripped.contains("Class Foo"));
}
#[test]
fn test_strip_storage_blocks_trailing_blank_lines_removed() {
    let cls = "Class Foo {\nProperty X As %String;\n\n\nStorage Default {\n<Type>T</Type>\n}\n}";
    let (stripped, flag) = strip_storage_blocks(cls);
    assert!(flag, "should detect storage");
    assert!(!stripped.contains("Storage Default"));
    assert!(!stripped.ends_with("\n\n"), "should not end with multiple blank lines: {:?}", stripped);
}
#[test]
fn test_strip_storage_blocks_two_named_blocks() {
    let cls = "Class Foo {\nProperty X As %String;\nStorage Default {\n<Data/>\n}\nStorage Old {\n<Data/>\n}\n}";
    let (stripped, flag) = strip_storage_blocks(cls);
    assert!(flag);
    assert!(!stripped.contains("Storage Default"));
    assert!(!stripped.contains("Storage Old"));
    assert!(stripped.contains("Property X"));
}
#[test]
fn test_strip_storage_blocks_nested_braces() {
    let cls = "Class Foo {\nStorage Default {\n<Data>{\n  <Item>{value}</Item>\n}\n</Data>\n}\n}";
    let (stripped, flag) = strip_storage_blocks(cls);
    assert!(flag);
    assert!(!stripped.contains("Storage Default"));
    assert!(stripped.contains("Class Foo"));
}
#[test]
fn test_strip_storage_blocks_empty_class() {
    let cls = "Class Foo {\n}";
    let (stripped, flag) = strip_storage_blocks(cls);
    assert!(!flag);
    assert_eq!(stripped, cls);
}
#[test]
fn test_strip_storage_blocks_only_storage() {
    let cls = "Class Foo {\nStorage Default {\n<Type>T</Type>\n}\n}";
    let (stripped, flag) = strip_storage_blocks(cls);
    assert!(flag);
    assert!(stripped.contains("Class Foo"));
    assert!(!stripped.contains("Storage"));
}
#[test]
fn test_strip_storage_blocks_storage_with_different_name() {
    let cls = "Class Foo {\nStorage MyCustom {\n<Data/>\n}\n}";
    let (stripped, flag) = strip_storage_blocks(cls);
    assert!(flag);
    assert!(!stripped.contains("Storage MyCustom"));
    assert!(stripped.contains("Class Foo"));
}
#[test]
fn test_strip_storage_blocks_storage_at_end() {
    let cls = "Class Foo {\nProperty X As %String;\nStorage Default {\n<Type>T</Type>\n}\n}";
    let (stripped, flag) = strip_storage_blocks(cls);
    assert!(flag);
    assert!(stripped.contains("Property X"));
    assert!(!stripped.contains("Storage Default"));
}
#[test]
fn test_strip_storage_blocks_storage_multiple_lines_no_brace_on_first() {
    let cls = "Class Foo {\nStorage Default\n{\n<Type>T</Type>\n}\n}";
    let (stripped, flag) = strip_storage_blocks(cls);
    assert!(flag);
    assert!(!stripped.contains("Storage Default"));
    assert!(stripped.contains("Class Foo"));
}

// ── derive_routine_name ───────────────────────────────────────────────────
#[test]
fn test_derive_routine_name_cls() {
    assert_eq!(derive_routine_name("MyApp.Foo.cls"), Some("MyApp.Foo.1".to_string()));
}
#[test]
fn test_derive_routine_name_cls_uppercase() {
    assert_eq!(derive_routine_name("MyApp.Foo.CLS"), Some("MyApp.Foo.1".to_string()));
}
#[test]
fn test_derive_routine_name_cls_mixed_case() {
    assert_eq!(derive_routine_name("MyApp.Foo.Cls"), Some("MyApp.Foo.1".to_string()));
}
#[test]
fn test_derive_routine_name_mac() {
    assert_eq!(derive_routine_name("MyRoutine.mac"), Some("MyRoutine".to_string()));
}
#[test]
fn test_derive_routine_name_mac_uppercase() {
    assert_eq!(derive_routine_name("MyRoutine.MAC"), Some("MyRoutine".to_string()));
}
#[test]
fn test_derive_routine_name_int() {
    assert_eq!(derive_routine_name("MyRoutine.int"), Some("MyRoutine".to_string()));
}
#[test]
fn test_derive_routine_name_int_uppercase() {
    assert_eq!(derive_routine_name("MyRoutine.INT"), Some("MyRoutine".to_string()));
}
#[test]
fn test_derive_routine_name_inc_returns_none() {
    assert_eq!(derive_routine_name("MyMacros.inc"), None);
}
#[test]
fn test_derive_routine_name_inc_uppercase_returns_none() {
    assert_eq!(derive_routine_name("MyMacros.INC"), None);
}
#[test]
fn test_derive_routine_name_unknown_ext_strips_ext() {
    assert_eq!(derive_routine_name("MyFile.xyz"), Some("MyFile".to_string()));
}
#[test]
fn test_derive_routine_name_no_extension() {
    assert_eq!(derive_routine_name("MyRoutine"), Some("MyRoutine".to_string()));
}
#[test]
fn test_derive_routine_name_complex_namespace() {
    assert_eq!(derive_routine_name("App.Module.Sub.Class.cls"), Some("App.Module.Sub.Class.1".to_string()));
}

// ── glob_to_regex ─────────────────────────────────────────────────────────
#[test]
fn test_glob_to_regex_basic_wildcard() {
    let re_str = glob_to_regex("User.*");
    assert!(re_str.contains("User\\..*"));
    assert!(re_str.starts_with("(?i)^"));
    assert!(re_str.ends_with("$"));
}
#[test]
fn test_glob_to_regex_empty_string() {
    assert_eq!(glob_to_regex(""), "(?i)^$");
}
#[test]
fn test_glob_to_regex_question_mark() {
    let re_str = glob_to_regex("My?.cls");
    assert!(re_str.contains("My."));
    let re = regex::Regex::new(&re_str).unwrap();
    assert!(re.is_match("Myf.cls"));
    assert!(re.is_match("MYF.CLS"));
}
#[test]
fn test_glob_to_regex_exact_match() {
    let re_str = glob_to_regex("Exact.Name.cls");
    assert!(re_str.contains("Exact\\.Name\\.cls"));
    let re = regex::Regex::new(&re_str).unwrap();
    assert!(re.is_match("Exact.Name.cls"));
    assert!(!re.is_match("Exact.Name.clsx"));
}

// ── slice_lines ───────────────────────────────────────────────────────────
#[test]
fn test_slice_lines_single_line_request() {
    let lines = vec!["only".to_string()];
    let (sliced, start, end, clamped) = slice_lines(&lines, 1, 1);
    assert_eq!(sliced.len(), 1);
    assert_eq!(sliced[0], "only");
    assert_eq!(start, 1);
    assert_eq!(end, 1);
    assert!(!clamped);
}
#[test]
fn test_slice_lines_empty_array() {
    let lines: Vec<String> = vec![];
    let (sliced, _, _, clamped) = slice_lines(&lines, 1, 10);
    assert!(sliced.is_empty());
    assert!(clamped);
}
#[test]
fn test_slice_lines_negative_start_clamped() {
    let lines: Vec<String> = (1..=5).map(|i| format!("line{i}")).collect();
    let (sliced, start, _, _) = slice_lines(&lines, -10, 3);
    assert_eq!(start, 1);
    assert_eq!(sliced.len(), 3);
}
#[test]
fn test_slice_lines_zero_start_clamped() {
    let lines: Vec<String> = (1..=5).map(|i| format!("line{i}")).collect();
    let (sliced, start, _, _) = slice_lines(&lines, 0, 3);
    assert_eq!(start, 1);
    assert_eq!(sliced.len(), 3);
}
#[test]
fn test_slice_lines_exact_boundaries() {
    let lines: Vec<String> = (1..=10).map(|i| format!("line{i}")).collect();
    let (sliced, start, end, clamped) = slice_lines(&lines, 5, 10);
    assert_eq!(sliced.len(), 6);
    assert_eq!(start, 5);
    assert_eq!(end, 10);
    assert!(!clamped);
    assert_eq!(sliced[0], "line5");
    assert_eq!(sliced[5], "line10");
}
#[test]
fn test_slice_lines_middle_range() {
    let lines: Vec<String> = (1..=20).map(|i| format!("line{i}")).collect();
    let (sliced, _, _, _) = slice_lines(&lines, 5, 10);
    assert_eq!(sliced.len(), 6);
    assert_eq!(sliced[0], "line5");
}

// ── apply_insert / apply_delete_lines ─────────────────────────────────────
#[test]
fn test_apply_insert_middle() {
    let lines = v(&["a", "b", "c"]);
    let (out, at) = apply_insert(&lines, 2, &v(&["X", "Y"]));
    assert_eq!(out, v(&["a", "X", "Y", "b", "c"]));
    assert_eq!(at, 2);
}
#[test]
fn test_apply_insert_prepend() {
    let lines = v(&["a", "b"]);
    let (out, at) = apply_insert(&lines, 1, &v(&["X"]));
    assert_eq!(out, v(&["X", "a", "b"]));
    assert_eq!(at, 1);
}
#[test]
fn test_apply_insert_append_at_len_plus_1() {
    let lines = v(&["a", "b"]);
    let (out, at) = apply_insert(&lines, 3, &v(&["X"]));
    assert_eq!(out, v(&["a", "b", "X"]));
    assert_eq!(at, 3);
}
#[test]
fn test_apply_insert_beyond_eof_clamps_to_append() {
    let lines = v(&["a", "b"]);
    let (out, at) = apply_insert(&lines, 999, &v(&["X"]));
    assert_eq!(out, v(&["a", "b", "X"]));
    assert_eq!(at, 3);
}
#[test]
fn test_apply_insert_into_empty_doc() {
    let lines: Vec<String> = vec![];
    let (out, at) = apply_insert(&lines, 1, &v(&["X"]));
    assert_eq!(out, v(&["X"]));
    assert_eq!(at, 1);
}
#[test]
fn test_apply_delete_lines_middle() {
    let lines = v(&["a", "b", "c", "d"]);
    let (out, removed, s, e) = apply_delete_lines(&lines, 2, 3);
    assert_eq!(out, v(&["a", "d"]));
    assert_eq!(removed, 2);
    assert_eq!((s, e), (2, 3));
}
#[test]
fn test_apply_delete_lines_single() {
    let lines = v(&["a", "b", "c"]);
    let (out, removed, _, _) = apply_delete_lines(&lines, 2, 2);
    assert_eq!(out, v(&["a", "c"]));
    assert_eq!(removed, 1);
}
#[test]
fn test_apply_delete_lines_end_clamped() {
    let lines = v(&["a", "b", "c"]);
    let (out, removed, s, e) = apply_delete_lines(&lines, 2, 999);
    assert_eq!(out, v(&["a"]));
    assert_eq!(removed, 2);
    assert_eq!((s, e), (2, 3));
}
#[test]
fn test_apply_delete_lines_start_past_eof_removes_nothing() {
    let lines = v(&["a", "b"]);
    let (out, removed, _, _) = apply_delete_lines(&lines, 5, 9);
    assert_eq!(out, lines);
    assert_eq!(removed, 0);
}
#[test]
fn test_apply_delete_lines_all() {
    let lines = v(&["a", "b", "c"]);
    let (out, removed, _, _) = apply_delete_lines(&lines, 1, 3);
    assert!(out.is_empty());
    assert_eq!(removed, 3);
}

// ── diff_expected ─────────────────────────────────────────────────────────
#[test]
fn test_diff_expected_match() {
    let actual = v(&["  Set x = 1", "  Quit x"]);
    assert_eq!(diff_expected("  Set x = 1\n  Quit x", &actual), None);
}
#[test]
fn test_diff_expected_ignores_trailing_whitespace() {
    let actual = v(&["  Set x = 1   ", "  Quit x"]);
    assert_eq!(diff_expected("  Set x = 1\n  Quit x", &actual), None);
}
#[test]
fn test_diff_expected_ignores_trailing_blank_line() {
    let actual = v(&["a", "b"]);
    assert_eq!(diff_expected("a\nb\n", &actual), None);
}
#[test]
fn test_diff_expected_reports_first_divergence() {
    let actual = v(&["a", "X", "c"]);
    assert_eq!(diff_expected("a\nb\nc", &actual), Some((1, "b".to_string(), "X".to_string())));
}
#[test]
fn test_diff_expected_detects_length_mismatch() {
    let actual = v(&["a"]);
    assert_eq!(diff_expected("a\nb", &actual), Some((1, "b".to_string(), "".to_string())));
}

// ── http_err_json ─────────────────────────────────────────────────────────
#[test]
fn test_http_err_json_404_returns_not_found() {
    assert_eq!(http_err_json(404, "").error_code, "NOT_FOUND");
}
#[test]
fn test_http_err_json_401_returns_auth_error() {
    assert_eq!(http_err_json(401, "").error_code, "AUTH_ERROR");
}
#[test]
fn test_http_err_json_500_returns_server_error() {
    let e = http_err_json(500, "boom");
    assert_eq!(e.error_code, "SERVER_ERROR");
    assert!(e.error.contains("boom"));
}
#[test]
fn test_http_err_json_409_returns_conflict() {
    assert_eq!(http_err_json(409, "locked").error_code, "CONFLICT");
}
#[test]
fn test_http_err_json_400_returns_bad_request() {
    assert_eq!(http_err_json(400, "").error_code, "BAD_REQUEST");
}
#[test]
fn test_http_err_json_403_returns_auth_error() {
    let e = http_err_json(403, "forbidden");
    assert_eq!(e.error_code, "AUTH_ERROR");
    assert!(e.error.contains("forbidden"));
}
#[test]
fn test_http_err_json_423_returns_locked() {
    assert_eq!(http_err_json(423, "file locked").error_code, "LOCKED");
}
#[test]
fn test_http_err_json_unknown_status_returns_http_error() {
    assert_eq!(http_err_json(418, "teapot").error_code, "HTTP_ERROR");
}
#[test]
fn test_http_err_json_empty_hint_omits_colon() {
    let e = http_err_json(404, "");
    assert!(!e.error.contains(": "));
    assert_eq!(e.error, "HTTP 404 Not Found");
}
#[test]
fn test_http_err_json_with_hint_includes_colon() {
    assert!(http_err_json(404, "gone away").error.contains(": gone away"));
}

// ── require_name ──────────────────────────────────────────────────────────
#[test]
fn test_require_name_missing_is_error() {
    let e = require_name(None, "get").unwrap_err();
    assert_eq!(e.error_code, "MISSING_PARAMS");
}
#[test]
fn test_require_name_blank_is_error() {
    let e = require_name(Some("   "), "head").unwrap_err();
    assert_eq!(e.error_code, "MISSING_PARAMS");
    assert!(e.error.contains("head"), "message names the mode: {}", e.error);
}
#[test]
fn test_require_name_present_trims_and_returns() {
    assert_eq!(require_name(Some("  Foo.cls  "), "get").unwrap(), "Foo.cls");
}

// ── line-level edits ──────────────────────────────────────────────────────
#[test]
fn delete_lines_removes_exactly_the_matching_block() {
    let mut p = params("delete_lines");
    p.name = Some("Foo.mac".to_string());
    p.start = Some(2);
    p.end = Some(3);
    p.expected = Some("b\nc\n".to_string());
    let req = plan_delete_lines(&p).unwrap();
    let (content, removed, s, e) = edit_delete_lines(&req, &v(&["a", "b", "c", "d"])).unwrap();
    assert_eq!(content, "a\nd");
    assert_eq!((removed, s, e), (2, 2, 3));
}

#[test]
fn delete_lines_refuses_stale_block() {
    let mut p = params("delete_lines");
    p.name = Some("Foo.mac".to_string());
    p.start = Some(2);
    p.end = Some(3);
    p.expected = Some("b\nX".to_string());
    let req = plan_delete_lines(&p).unwrap();
    match edit_delete_lines(&req, &v(&["a", "b", "c", "d"])) {
        Err(EditError::Stale { line, expected_line, actual_line }) => {
            assert_eq!(line, 3);
            assert_eq!(expected_line, "X");
            assert_eq!(actual_line, "c");
        }
        _ => panic!("stale block must be refused"),
    }
}

#[test]
fn delete_lines_checks_in_order() {
    let mut p = params("delete_lines");
    assert_eq!(plan_delete_lines(&p).err().unwrap().error, "name is required for mode=delete_lines");
    p.name = Some("F.mac".to_string());
    assert_eq!(plan_delete_lines(&p).err().unwrap().error, "start is required for mode=delete_lines");
    p.start = Some(4);
    p.end = Some(2);
    assert_eq!(plan_delete_lines(&p).err().unwrap().error, "start (4) must be <= end (2)");
    p.end = Some(9);
    assert_eq!(plan_delete_lines(&p).err().unwrap().error_code, "MISSING_PARAMS");
    p.expected = Some("x".to_string());
    let req = plan_delete_lines(&p).unwrap();
    match edit_delete_lines(&req, &v(&["a"])) {
        Err(EditError::Failed(e)) => assert_eq!(e.error, "range 4-9 is outside the document (has 1 lines)"),
        _ => panic!("range outside"),
    }
}

#[test]
fn insert_appends_without_expected_and_guards_positional() {
    let mut p = params("insert");
    p.name = Some("F.mac".to_string());
    p.content = Some("X\nY".to_string());
    let req = plan_insert(&p).unwrap();
    let (content, at, added) = edit_insert(&req, &v(&["a", "b"])).unwrap();
    assert_eq!(content, "a\nb\nX\nY");
    assert_eq!((at, added), (3, 2));
    p.line = Some(1);
    assert_eq!(plan_insert(&p).err().unwrap().error_code, "MISSING_PARAMS");
    p.expected = Some("zzz".to_string());
    let req = plan_insert(&p).unwrap();
    match edit_insert(&req, &v(&["a", "b"])) {
        Err(EditError::Stale { line, .. }) => assert_eq!(line, 1),
        _ => panic!("positional insert against the wrong line"),
    }
    p.expected = Some("a".to_string());
    let req = plan_insert(&p).unwrap();
    let (content, at, _) = edit_insert(&req, &v(&["a", "b"])).unwrap();
    assert_eq!(content, "X\nY\na\nb");
    assert_eq!(at, 1);
}

// ── writes ────────────────────────────────────────────────────────────────
#[test]
fn put_injects_routine_headers() {
    assert_eq!(put_content("Util.mac", " set x=1"), "ROUTINE Util\n set x=1");
    assert_eq!(put_content("Defs.INC", "#define X 1"), "ROUTINE Defs [Type=INC]\n#define X 1");
    assert_eq!(put_content("Util.mac", "  routine Util\n"), "  routine Util\n");
    assert_eq!(put_content("A.cls", "Class A {}"), "Class A {}");
}

#[test]
fn scm_gate_outcomes() {
    let mut store = ElicitationStore::new();
    assert!(matches!(scm_write_gate(Ok("NO_SCM".to_string()), "A.cls", "c", "USER", &mut store), WriteGate::Proceed));
    assert!(matches!(scm_write_gate(Err("down".to_string()), "A.cls", "c", "USER", &mut store), WriteGate::Proceed));
    match scm_write_gate(Ok("6|nope".to_string()), "A.cls", "c", "USER", &mut store) {
        WriteGate::Rejected(e) => assert_eq!(e.error, "Source control rejected: nope"),
        _ => panic!("code 6 rejects"),
    }
    match scm_write_gate(Ok(" 1| ".to_string()), "A.cls", "body", "USER", &mut store) {
        WriteGate::Confirm { elicitation_id, message } => {
            assert_eq!(message, "A.cls requires checkout. Check out and write?");
            assert_eq!(elicitation_id.len(), 36);
            match doc_resume_begin(&elicitation_id, "YES", &mut store, "u", "p") {
                DocResume::Finalize { document, content, namespace, .. } => {
                    assert_eq!(document, "A.cls");
                    assert_eq!(content, "body");
                    assert_eq!(namespace, "USER");
                }
                _ => panic!("yes finalizes"),
            }
            assert!(!store.contains(&elicitation_id));
        }
        _ => panic!("code 1 confirms"),
    }
}

#[test]
fn upload_plan_refuses_blank_name_and_encodes_path() {
    assert_eq!(plan_upload("  ", "x", "USER").err().unwrap().error_code, "MISSING_PARAMS");
    let u = plan_upload("My App.cls", "a\nb", "USER").unwrap();
    assert_eq!(u.path, "/doc/My%20App.cls?ignoreConflict=1");
    assert_eq!(u.lines, v(&["a", "b"]));
    assert_eq!(u.open_uri, "isfs://USER/My App.cls");
    assert!(!u.storage_stripped);
}

#[test]
fn compile_report_merges_console_errors_once() {
    let r = compile_report(CompileAnswer::Answered {
        status: 200,
        hint: String::new(),
        console: v(&["Compiling A.cls", "  ERROR #5659: bad", "ERROR #1: other"]),
        status_errors: vec![Some("ERROR #5659: bad".to_string()), None],
    })
    .unwrap();
    assert!(!r.ok);
    assert_eq!(r.errors, v(&["ERROR #5659: bad", "ERROR #1: other"]));
    let e = compile_report(CompileAnswer::Answered { status: 400, hint: " busy ".to_string(), console: vec![], status_errors: vec![] }).err().unwrap();
    assert_eq!(e.error, "Compile request failed: HTTP 400 Bad Request busy");
}

#[test]
fn batch_helpers() {
    assert_eq!(batch_read_order(&v(&["a", "b", "a", "c", "b"])), v(&["a", "b", "c"]));
    let d = batch_delete(&vec![
        ("A".to_string(), BatchAnswer::Answered { status: 200, errors: None }),
        ("B".to_string(), BatchAnswer::Answered { status: 200, errors: Some(vec![None]) }),
        ("C".to_string(), BatchAnswer::NotSent("refused".to_string())),
    ]);
    assert_eq!(d.deleted, v(&["A"]));
    assert_eq!(d.errors, vec![("B".to_string(), "delete failed".to_string()), ("C".to_string(), "refused".to_string())]);
}

#[test]
fn fragment_and_compiled_modes() {
    let mut p = params("fragment");
    p.name = Some(" F.mac ".to_string());
    p.start = Some(-3);
    p.end = Some(2);
    let f = plan_fragment(&p).unwrap();
    assert_eq!((f.name.as_str(), f.start, f.end), ("F.mac", 1, 2));
    let mut c = params("compiled");
    c.name = Some("My.Inc.INC".to_string());
    assert_eq!(plan_compiled(&c).err().unwrap().error_code, "NOT_COMPILED");
    c.name = Some("My.Cls.cls".to_string());
    c.compiled_type = Some("obj".to_string());
    assert_eq!(plan_compiled(&c).err().unwrap().error, "compiled_type 'obj' not supported; only 'INT' is supported in v1");
    c.compiled_type = Some("int".to_string());
    assert_eq!(plan_compiled(&c).unwrap().routine, "My.Cls.1");
    assert_eq!(compiled_content("X", Ok("l1\nl2\n DONE \nnoise".to_string())).unwrap(), ("l1\nl2".to_string(), 2));
    assert_eq!(compiled_content("X", Ok("NOT_COMPILED\n".to_string())).err().unwrap().error, "No compiled INT form found for 'X'");
}

#[test]
fn list_mode_filters_and_truncates() {
    let mut p = params("list");
    p.pattern = Some("*".to_string());
    assert_eq!(plan_list(&p).err().unwrap().error_code, "MISSING_PARAMS");
    p.pattern = Some("App.*".to_string());
    p.category = Some("xyz".to_string());
    assert_eq!(plan_list(&p).err().unwrap().error, "category 'XYZ' not valid; use CLS, MAC, INT, INC, or ALL");
    p.category = None;
    p.max_results = Some(1);
    let req = plan_list(&p).unwrap();
    assert_eq!(req.categories, v(&["CLS", "MAC", "INT", "INC"]));
    let entry = |n: Option<&str>| DocNameEntry { name: n.map(|s| s.to_string()), cat: None, ts: None };
    let (docs, truncated) = list_documents(&req, vec![entry(Some("app.A.cls")), entry(None), entry(Some("Other.cls")), entry(Some("App.B.cls"))]);
    assert_eq!(docs.len(), 1);
    assert_eq!(docs[0].name.as_deref(), Some("app.A.cls"));
    assert!(truncated);
}

#[test]
fn execute_method_guard_and_result() {
    assert_eq!(execute_method_code("A;B", "M", &[]).err().unwrap().error_code, "INVALID_PARAMS");
    assert_eq!(
        execute_method_code("My.Class", "Run", &v(&["a\"b", "c"])).unwrap(),
        " Set result = ##class(My.Class).Run(\"a\"\"b\",\"c\")\n Write result,$C(10)"
    );
    assert_eq!(execute_method_code("C", "M", &[]).unwrap(), " Set result = ##class(C).M()\n Write result,$C(10)");
    assert_eq!(execute_method_result(Ok(" ERROR: <UNDEFINED> x ".to_string())).err().unwrap().error, "<UNDEFINED> x");
    assert_eq!(execute_method_result(Ok("42\nside effect".to_string())).unwrap(), "42");
}

#[test]
fn numeric_arguments_sent_as_strings() {
    assert_eq!(lenient_i64("214"), Ok(Some(214)));
    assert_eq!(lenient_i64("  -7 "), Ok(Some(-7)));
    assert_eq!(lenient_i64("+12"), Ok(Some(12)));
    assert_eq!(lenient_i64(""), Ok(None));
    assert_eq!(lenient_i64("   "), Ok(None));
    assert_eq!(lenient_i64("-9223372036854775808"), Ok(Some(i64::MIN)));
    assert_eq!(lenient_i64("9223372036854775807"), Ok(Some(i64::MAX)));
    assert_eq!(lenient_i64("9223372036854775808"), Err("expected an integer, got string \"9223372036854775808\"".to_string()));
    assert_eq!(lenient_i64("-+3"), Err("expected an integer, got string \"-+3\"".to_string()));
    assert_eq!(lenient_i64("12.5"), Err("expected an integer, got string \"12.5\"".to_string()));
    assert_eq!(lenient_i64(" ten "), Err("expected an integer, got string \" ten \"".to_string()));
}

#[test]
fn insert_reads_back_and_delete_undoes_it() {
    let doc = v(&["a", "b", "c"]);
    let block = v(&["x", "y"]);
    let (ins, at) = apply_insert(&doc, 2, &block);
    assert_eq!(ins, v(&["a", "x", "y", "b", "c"]));
    assert_eq!(at, 2);
    let (read, s, e, clamped) = slice_lines(&ins, at, at + 1);
    assert_eq!((read, s, e, clamped), (block.clone(), 2, 3, false));
    let (out, removed, s, e) = apply_delete_lines(&ins, at, at + 1);
    assert_eq!((out, removed, s, e), (doc.clone(), 2, 2, 3));
    let (ins, at) = apply_insert(&doc, 99, &block);
    assert_eq!(at, 4);
    let (out, removed, _, _) = apply_delete_lines(&ins, at, at + 1);
    assert_eq!((out, removed), (doc, 2));
}

#[test]
fn write_check_snippet_escapes_quotes() {
    let (u, p, n) = ("_SYSTEM", "p\"w", "My.\"Odd\".cls");
    let expected = format!(
        "set scmClass=##class(%Studio.SourceControl.Interface).SourceControlClassGet() if scmClass=\"\" {{ write \"NO_SCM\" }} else {{ set sc=##class(%Studio.SourceControl.Interface).SourceControlCreate(\"{u}\",\"{p}\",.c,.f,.o) set obj=$get(%SourceControl) if '$IsObject(obj) {{ write \"NO_SCM\" }} else {{ set action=0 set msg=\"\" set target=\"\" set reload=0 set sc=obj.UserAction(0,\"%SourceMenu,%CheckOut\",\"{n}\",\"\",.action,.target,.msg,.reload) write action_\"|\"_msg }} }}",
        u = u.replace('"', "\"\""),
        p = p.replace('"', "\"\""),
        n = n.replace('"', "\"\""),
    );
    assert_eq!(write_check_code(u, p, n), expected);
}

#[test]
fn status_errors_of_reads_and_deletes() {
    assert_eq!(default_mode(), "get");
    let e = read_status_error("A.cls", 404, "x").unwrap();
    assert_eq!((e.error_code.as_str(), e.error.as_str()), ("NOT_FOUND", "Document not found: A.cls"));
    let e = read_status_error("A.cls", 500, "  boom \n").unwrap();
    assert_eq!((e.error_code.as_str(), e.error.as_str()), ("SERVER_ERROR", "HTTP 500 Internal Server Error: boom"));
    assert!(read_status_error("A.cls", 200, "").is_none());
    let e = delete_status_error("A.cls", 200, "", &Some(vec![Some("ERROR #5001".to_string())])).unwrap();
    assert_eq!((e.error_code.as_str(), e.error.as_str()), ("DELETE_FAILED", "ERROR #5001"));
    let e = delete_status_error("A.cls", 200, "", &Some(vec![None])).unwrap();
    assert_eq!(e.error, "Document delete failed");
    assert!(delete_status_error("A.cls", 200, "", &Some(vec![])).is_none());
    assert!(delete_status_error("A.cls", 204, "", &None).is_none());
    let e = delete_status_error("A.cls", 423, "", &None).unwrap();
    assert_eq!((e.error_code.as_str(), e.error.as_str()), ("LOCKED", "HTTP 423 Locked"));
}

#[test]
fn mode_and_fetch_errors() {
    let e = invalid_mode_error("zap");
    assert_eq!(e.error_code, "INVALID_PARAMS");
    assert_eq!(e.error, "unknown mode \"zap\". Valid: get, put, delete, head, fragment, compiled, list, insert, delete_lines.");
    let e = docnames_fetch_error("CLS", "timeout");
    assert_eq!((e.error_code.as_str(), e.error.as_str()), ("SERVER_ERROR", "failed to fetch CLS docnames: timeout"));
    let e = checkout_commit_error(Ok("  checkout refused \nmore".to_string())).unwrap();
    assert_eq!((e.error_code.as_str(), e.error.as_str()), ("SCM_CHECKOUT_FAILED", "checkout refused"));
    assert!(checkout_commit_error(Ok("\n".to_string())).is_none());
    assert!(checkout_commit_error(Err("down".to_string())).is_none());
}

#[test]
fn fragment_of_a_document() {
    let req = FragmentRequest { name: "A.cls".to_string(), start: 2, end: 9 };
    let (ls, s, e, clamped, total) = fragment_lines(&req, &v(&["a", "b", "c"]));
    assert_eq!((ls, s, e, clamped, total), (v(&["b", "c"]), 2, 3, true, 3));
}

/// The `result.content` of an Atelier answer, as the library takes it.
fn content_of(body: &str) -> Option<Vec<Option<String>>> {
    let v: serde_json::Value = serde_json::from_str(body).unwrap();
    v["result"]["content"].as_array().map(|a| a.iter().map(|e| e.as_str().map(String::from)).collect())
}

#[test]
fn test_doc_content_to_string_flat_array() {
    let s = doc_content_to_string(&content_of(r#"{"result": {"content": ["Class Foo", "{", "}", ""]}}"#));
    assert!(s.contains("Class Foo"));
    assert!(s.contains("{"));
}

#[test]
fn test_doc_content_to_string_empty_array() {
    let s = doc_content_to_string(&content_of(r#"{"result": {"content": []}}"#));
    assert_eq!(s, "");
}

#[test]
fn test_doc_content_to_string_missing_result() {
    let s = doc_content_to_string(&content_of(r#"{}"#));
    assert_eq!(s, "");
}

#[test]
fn test_doc_content_to_string_skips_non_string_elements() {
    let s = doc_content_to_string(&content_of(r#"{"result": {"content": ["line one", 42, null, "line two"]}}"#));
    assert!(s.contains("line one"));
    assert!(s.contains("line two"));
    assert!(!s.contains("42"));
}

#[test]
fn test_doc_content_to_string_mixed_types() {
    let s = doc_content_to_string(&content_of(r#"{"result": {"content": ["line1", 123, "line2", null, "line3"]}}"#));
    assert!(s.contains("line1"));
    assert!(s.contains("line2"));
    assert!(s.contains("line3"));
    assert_eq!(s.lines().count(), 3);
}

#[test]
fn test_doc_content_to_string_all_non_strings() {
    let s = doc_content_to_string(&content_of(r#"{"result": {"content": [123, null, true]}}"#));
    assert_eq!(s, "");
}

#[test]
fn test_doc_content_to_string_single_line() {
    let s = doc_content_to_string(&content_of(r#"{"result": {"content": ["single line"]}}"#));
    assert_eq!(s, "single line");
}

#[test]
fn test_doc_content_to_string_with_empty_strings() {
    let s = doc_content_to_string(&content_of(r#"{"result": {"content": ["line1", "", "line2"]}}"#));
    assert!(s.contains("line1"));
    assert!(s.contains("line2"));
    let parts: Vec<&str> = s.split('\n').collect();
    assert_eq!(parts.len(), 3);
}

#[test]
fn test_doc_content_to_string_special_chars() {
    let s = doc_content_to_string(&content_of(r#"{"result": {"content": ["Class Foo {", "  Property X;", "}"]}}"#));
    assert!(s.contains("Class Foo {"));
    assert!(s.contains("Property X"));
    assert!(s.contains("}"));
}

#[test]
fn doc_content_joins_exactly() {
    assert_eq!(doc_content_to_string(&Some(vec![Some("a".to_string()), None, Some("".to_string()), Some("b".to_string())])), "a\n\nb");
    assert_eq!(doc_content_to_string(&None), "");
}

#[test]
fn test_glob_to_regex_case_insensitive() {
    let re_str = glob_to_regex("User.*");
    let re = regex::Regex::new(&re_str).unwrap();
    assert!(re.is_match("USER.Foo"));
    assert!(re.is_match("user.bar"));
    assert!(re.is_match("User.Test"));
}

#[test]
fn test_glob_to_regex_multiple_wildcards() {
    let re_str = glob_to_regex("App.*.Sub.*");
    let re = regex::Regex::new(&re_str).unwrap();
    assert!(re.is_match("App.Module.Sub.Class.cls"));
    assert!(re.is_match("App.X.Sub.Y"));
}

#[test]
fn test_glob_to_regex_all_wildcards() {
    let re_str = glob_to_regex("*.*");
    let re = regex::Regex::new(&re_str).unwrap();
    assert!(re.is_match("Anything.AtAll"));
    assert!(re.is_match("X.Y"));
}

#[test]
fn test_glob_to_regex_dot_escaping() {
    let re_str = glob_to_regex("File.mac");
    let re = regex::Regex::new(&re_str).unwrap();
    assert!(re.is_match("File.mac"));
    assert!(!re.is_match("FilXmac"));
}

#[test]
fn storage_block_whose_brace_opens_on_the_next_line_is_removed() {
    let cls = "Class Foo {\nStorage Default\n{\n<Type>T</Type>\n}\n}";
    assert_eq!(strip_storage_blocks(cls), ("Class Foo {\n}\n".to_string(), true));
    let cls = "Class Foo {\nStorage Default\n\n  {\n<Data>\n{x}\n</Data>\n  }\nMethod M() {}\n}";
    assert_eq!(strip_storage_blocks(cls), ("Class Foo {\nMethod M() {}\n}\n".to_string(), true));
    let cls = "Class Foo {\nStorage Default\nMethod M() {}\n}";
    assert_eq!(strip_storage_blocks(cls), ("Class Foo {\nMethod M() {}\n}\n".to_string(), true));
}

#[test]
fn write_dialog_answers_at_a_time() {
    let mut store = ElicitationStore::new();
    let eid = store.insert_at("A.cls", ElicitationAction::Put, Some("body".to_string()), None, "APP", 0);
    match doc_resume_begin_at(&eid, "No", &mut store, "u", "p", 10) {
        DocResume::Declined(e) => {
            assert_eq!((e.error_code.as_str(), e.error.as_str()), ("WRITE_ABORTED", "User declined checkout"));
        }
        _ => panic!("a live dialog answered no is declined"),
    }
    assert!(!store.contains(&eid));
    let eid = store.insert_at("A.cls", ElicitationAction::Put, Some("body".to_string()), None, "APP", 0);
    match doc_resume_begin_at(&eid, "Yes", &mut store, "u", "p", EXPIRY_NANOS) {
        DocResume::Finalize { document, namespace, content, .. } => {
            assert_eq!((document.as_str(), namespace.as_str(), content.as_str()), ("A.cls", "APP", "body"));
        }
        _ => panic!("a live dialog answered yes is written"),
    }
    let eid = store.insert_at("A.cls", ElicitationAction::Put, Some("body".to_string()), None, "APP", 0);
    match doc_resume_begin_at(&eid, "yes", &mut store, "u", "p", EXPIRY_NANOS + 1) {
        DocResume::Expired(e) => assert_eq!(e.error_code, "ELICITATION_EXPIRED"),
        _ => panic!("an expired dialog is not written"),
    }
    assert!(!store.contains(&eid));
}

// ── laws on concrete values ───────────────────────────────────────────────
#[test]
fn stripping_storage_twice_changes_nothing_more() {
    let content = "Class Foo {\nStorage Default\n{\n<Type>T</Type>\n}\nProperty P;\n}";
    let (once, found) = strip_storage_blocks(content);
    assert!(found);
    let (twice, found_again) = strip_storage_blocks(&once);
    assert_eq!(twice, once);
    assert!(!found_again);
}

#[test]
fn lines_compared_with_their_own_joined_text_show_no_difference() {
    let actual = v(&["Class A {", "", "  Property P;", "}"]);
    let joined = actual.join("\n");
    assert_eq!(diff_expected(&joined, &actual), None);
    assert_eq!(diff_expected(&(joined + "\n"), &actual), None);
}

#[test]
fn inserting_deleted_lines_back_restores_the_document() {
    let lines = v(&["a", "b", "c", "d", "e"]);
    let (rest, _, _, _) = apply_delete_lines(&lines, 2, 4);
    assert_eq!(rest, v(&["a", "e"]));
    let (back, at) = apply_insert(&rest, 2, &lines[1..4]);
    assert_eq!(back, lines);
    assert_eq!(at, 2);
}

#[test]
fn batch_read_builds_one_entry_per_finished_fetch() {
    let names = v(&["A.cls", "B.cls", "A.cls", "C.cls", "D.cls"]);
    let finished = vec![
        ("B.cls".to_string(), BatchRead::Answered { status: 404, content: None }),
        (
            "D.cls".to_string(),
            BatchRead::Answered {
                status: 200,
                content: Some(vec![Some("Class D".to_string()), None, Some("{}".to_string())]),
            },
        ),
        ("A.cls".to_string(), BatchRead::Answered { status: 200, content: None }),
        ("A.cls".to_string(), BatchRead::NotSent("timed out".to_string())),
    ];
    assert_eq!(
        batch_read_entries(&names, &finished),
        vec![
            ("A.cls".to_string(), Err("timed out".to_string())),
            ("B.cls".to_string(), Err("HTTP 404 Not Found".to_string())),
            ("D.cls".to_string(), Ok("Class D\n{}".to_string())),
        ]
    );
}
