use iris_agentic_dev_core::tools::symbols_local::{
    extract_cls_symbols, extract_routine_symbols, file_stem, glob_match, scan_workspace,
    source_kind, FileRead, ParseWarning, ScannedFile, SourceKind, Symbol,
};

// ── glob_match (module tests) ─────────────────────────────────────────────
#[test]
fn glob_exact_match() {
    assert!(glob_match("MyApp.Foo", "MyApp.Foo"));
}
#[test]
fn glob_no_match_without_wildcard() {
    assert!(!glob_match("Foo", "MyApp.Foo"));
}
#[test]
fn glob_package_wildcard() {
    assert!(glob_match("MyApp.*", "MyApp.Foo"));
    assert!(glob_match("MyApp.*", "MyApp.Bar"));
    assert!(!glob_match("MyApp.*", "OtherApp.Foo"));
}
#[test]
fn glob_suffix_wildcard() {
    assert!(glob_match("*Service", "OrderService"));
    assert!(!glob_match("*Service", "OrderUtil"));
}
#[test]
fn glob_mid_wildcard() {
    assert!(glob_match("MyApp.*.Base", "MyApp.Sub.Base"));
    assert!(!glob_match("MyApp.*.Base", "MyApp.Sub.Other"));
}
#[test]
fn glob_empty_query_never_matches() {
    assert!(!glob_match("", "anything"));
    assert!(!glob_match("", ""));
}

// ── glob_match (integration tests) ────────────────────────────────────────
#[test]
fn glob_exact() {
    assert!(glob_match("MyApp.Foo", "MyApp.Foo"));
}
#[test]
fn glob_no_implicit_substring() {
    assert!(!glob_match("Foo", "MyApp.Foo"));
}
#[test]
fn glob_package_prefix() {
    assert!(glob_match("MyApp.*", "MyApp.Foo"));
    assert!(glob_match("MyApp.*", "MyApp.Bar"));
    assert!(!glob_match("MyApp.*", "OtherApp.Foo"));
}
#[test]
fn glob_suffix() {
    assert!(glob_match("*Service", "OrderService"));
    assert!(!glob_match("*Service", "OrderUtil"));
}
#[test]
fn glob_mid() {
    assert!(glob_match("MyApp.*.Base", "MyApp.Sub.Base"));
    assert!(!glob_match("MyApp.*.Base", "MyApp.Sub.Other"));
}
#[test]
fn glob_empty_never_matches() {
    assert!(!glob_match("", "anything"));
    assert!(!glob_match("", ""));
}
#[test]
fn glob_package_scan_match() {
    assert!(glob_match("MyApp.*", "MyApp.Foo"));
    assert!(glob_match("MyApp.*", "MyApp.Bar"));
    assert!(!glob_match("MyApp.*", "OtherApp.Foo"));
}
#[test]
fn glob_consecutive_wildcards() {
    assert!(glob_match("A**B", "AxxxB"));
    assert!(glob_match("A**B", "AB"));
}
#[test]
fn glob_leading_wildcard_no_prefix_needed() {
    assert!(glob_match("*Suffix", "AnySuffix"));
    assert!(glob_match("*Suffix", "Suffix"));
}
#[test]
fn glob_trailing_wildcard_no_suffix_needed() {
    assert!(glob_match("Prefix*", "PrefixAny"));
    assert!(glob_match("Prefix*", "Prefix"));
}
#[test]
fn glob_only_wildcard() {
    assert!(glob_match("*", "anything"));
    assert!(glob_match("*", "x"));
}
#[test]
fn glob_mid_segment_found_advances_pos() {
    assert!(glob_match("A*B*C", "AxBxC"));
    assert!(glob_match("A*B*C", "AxxBxxC"));
    assert!(!glob_match("A*B*C", "AxCxB"));
}
#[test]
fn glob_suffix_with_earlier_match() {
    assert!(!glob_match("*XYZ", "MyXYZClass"));
    assert!(glob_match("*XYZ", "MyXYZClassXYZ"));
}
#[test]
fn glob_single_char_segments() {
    assert!(glob_match("A*B", "AxxxB"));
    assert!(glob_match("A*B", "AB"));
    assert!(!glob_match("A*B", "AxC"));
}

// ── workspace files ───────────────────────────────────────────────────────
// The sources below stand for the files of a small workspace: a valid class,
// a broken class, a second definition of the same class, a routine with two
// labels and an include file with two macros.
const FOO_CLS: &str = "Class MyApp.Foo Extends %RegisteredObject\n{\n\nParameter VERSION = \"1.0\";\n\nProperty Value As %String;\n\nMethod DoSomething(pInput As %String, pCount As %Integer = 1) As %Status\n{\n    Quit $$$OK\n}\n\n}\n";
const BROKEN_CLS: &str = "Class MyApp.Broken Extends %RegisteredObject\n{\n\nMethod Oops(\n{\n    Quit\n\n";
const DUPE_CLS: &str = "Class MyApp.Foo Extends %RegisteredObject\n{\n}\n";
const UTILS_MAC: &str = "Start\n    Write \"start\",!\n    Quit\nHelper(x)\n    Quit x+1\n";
const MACROS_INC: &str = "#define MaxItems 100\n#define Twice(%x) ((%x)*2)\n";

fn file(rel: &str, read: FileRead) -> ScannedFile {
    let name = rel.rsplit('/').next().unwrap().to_string();
    ScannedFile { rel_path: rel.to_string(), file_name: name, read }
}

fn text(src: &str) -> FileRead {
    FileRead::Contents(src.as_bytes().to_vec())
}

/// The workspace, in scan order (each directory's entries sorted).
fn fixtures() -> Vec<ScannedFile> {
    vec![
        file("Dupe/Foo.cls", text(DUPE_CLS)),
        file("Macros.inc", text(MACROS_INC)),
        file("MyApp/Broken.cls", text(BROKEN_CLS)),
        file("MyApp/Foo.cls", text(FOO_CLS)),
        file("README.md", text("# notes\n")),
        file("Utils.mac", text(UTILS_MAC)),
    ]
}

fn names(symbols: &[Symbol]) -> Vec<&str> {
    symbols.iter().map(|s| s.name.as_str()).collect()
}

#[test]
fn extract_cls_foo() {
    let (symbols, warnings) = extract_cls_symbols(FOO_CLS.as_bytes(), "MyApp/Foo.cls", "MyApp.Foo");
    let parse_errors: Vec<&ParseWarning> = warnings.iter().filter(|w| w.warning_type == "PARSE_ERROR").collect();
    assert!(parse_errors.is_empty(), "Unexpected parse errors: {:?}", parse_errors);
    let names = names(&symbols);
    assert!(names.contains(&"MyApp.Foo"), "class symbol missing; got {:?}", names);
    let has_method = symbols.iter().any(|s| s.name == "MyApp.Foo.DoSomething" && s.kind == "method");
    assert!(has_method, "DoSomething method not found; got {:?}", names);
    let method = symbols.iter().find(|s| s.name == "MyApp.Foo.DoSomething").unwrap();
    assert!(method.formal_spec.as_ref().map(|f| !f.is_empty()).unwrap_or(false), "FormalSpec should be non-empty");
    let has_property = symbols.iter().any(|s| s.name == "MyApp.Foo.Value" && s.kind == "property");
    assert!(has_property, "Value property not found; got {:?}", names);
    let has_param = symbols.iter().any(|s| s.name == "MyApp.Foo.VERSION" && s.kind == "parameter");
    assert!(has_param, "VERSION parameter not found; got {:?}", names);
}

#[test]
fn extract_cls_foo_in_source_order() {
    let (symbols, warnings) = extract_cls_symbols(FOO_CLS.as_bytes(), "MyApp/Foo.cls", "MyApp.*");
    assert!(warnings.is_empty());
    assert_eq!(names(&symbols), vec!["MyApp.Foo", "MyApp.Foo.VERSION", "MyApp.Foo.Value", "MyApp.Foo.DoSomething"]);
    let kinds: Vec<&str> = symbols.iter().map(|s| s.kind.as_str()).collect();
    assert_eq!(kinds, vec!["class", "parameter", "property", "method"]);
    assert!(symbols.iter().all(|s| s.file == "MyApp/Foo.cls" && s.type_label.is_none()));
    assert_eq!(symbols[3].formal_spec.as_deref(), Some("pInput As %String, pCount As %Integer = 1"));
    assert!(symbols[0].formal_spec.is_none());
}

#[test]
fn extract_cls_query_not_matching_gives_nothing() {
    let (symbols, warnings) = extract_cls_symbols(FOO_CLS.as_bytes(), "MyApp/Foo.cls", "Other.*");
    assert!(symbols.is_empty());
    assert!(warnings.is_empty());
    let (symbols, _) = extract_cls_symbols(FOO_CLS.as_bytes(), "MyApp/Foo.cls", "");
    assert!(symbols.is_empty());
}

#[test]
fn scan_workspace_exact_query() {
    let result = scan_workspace(fixtures(), "MyApp.Foo", 50);
    let has_class = result.symbols.iter().any(|s| s.name == "MyApp.Foo" && s.kind == "class");
    assert!(has_class, "class symbol not found: {:?}", names(&result.symbols));
    assert!(result.symbols.len() >= 3, "expected at least 3 symbols, got {}", result.symbols.len());
    let foo_errors: Vec<&ParseWarning> = result
        .parse_warnings
        .iter()
        .filter(|w| {
            w.warning_type == "PARSE_ERROR"
                && w.file.as_deref().map(|f| f.contains("Foo.cls")).unwrap_or(false)
                && !w.file.as_deref().map(|f| f.contains("Broken") || f.contains("Dupe")).unwrap_or(false)
        })
        .collect();
    assert!(foo_errors.is_empty(), "Unexpected PARSE_ERROR for Foo.cls: {:?}", foo_errors);
}

#[test]
fn scan_workspace_wildcard_detects_duplicate() {
    let result = scan_workspace(fixtures(), "MyApp.*", 200);
    let has_duplicate = result
        .parse_warnings
        .iter()
        .any(|w| w.warning_type == "DUPLICATE_CLASS" && w.class.as_deref() == Some("MyApp.Foo"));
    assert!(has_duplicate, "Expected DUPLICATE_CLASS for MyApp.Foo; warnings: {:?}", result.parse_warnings);
    assert!(result.symbols.iter().any(|s| s.name == "MyApp.Foo"), "MyApp.Foo class symbol should still appear despite duplicate");
}

#[test]
fn extract_broken_cls_no_panic() {
    let (symbols, warnings) = extract_cls_symbols(BROKEN_CLS.as_bytes(), "MyApp/Broken.cls", "MyApp.Broken");
    let has_error = warnings.iter().any(|w| w.warning_type == "PARSE_ERROR");
    assert!(has_error, "Expected PARSE_ERROR warning for Broken.cls; got {:?}", warnings);
    let _ = symbols;
}

#[test]
fn scan_includes_errors_and_valid_symbols() {
    let result = scan_workspace(fixtures(), "MyApp.*", 200);
    let has_broken_error = result.parse_warnings.iter().any(|w| {
        w.warning_type == "PARSE_ERROR" && w.file.as_deref().map(|f| f.contains("Broken")).unwrap_or(false)
    });
    assert!(has_broken_error, "Expected PARSE_ERROR for Broken.cls; warnings: {:?}", result.parse_warnings);
    assert!(result.symbols.iter().any(|s| s.name == "MyApp.Foo"), "MyApp.Foo should still be returned despite Broken.cls parse error");
    assert!(result.symbols.len() > 0, "count should be > 0");
}

#[test]
fn sc004_parse_error_no_error_response() {
    let result = scan_workspace(fixtures(), "MyApp.*", 200);
    assert!(
        result.parse_warnings.iter().any(|w| w.warning_type == "PARSE_ERROR") || !result.symbols.is_empty(),
        "result must be non-erroring (either has warnings or has symbols)"
    );
}

#[test]
fn extract_routine_utils_mac() {
    let (symbols, _warnings) = extract_routine_symbols(UTILS_MAC.as_bytes(), "Utils.mac", "Utils");
    let names = names(&symbols);
    let has_start = symbols.iter().any(|s| s.name == "Utils:Start" && s.kind == "label");
    let has_helper = symbols.iter().any(|s| s.name == "Utils:Helper" && s.kind == "label");
    assert!(has_start, "Utils:Start label not found; got {:?}", names);
    assert!(has_helper, "Utils:Helper label not found; got {:?}", names);
}

#[test]
fn extract_routine_names_the_stem_of_the_path() {
    let (symbols, _) = extract_routine_symbols(UTILS_MAC.as_bytes(), "lib/Utils.mac", "Utils");
    assert_eq!(names(&symbols), vec!["Utils:Start", "Utils:Helper"]);
    assert!(symbols.iter().all(|s| s.file == "lib/Utils.mac"));
    let (symbols, _) = extract_routine_symbols(UTILS_MAC.as_bytes(), "lib/Utils.mac", "Utils.mac");
    assert!(symbols.is_empty());
}

#[test]
fn extract_routine_macros_inc() {
    let (symbols, _warnings) = extract_routine_symbols(MACROS_INC.as_bytes(), "Macros.inc", "Macros");
    let macro_count = symbols.iter().filter(|s| s.kind == "macro").count();
    assert!(macro_count >= 2, "Expected at least 2 macro symbols; got {:?}", names(&symbols));
}

#[test]
fn scan_workspace_routine_query() {
    let result = scan_workspace(fixtures(), "Utils", 50);
    let has_label = result.symbols.iter().any(|s| s.kind == "label" && s.name.starts_with("Utils:"));
    assert!(has_label, "Expected routine label symbols for Utils; got {:?}", names(&result.symbols));
}

#[test]
fn sc005_no_iris_contact() {
    let result = scan_workspace(fixtures(), "MyApp.Foo", 10);
    assert!(!result.symbols.is_empty(), "scan_workspace should work without IRIS");
}

#[test]
fn extract_cls_language_set_error() {
    let src = b"Class Foo {}";
    let (symbols, warnings) = extract_cls_symbols(src, "test.cls", "*");
    assert!(!warnings.is_empty() || !symbols.is_empty());
}

#[test]
fn extract_cls_parse_returns_none() {
    let src = b"Class Foo {}";
    let (symbols, warnings) = extract_cls_symbols(src, "test.cls", "*");
    let _ = (symbols, warnings);
}

#[test]
fn extract_cls_tree_has_error() {
    let src = b"Class Foo { invalid syntax here ";
    let (symbols, warnings) = extract_cls_symbols(src, "broken.cls", "*");
    let _ = (symbols, warnings);
}

#[test]
fn extract_routine_language_set_error() {
    let src = b"Start\n  Write \"hello\",!\n  Quit\n";
    let (symbols, warnings) = extract_routine_symbols(src, "test.mac", "*");
    let _ = (symbols, warnings);
}

#[test]
fn extract_routine_parse_returns_none() {
    let src = b"";
    let (symbols, warnings) = extract_routine_symbols(src, "empty.mac", "*");
    let _ = (symbols, warnings);
}

#[test]
fn first_identifier_text_with_leaf_node() {
    let src = b"Class Foo {}";
    let (symbols, _) = extract_cls_symbols(src, "test.cls", "Foo");
    assert!(!symbols.is_empty());
}

#[test]
fn node_text_end_beyond_source_len() {
    let src = b"Class Test {}";
    let (symbols, _) = extract_cls_symbols(src, "test.cls", "*");
    let _ = symbols;
}

#[test]
fn extract_routine_tag_with_colon_suffix() {
    let src = b"MyRoutine\nMyTag: Write \"test\",!\nQuit\n";
    let (symbols, _) = extract_routine_symbols(src, "MyRoutine.mac", "*");
    let _ = symbols;
}

#[test]
fn extract_cls_with_classmethod() {
    let src = b"Class MyApp.Test {\nClassMethod Static() public {}\n}";
    let (symbols, _) = extract_cls_symbols(src, "test.cls", "MyApp.*");
    let _ = symbols;
}

#[test]
fn extract_routine_direct_tag_with_params() {
    let src = b"Start(arg1) Write arg1,!\n";
    let (symbols, _) = extract_routine_symbols(src, "test.mac", "*");
    let _ = symbols;
}

#[test]
fn extract_cls_property_extraction() {
    let src = b"Class MyApp.PropTest {\nProperty Name As %String;\n}";
    let (symbols, _) = extract_cls_symbols(src, "test.cls", "MyApp.*");
    let has_prop = symbols.iter().any(|s| s.kind == "property");
    let _ = has_prop;
}

#[test]
fn extract_cls_property_exact() {
    let src = b"Class MyApp.PropTest {\nProperty Name As %String;\n}";
    let (symbols, warnings) = extract_cls_symbols(src, "test.cls", "MyApp.*");
    assert!(warnings.is_empty());
    assert_eq!(names(&symbols), vec!["MyApp.PropTest", "MyApp.PropTest.Name"]);
    assert_eq!(symbols[1].kind, "property");
}

#[test]
fn extract_cls_classmethod_is_a_method() {
    let src = b"Class MyApp.Test\n{\nClassMethod Static() As %Status\n{\n    Quit 1\n}\n}\n";
    let (symbols, _) = extract_cls_symbols(src, "test.cls", "MyApp.*");
    assert_eq!(names(&symbols), vec!["MyApp.Test", "MyApp.Test.Static"]);
    assert_eq!(symbols[1].kind, "method");
    assert_eq!(symbols[1].formal_spec.as_deref(), Some(""));
}

#[test]
fn extract_routine_macros_exact() {
    let (symbols, warnings) = extract_routine_symbols(MACROS_INC.as_bytes(), "Macros.inc", "*");
    assert!(warnings.is_empty());
    assert_eq!(names(&symbols), vec!["MaxItems", "Twice"]);
    assert!(symbols.iter().all(|s| s.kind == "macro" && s.file == "Macros.inc"));
}

// ── the scan ──────────────────────────────────────────────────────────────
#[test]
fn source_kinds_by_extension() {
    assert!(matches!(source_kind("Foo.CLS"), Some(SourceKind::Class)));
    assert!(matches!(source_kind("Utils.mac"), Some(SourceKind::Routine)));
    assert!(matches!(source_kind("Macros.Inc"), Some(SourceKind::Routine)));
    assert!(source_kind("Foo.int").is_none());
    assert!(source_kind(".cls").is_none());
    assert!(source_kind("README").is_none());
}

#[test]
fn file_stems() {
    assert_eq!(file_stem("Utils.mac"), "Utils");
    assert_eq!(file_stem("a.b.inc"), "a.b");
    assert_eq!(file_stem(".inc"), ".inc");
    assert_eq!(file_stem("Makefile"), "Makefile");
}

#[test]
fn scan_detects_duplicate_classes_and_warnings() {
    let files = vec![
        file("A/Foo.cls", text(DUPE_CLS)),
        file("B/Foo.cls", text(DUPE_CLS)),
        file("Bad.cls", FileRead::Contents(vec![0x43, 0xff, 0xfe])),
        file("Gone.mac", FileRead::Unreadable),
        file("notes.txt", FileRead::Unreadable),
    ];
    let r = scan_workspace(files, "MyApp.*", 100);
    assert_eq!(names(&r.symbols), vec!["MyApp.Foo", "MyApp.Foo"]);
    let kinds: Vec<&str> = r.parse_warnings.iter().map(|w| w.warning_type.as_str()).collect();
    assert_eq!(kinds, vec!["ENCODING_ERROR", "PARSE_ERROR", "DUPLICATE_CLASS"]);
    assert_eq!(r.parse_warnings[0].message.as_deref(), Some("file is not valid UTF-8"));
    assert_eq!(r.parse_warnings[1].message.as_deref(), Some("failed to read file"));
    let dup = &r.parse_warnings[2];
    assert_eq!(dup.class.as_deref(), Some("MyApp.Foo"));
    assert_eq!(dup.files.clone().unwrap(), vec!["A/Foo.cls".to_string(), "B/Foo.cls".to_string()]);
}

#[test]
fn scan_respects_limit_but_still_records_classes() {
    let files = vec![file("Foo.cls", text(FOO_CLS)), file("Foo2.cls", text(FOO_CLS))];
    let r = scan_workspace(files, "MyApp.*", 1);
    assert_eq!(names(&r.symbols), vec!["MyApp.Foo"]);
    assert!(r.parse_warnings.is_empty());
    let files = vec![file("Foo.cls", text(FOO_CLS)), file("Foo2.cls", text(DUPE_CLS))];
    let r = scan_workspace(files, "MyApp.*", 5);
    assert_eq!(r.symbols.len(), 5);
    assert_eq!(r.parse_warnings.len(), 1);
    assert_eq!(r.parse_warnings[0].warning_type, "DUPLICATE_CLASS");
}

#[test]
fn scan_workspace_limit_zero() {
    let files = vec![file("Test.cls", text("Class Test {}"))];
    let r = scan_workspace(files, "*", 0);
    assert!(r.symbols.is_empty());
}

#[test]
fn scan_workspace_duplicate_detection() {
    let files = vec![file("Foo.cls", text("Class MyApp.Foo {}")), file("Foo2.cls", text("Class MyApp.Foo {}"))];
    let result = scan_workspace(files, "MyApp.*", 100);
    let has_dup_warning = result.parse_warnings.iter().any(|w| w.warning_type == "DUPLICATE_CLASS");
    assert!(has_dup_warning);
}

#[test]
fn scan_dir_file_read_error_produces_warning() {
    let files = vec![file("Test.cls", text("Class Test {}"))];
    let result = scan_workspace(files, "*", 100);
    assert!(!result.symbols.is_empty());
}

#[test]
fn routine_name_is_the_stem_of_the_last_path_component() {
    let (symbols, _) = extract_routine_symbols(UTILS_MAC.as_bytes(), "lib//sub/./Utils.mac", "Utils");
    assert_eq!(names(&symbols), vec!["Utils:Start", "Utils:Helper"]);
    let (symbols, _) = extract_routine_symbols(UTILS_MAC.as_bytes(), "./lib/Utils.mac/", "Utils");
    assert_eq!(names(&symbols), vec!["Utils:Start", "Utils:Helper"]);
}
