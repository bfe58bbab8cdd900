use iris_agentic_dev_core::cmd::compile::{
    cls_document_name, compile_all_code, compile_all_outcome, compile_target, outcome_line, upload_failed_msg,
    upload_reply_error,
    CompileTarget,
};
use iris_agentic_dev_core::cmd::init::{init_exists_error, init_report, suggested_container};
use iris_agentic_dev_core::cmd::plugin::{plugin_binary, plugin_command, plugin_listing};
use iris_agentic_dev_core::policy::gate::{gate_checks, GateCheck, GateParams};

#[test]
fn cls_names_from_text_or_path() {
    assert_eq!(cls_document_name("src/X.cls", "/// doc\n  Class My.Pkg.Foo Extends %Persistent\n{"), "My.Pkg.Foo.cls");
    assert_eq!(cls_document_name("./src/My/Pkg/Foo.cls", "no class here"), "src.My.Pkg.Foo.cls");
    assert_eq!(cls_document_name("A.cls.cls", "Class \n"), "A.cls");
}

#[test]
fn compile_targets_and_outcomes() {
    assert!(matches!(compile_target(&None), CompileTarget::All));
    assert!(matches!(compile_target(&Some("x.cls".to_string())), CompileTarget::ClsFile(_)));
    assert!(matches!(compile_target(&Some("X.mac".to_string())), CompileTarget::Document(_)));
    assert!(compile_all_outcome(" compiled... OK ").is_ok());
    assert_eq!(compile_all_outcome(" ERROR #5 ").unwrap_err(), "ERROR #5");
    assert_eq!(outcome_line(false, "t", "C", "e"), "✗ Error [C]: e");
}

#[test]
fn init_and_plugins() {
    assert_eq!(suggested_container(None, "proj"), "proj-iris");
    assert_eq!(suggested_container(Some("iris1"), "proj"), "iris1");
    assert!(init_exists_error("p").contains("Use --force"));
    assert_eq!(plugin_command("iris-agentic-dev-lint").as_deref(), Some("lint"));
    assert_eq!(plugin_command("other"), None);
    assert_eq!(plugin_binary("lint"), "iris-agentic-dev-lint");
}

#[test]
fn gate_order() {
    let p = GateParams {
        code: None,
        mode: Some("write".to_string()),
        query: Some("UPDATE x".to_string()),
        global_name: None,
        global_name_alt: Some("^G".to_string()),
        action: Some("kill".to_string()),
        acknowledge_phi: None,
    };
    let checks = gate_checks("iris_query", true, &p);
    assert_eq!(checks.len(), 5);
    assert!(matches!(checks[0], GateCheck::SqlCodeEdit { .. }));
    assert!(matches!(checks[1], GateCheck::EnvTemplate));
    match &checks[3] {
        GateCheck::SystemBlocklist { global_name, is_kill } => {
            assert_eq!(global_name, "^G");
            assert!(is_kill);
        }
        _ => panic!(),
    }
    assert_eq!(gate_checks("iris_query", false, &p).len(), 1);
}

#[test]
fn plugin_listing_keeps_first_path_per_command() {
    let found = vec![
        ("fmt".to_string(), "/opt/bin/iris-agentic-dev-fmt".to_string()),
        ("fmt".to_string(), "/usr/bin/iris-agentic-dev-fmt".to_string()),
        ("lint".to_string(), "/usr/bin/iris-agentic-dev-lint".to_string()),
    ];
    assert_eq!(
        plugin_listing(&found),
        vec![
            "Discovered plugins:".to_string(),
            "  fmt → /opt/bin/iris-agentic-dev-fmt".to_string(),
            "  lint → /usr/bin/iris-agentic-dev-lint".to_string(),
        ]
    );
    assert_eq!(plugin_listing(&vec![]), vec!["No iris-agentic-dev-* plugins found on PATH.".to_string()]);
}

#[test]
fn compile_all_code_and_upload_message() {
    assert_eq!(
        compile_all_code("cuk"),
        format!(
            "Set sc=$SYSTEM.OBJ.CompileAll(\"{}\") If $System.Status.IsOK(sc) {{Write \"OK\"}} Else {{Write $System.Status.GetErrorText(sc)}}",
            "cuk"
        )
    );
    assert_eq!(upload_failed_msg("500 Internal Server Error"), "Upload failed: HTTP 500 Internal Server Error");
    assert_eq!(outcome_line(true, "My.Foo.cls", "", ""), "✓ Compiled: My.Foo.cls");
}

#[test]
fn init_report_lines() {
    assert_eq!(
        init_report("/w/.iris-agentic-dev.toml", "w-iris"),
        vec![
            "✓ Created /w/.iris-agentic-dev.toml".to_string(),
            "  container = \"w-iris\"".to_string(),
            "  namespace = \"USER\"".to_string(),
        ]
    );
}

#[test]
fn upload_reply_errors_decide_upload_failed() {
    assert_eq!(upload_reply_error(&None), None);
    assert_eq!(upload_reply_error(&Some(vec![])), None);
    assert_eq!(upload_reply_error(&Some(vec![None])), Some("Upload failed".to_string()));
    assert_eq!(
        upload_reply_error(&Some(vec![Some("ERROR #5659".to_string()), Some("later".to_string())])),
        Some("ERROR #5659".to_string())
    );
}
