use iris_agentic_dev_core::elicitation::{ElicitationAction, ElicitationStore, EXPIRY_NANOS};
use iris_agentic_dev_core::tools::scm::{
    after_user_action_code, derive_scm_status, menu_all_items_code, normalize_scm_document,
    os_quote, parse_action_msg, parse_checked_out_by, parse_scm_status_line, scm_begin, scm_begin_at,
    scm_finish, scm_init_prefix, scm_menu_actions, scm_status_answer, status_check_code,
    user_action_code, ScmAction, ScmParams, ScmReply, ScmStage, ScmStatusAnswer, ScmStep,
    SCM_MENU,
};

// ── os_quote ──────────────────────────────────────────────────────────────
#[test]
fn test_os_quote_double_quotes() {
    assert_eq!(os_quote(r#"say "hi""#), r#"say ""hi"""#);
}
#[test]
fn test_os_quote_newline() {
    assert_eq!(os_quote("a\nb"), "a$Char(10)b");
}
#[test]
fn test_os_quote_cr() {
    assert_eq!(os_quote("a\rb"), "a$Char(13)b");
}
#[test]
fn test_os_quote_plain() {
    assert_eq!(os_quote("hello"), "hello");
}
#[test]
fn test_os_quote_empty() {
    assert_eq!(os_quote(""), "");
}

// ── parse_action_msg ─────────────────────────────────────────────────────
#[test]
fn test_parse_action_msg_code_and_msg() {
    let (code, msg) = parse_action_msg("1|Please enter comment");
    assert_eq!(code, 1);
    assert_eq!(msg, "Please enter comment");
}
#[test]
fn test_parse_action_msg_zero_ok() {
    let (code, msg) = parse_action_msg("0|");
    assert_eq!(code, 0);
    assert_eq!(msg, "");
}
#[test]
fn test_parse_action_msg_no_pipe() {
    let (code, msg) = parse_action_msg("0");
    assert_eq!(code, 0);
    assert_eq!(msg, "");
}
#[test]
fn test_parse_action_msg_message_with_pipes() {
    let (code, msg) = parse_action_msg("1|msg with | pipe");
    assert_eq!(code, 1);
    assert_eq!(msg, "msg with | pipe");
}
#[test]
fn test_parse_action_msg_type_7() {
    let (code, msg) = parse_action_msg("7|Enter value:");
    assert_eq!(code, 7);
    assert_eq!(msg, "Enter value:");
}
#[test]
fn test_parse_action_msg_empty_string() {
    let (code, msg) = parse_action_msg("");
    assert_eq!(code, 0);
    assert_eq!(msg, "");
}
#[test]
fn test_parse_action_msg_whitespace_trimmed() {
    let (code, msg) = parse_action_msg("  1  |  some msg  ");
    assert_eq!(code, 1);
    assert_eq!(msg, "some msg");
}

// ── user_action_code ──────────────────────────────────────────────────────
#[test]
fn test_user_action_code_no_backslash_quote() {
    let code = user_action_code("CheckOut", "MyApp.Patient.cls", "user", "pass");
    assert!(!code.contains("\\\""), "must use ObjectScript quoting, not backslash: {}", code);
    assert!(code.contains("CheckOut"), "must contain action_id: {}", code);
    assert!(code.contains("MyApp.Patient.cls"), "must contain doc: {}", code);
}
#[test]
fn test_user_action_code_escapes_quotes_in_action() {
    let code = user_action_code("Check\"Out", "Doc.cls", "user", "pass");
    assert!(code.contains("\"\""), "double-quote must become \"\": {}", code);
    assert!(!code.contains("\\\""), "no backslash-quote: {}", code);
}
#[test]
fn test_user_action_code_escapes_newline_in_doc() {
    let code = user_action_code("CheckOut", "Doc\nwith\nnewlines.cls", "user", "pass");
    assert!(code.contains("$Char(10)"), "newline must become $Char(10): {}", code);
}
#[test]
fn test_user_action_code_contains_user_action() {
    let code = user_action_code("CheckOut", "MyApp.cls", "user", "pass");
    assert!(code.contains("UserAction"), "must invoke UserAction: {code}");
}
#[test]
fn test_user_action_code_contains_source_menu() {
    let code = user_action_code("CheckOut", "MyApp.cls", "user", "pass");
    assert!(code.contains("%SourceMenu"), "must pass %SourceMenu prefix: {code}");
}
#[test]
fn test_user_action_code_escapes_quotes_in_credentials() {
    let code = user_action_code("CheckOut", "Doc.cls", "us\"er", "p\"ass");
    assert!(code.contains("\"\""), "double-quote in credentials must be doubled: {code}");
    assert!(!code.contains("\\\""), "no backslash-quote: {code}");
}

// ── status_check_code ─────────────────────────────────────────────────────
#[test]
fn test_status_check_code_uses_get_status() {
    let code = status_check_code("MyApp.Patient.cls", "user", "pass");
    assert!(code.contains("%Studio.SourceControl.Interface"), "must use Interface class: {code}");
    assert!(code.contains("GetStatus"), "must call GetStatus: {code}");
    assert!(code.contains("SourceControlCreate"), "must init session: {code}");
    assert!(!code.contains("%GetImplementationObject"), "must not use removed method: {code}");
}
#[test]
fn test_status_check_code_contains_doc() {
    let code = status_check_code("MyApp.Patient.cls", "user", "pass");
    assert!(code.contains("MyApp.Patient.cls"), "must embed document name: {code}");
}
#[test]
fn test_status_check_code_escapes_quotes_in_doc() {
    let code = status_check_code("My\"App.cls", "user", "pass");
    assert!(code.contains("\"\""), "double-quote must become \"\": {code}");
    assert!(!code.contains("\\\""), "no backslash-quote: {code}");
}
#[test]
fn test_status_check_code_escapes_quotes_in_credentials() {
    let code = status_check_code("Any.cls", "us\"er", "p\"ass");
    assert!(code.contains("\"\""), "double-quote in credentials must be escaped: {code}");
}
#[test]
fn test_status_check_code_emits_structured_sentinel() {
    let code = status_check_code("Any.cls", "user", "pass");
    assert!(code.contains("SCMSTATUS|"), "must emit the SCMSTATUS sentinel line: {code}");
}
#[test]
fn test_status_check_code_uses_menu_items_for_checkout_state() {
    let code = status_check_code("Any.cls", "user", "pass");
    assert!(code.contains("MenuItems"), "must use MenuItems to deduce checkout state: {code}");
    assert!(code.contains("%UndoCheckout"), "must check for UndoCheckout: {code}");
    assert!(code.contains("%CheckOut"), "must check for CheckOut availability: {code}");
    assert!(code.contains("%AddToSourceControl"), "must check AddToSourceControl: {code}");
}

// ── parse_scm_status_line ─────────────────────────────────────────────────
#[test]
fn test_parse_scm_status_line_full() {
    let (in_sc, co, undo, add, owner) = parse_scm_status_line("SCMSTATUS|0|1|0|0|0|0|test").unwrap();
    assert!(in_sc);
    assert!(!co);
    assert!(!undo);
    assert!(!add);
    assert_eq!(owner, "test");
}
#[test]
fn test_parse_scm_status_line_finds_sentinel_amid_noise() {
    let raw = "SCMSTATUS|0|0|0|1|0|1|\nERROR($ZERROR): <ENDOFFILE>";
    let parsed = raw.lines().find_map(parse_scm_status_line);
    assert!(parsed.is_some());
}
#[test]
fn test_parse_scm_status_line_rejects_non_sentinel() {
    assert!(parse_scm_status_line("ERROR: something broke").is_none());
    assert!(parse_scm_status_line("").is_none());
}

// ── parse_checked_out_by ──────────────────────────────────────────────────
#[test]
fn test_parse_checked_out_by_with_timestamp() {
    let raw = "NOTICE: 'My.Class.cls' is currently checked out by user 'todor', and was last updated at 2026-07-07 12:34:56";
    let (owner, ts) = parse_checked_out_by(raw).unwrap();
    assert_eq!(owner, "todor");
    assert_eq!(ts.as_deref(), Some("2026-07-07 12:34:56"));
}
#[test]
fn test_parse_checked_out_by_truncated_no_timestamp() {
    let raw = "...is currently checked out by user 'todor', and was last";
    let (owner, ts) = parse_checked_out_by(raw).unwrap();
    assert_eq!(owner, "todor");
    assert_eq!(ts, None);
}
#[test]
fn test_parse_checked_out_by_takes_first_of_repeated() {
    let raw = "checked out by user 'todor', and was last\nchecked out by user 'alice', and was last";
    let (owner, _) = parse_checked_out_by(raw).unwrap();
    assert_eq!(owner, "todor");
}
#[test]
fn test_parse_checked_out_by_none_when_absent() {
    assert!(parse_checked_out_by("ERROR: <PROTECT>").is_none());
    assert!(parse_checked_out_by("").is_none());
}

// ── derive_scm_status ─────────────────────────────────────────────────────
#[test]
fn test_derive_uncontrolled_is_editable() {
    let s = derive_scm_status(false, false, false, true, "", "me").unwrap();
    assert!(!s.controlled);
    assert!(s.editable);
    assert!(!s.locked);
    assert_eq!(s.owner, None);
}
#[test]
fn test_derive_checked_out_by_me() {
    let s = derive_scm_status(true, false, true, false, "", "me").unwrap();
    assert!(s.controlled);
    assert!(s.editable);
    assert!(!s.locked);
    assert!(s.checked_out_by_me);
    assert_eq!(s.owner.as_deref(), Some("me"));
}
#[test]
fn test_derive_locked_by_other() {
    let s = derive_scm_status(true, false, false, false, "test", "me").unwrap();
    assert!(s.controlled);
    assert!(!s.editable, "must NOT claim editable when locked by another user");
    assert!(s.locked);
    assert!(!s.checked_out_by_me);
    assert_eq!(s.owner.as_deref(), Some("test"));
}
#[test]
fn test_derive_controlled_available_to_checkout() {
    let s = derive_scm_status(true, true, false, false, "", "me").unwrap();
    assert!(s.controlled);
    assert!(!s.editable);
    assert!(!s.locked);
    assert!(!s.checked_out_by_me);
}
#[test]
fn test_derive_locked_by_other_detected_via_owner_only() {
    let s = derive_scm_status(false, false, false, false, "test", "me").unwrap();
    assert!(s.controlled);
    assert!(s.locked);
    assert!(!s.editable);
    assert_eq!(s.owner.as_deref(), Some("test"));
}
#[test]
fn test_derive_no_signal_is_indeterminate() {
    assert!(derive_scm_status(false, false, false, false, "", "me").is_none());
}
#[test]
fn test_derive_resolves_from_menu_signal_alone() {
    let s = derive_scm_status(false, true, false, false, "", "me").unwrap();
    assert!(s.controlled);
    assert!(!s.editable);
    assert!(!s.locked);
}

// ── SCM_MENU / scm_init_prefix ────────────────────────────────────────────
#[test]
fn test_scm_menu_prefix() {
    assert_eq!(SCM_MENU, "%SourceMenu");
}
#[test]
fn test_scm_init_prefix_contains_source_control_create() {
    let code = scm_init_prefix("user", "pass");
    assert!(code.contains("SourceControlCreate"), "{code}");
    assert!(code.contains("%Studio.SourceControl.Interface"), "{code}");
}
#[test]
fn test_scm_init_prefix_escapes_quotes_in_user() {
    let code = scm_init_prefix("us\"er", "pass");
    assert!(code.contains("\"\""), "double-quote must be doubled: {code}");
    assert!(!code.contains("\\\""), "no backslash-quote: {code}");
}
#[test]
fn test_scm_init_prefix_contains_get_source_control() {
    let code = scm_init_prefix("user", "pass");
    assert!(code.contains("%SourceControl"), "must bind %SourceControl: {code}");
}
#[test]
fn test_scm_init_prefix_writes_scm_unavailable_on_no_obj() {
    let code = scm_init_prefix("user", "pass");
    assert!(code.contains("SCM_UNAVAILABLE"), "must write SCM_UNAVAILABLE: {code}");
}
#[test]
fn test_scm_init_prefix_escapes_quotes_in_password() {
    let code = scm_init_prefix("user", "p\"ass");
    assert!(code.contains("\"\""), "double-quote in password must be doubled: {code}");
    assert!(!code.contains("\\\""), "no backslash-quote in password: {code}");
}

// ── menu_all_items_code ───────────────────────────────────────────────────
#[test]
fn test_menu_all_items_code_contains_menu_items() {
    let code = menu_all_items_code("MyApp.cls", "user", "pass");
    assert!(code.contains("MenuItems"), "{code}");
}
#[test]
fn test_menu_all_items_code_contains_doc() {
    let code = menu_all_items_code("MyApp.Patient.cls", "user", "pass");
    assert!(code.contains("MyApp.Patient.cls"), "{code}");
}
#[test]
fn test_menu_all_items_code_contains_source_menu() {
    let code = menu_all_items_code("MyApp.cls", "user", "pass");
    assert!(code.contains("%SourceMenu"), "must pass %SourceMenu to Execute: {code}");
}
#[test]
fn test_menu_all_items_code_escapes_quotes_in_doc() {
    let code = menu_all_items_code("My\"App.cls", "user", "pass");
    assert!(code.contains("\"\""), "double-quote in doc must be doubled: {code}");
    assert!(!code.contains("\\\""), "no backslash-quote: {code}");
}
#[test]
fn test_menu_all_items_code_contains_source_control_create() {
    let code = menu_all_items_code("MyApp.cls", "user", "pass");
    assert!(code.contains("SourceControlCreate"), "must init session: {code}");
}

// ── after_user_action_code ────────────────────────────────────────────────
#[test]
fn test_after_user_action_code_contains_after_user_action() {
    let code = after_user_action_code("CheckOut", "MyApp.cls", "yes", "user", "pass");
    assert!(code.contains("AfterUserAction"), "{code}");
}
#[test]
fn test_after_user_action_code_contains_doc() {
    let code = after_user_action_code("CheckOut", "MyApp.Patient.cls", "no", "user", "pass");
    assert!(code.contains("MyApp.Patient.cls"), "{code}");
}
#[test]
fn test_after_user_action_code_yes_becomes_1() {
    let code = after_user_action_code("CheckOut", "Doc.cls", "yes", "user", "pass");
    assert!(code.contains(",1,"), "yes should become 1: {code}");
}
#[test]
fn test_after_user_action_code_no_becomes_0() {
    let code = after_user_action_code("CheckOut", "Doc.cls", "no", "user", "pass");
    assert!(code.contains(",0,"), "no should become 0: {code}");
}
#[test]
fn test_after_user_action_code_contains_source_menu() {
    let code = after_user_action_code("CheckOut", "MyApp.cls", "yes", "user", "pass");
    assert!(code.contains("%SourceMenu"), "must pass %SourceMenu: {code}");
}
#[test]
fn test_after_user_action_code_contains_user_action() {
    let code = after_user_action_code("CheckOut", "MyApp.cls", "yes", "user", "pass");
    assert!(code.contains("UserAction"), "must call UserAction first: {code}");
}
#[test]
fn test_after_user_action_code_writes_error_text() {
    let code = after_user_action_code("CheckOut", "MyApp.cls", "yes", "user", "pass");
    assert!(code.contains("GetErrorText"), "must write error text from AfterUserAction: {code}");
}

// ── Document name normalization ───────────────────────────────────────────
#[test]
fn test_normalize_cls_extension_appended_for_bare_class() {
    assert_eq!(normalize_scm_document("MyApp.Patient"), "MyApp.Patient.cls");
}

// ── ScmAction ─────────────────────────────────────────────────────────────
#[test]
fn test_scm_action_from_id() {
    assert_eq!(ScmAction::from_id("CheckOut"), ScmAction::CheckOut);
    assert_eq!(ScmAction::from_id("%CheckIn"), ScmAction::CheckIn);
    assert_eq!(ScmAction::from_id("%GetLatest"), ScmAction::GetLatest);
    assert_eq!(ScmAction::from_id("Unknown"), ScmAction::Unknown("Unknown".to_string()));
}
#[test]
fn test_checkin_is_blocked() {
    assert_eq!(ScmAction::from_id("%CheckIn"), ScmAction::CheckIn);
    assert_eq!(ScmAction::from_id("CheckIn"), ScmAction::CheckIn);
}

// ── The tool call ─────────────────────────────────────────────────────────
fn params(action: &str) -> ScmParams {
    ScmParams {
        action: action.to_string(),
        document: Some("MyApp.Patient".to_string()),
        action_id: None,
        answer: None,
        elicitation_id: None,
        namespace: "USER".to_string(),
        confirm: false,
    }
}

#[test]
fn normalize_keeps_known_extensions_in_any_case() {
    assert_eq!(normalize_scm_document("Foo.MAC"), "Foo.MAC");
    assert_eq!(normalize_scm_document("Foo.inc"), "Foo.inc");
    assert_eq!(normalize_scm_document(""), "");
}

#[test]
fn execute_checkin_is_refused_before_running_anything() {
    let mut store = ElicitationStore::new();
    let mut p = params("execute");
    p.action_id = Some("%CheckIn".to_string());
    match scm_begin(&p, &mut store, "u", "p") {
        ScmStep::Reply(ScmReply::Failed { error_code, error }) => {
            assert_eq!(error_code, "BLOCKED");
            assert_eq!(error, "CheckIn is not allowed");
        }
        _ => panic!("check-in must be blocked"),
    }
}

#[test]
fn unknown_action_is_invalid_param() {
    let mut store = ElicitationStore::new();
    match scm_begin(&params("frobnicate"), &mut store, "u", "p") {
        ScmStep::Reply(ScmReply::Failed { error_code, error }) => {
            assert_eq!(error_code, "INVALID_PARAM");
            assert_eq!(error, "Unknown action='frobnicate'. Use: status, menu, checkout, execute");
        }
        _ => panic!("unknown action must fail"),
    }
}

#[test]
fn status_runs_probe_for_normalized_document() {
    let mut store = ElicitationStore::new();
    match scm_begin(&params("status"), &mut store, "u", "p") {
        ScmStep::Run { code, namespace, stage } => {
            assert_eq!(code, status_check_code("MyApp.Patient.cls", "u", "p"));
            assert_eq!(namespace, "USER");
            assert!(matches!(stage, ScmStage::Status));
        }
        _ => panic!("status must run the probe"),
    }
}

#[test]
fn checkout_confirmation_stores_dialog_and_resume_consumes_it() {
    let mut store = ElicitationStore::new();
    let stage = ScmStage::CheckOut { document: "A.cls".to_string(), namespace: "USER".to_string() };
    let reply = scm_finish(stage, Ok("1|".to_string()), &mut store, "me");
    let eid = match reply {
        ScmReply::Confirm { elicitation_id, message } => {
            assert_eq!(message, "Check out A.cls ?");
            elicitation_id
        }
        _ => panic!("action 1 asks for confirmation"),
    };
    assert!(store.contains(&eid));
    let mut p = params("status");
    p.elicitation_id = Some(eid.clone());
    p.answer = Some("yes".to_string());
    match scm_begin(&p, &mut store, "u", "p") {
        ScmStep::Run { code, stage, .. } => {
            assert_eq!(code, after_user_action_code("%CheckOut", "A.cls", "yes", "u", "p"));
            assert!(matches!(stage, ScmStage::Resume { .. }));
        }
        _ => panic!("a live dialog resumes"),
    }
    assert!(!store.contains(&eid));
}

#[test]
fn resume_of_unknown_dialog_expires() {
    let mut store = ElicitationStore::new();
    let mut p = params("status");
    p.elicitation_id = Some("nope".to_string());
    p.answer = Some("yes".to_string());
    match scm_begin(&p, &mut store, "u", "p") {
        ScmStep::Reply(ScmReply::Failed { error_code, .. }) => assert_eq!(error_code, "ELICITATION_EXPIRED"),
        _ => panic!("unknown dialog must expire"),
    }
}

#[test]
fn execute_outcomes_by_action_code() {
    let mut store = ElicitationStore::new();
    let st = |aid: &str| ScmStage::Execute {
        document: "D.cls".to_string(),
        action_id: aid.to_string(),
        namespace: "USER".to_string(),
    };
    match scm_finish(st("%GetLatest"), Ok("0|".to_string()), &mut store, "me") {
        ScmReply::Done { document, action_id } => {
            assert_eq!(document, "D.cls");
            assert_eq!(action_id, "%GetLatest");
        }
        _ => panic!("code 0 is done"),
    }
    match scm_finish(st("%Diff"), Ok("7|".to_string()), &mut store, "me") {
        ScmReply::Prompt { message, .. } => assert_eq!(message, "Enter value for %Diff:"),
        _ => panic!("code 7 prompts"),
    }
    match scm_finish(st("%Diff"), Ok("1|".to_string()), &mut store, "me") {
        ScmReply::Confirm { message, .. } => assert_eq!(message, "Execute %Diff on D.cls?"),
        _ => panic!("code 1 confirms"),
    }
    match scm_finish(st("%Diff"), Ok("3|x".to_string()), &mut store, "me") {
        ScmReply::Failed { error_code, error } => {
            assert_eq!(error_code, "SCM_ERROR");
            assert_eq!(error, "Unexpected action code 3 from UserAction");
        }
        _ => panic!("other codes fail"),
    }
    match scm_finish(st("%Diff"), Ok("SCM_UNAVAILABLE\n".to_string()), &mut store, "me") {
        ScmReply::Failed { error, .. } => assert_eq!(error, "Source control session could not be initialized"),
        _ => panic!("no session"),
    }
}

#[test]
fn resume_maps_docker_required() {
    let mut store = ElicitationStore::new();
    let st = ScmStage::Resume { document: "D.cls".to_string(), action_id: "%CheckOut".to_string() };
    match scm_finish(st, Err("DOCKER_REQUIRED".to_string()), &mut store, "me") {
        ScmReply::Failed { error_code, error } => {
            assert_eq!(error_code, "DOCKER_REQUIRED");
            assert_eq!(error, "SCM operations require docker exec. Set IRIS_CONTAINER=<container_name>.");
        }
        _ => panic!("docker required"),
    }
}

#[test]
fn menu_skips_checkin_disabled_and_noise() {
    let raw = "SCM_UNAVAILABLE\n%CheckOut|1\n%CheckIn|1\n%Diff|0\nERROR: x\n\n %GetLatest | 1 ";
    assert_eq!(scm_menu_actions(raw), vec!["%CheckOut".to_string(), "%GetLatest".to_string()]);
}

#[test]
fn status_answer_reads_sentinel_then_notice_then_raw() {
    match scm_status_answer("noise\nSCMSTATUS|0|1|0|0|1|0|me", "me") {
        ScmStatusAnswer::Status(s) => {
            assert!(s.controlled && s.editable && s.checked_out_by_me);
        }
        _ => panic!("sentinel decides"),
    }
    match scm_status_answer("checked out by user 'Todor'", "todor") {
        ScmStatusAnswer::CheckedOutBy { owner, checked_out_by_me, checked_out_at } => {
            assert_eq!(owner, "Todor");
            assert!(checked_out_by_me);
            assert_eq!(checked_out_at, None);
        }
        _ => panic!("notice decides"),
    }
    match scm_status_answer("  <PROTECT>  ", "me") {
        ScmStatusAnswer::Unavailable { raw_output, .. } => assert_eq!(raw_output.as_deref(), Some("<PROTECT>")),
        _ => panic!("unavailable"),
    }
}

#[test]
fn resume_at_a_time_runs_a_live_dialog_and_expires_a_stale_one() {
    let mut store = ElicitationStore::new();
    let eid = store.insert_at("A.cls", ElicitationAction::ScmExecute, None, Some("%CheckOut".to_string()), "APP", 1000);
    let mut p = params("status");
    p.elicitation_id = Some(eid.clone());
    p.answer = Some("yes".to_string());
    match scm_begin_at(&p, &mut store, "u", "p", 1000 + EXPIRY_NANOS) {
        ScmStep::Run { code, namespace, stage } => {
            assert_eq!(code, after_user_action_code("%CheckOut", "A.cls", "yes", "u", "p"));
            assert_eq!(namespace, "APP");
            assert!(matches!(stage, ScmStage::Resume { .. }));
        }
        _ => panic!("a live dialog resumes"),
    }
    assert!(!store.contains(&eid));
    let eid = store.insert_at("A.cls", ElicitationAction::ScmExecute, None, Some("%CheckOut".to_string()), "APP", 1000);
    p.elicitation_id = Some(eid.clone());
    match scm_begin_at(&p, &mut store, "u", "p", 1001 + EXPIRY_NANOS) {
        ScmStep::Reply(ScmReply::Failed { error_code, .. }) => assert_eq!(error_code, "ELICITATION_EXPIRED"),
        _ => panic!("an expired dialog is not resumed"),
    }
    assert!(!store.contains(&eid));
}
