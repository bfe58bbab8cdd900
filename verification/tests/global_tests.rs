use iris_agentic_dev_core::tools::global::{
    build_get_code, build_global_ref, build_kill_code, build_list_code, build_set_objectscript,
    build_subtree_get_code, clamp_max_nodes, clamp_max_subscripts, finish_iris_global,
    normalize_global_name, parse_execute_output, plan_iris_global, validate_subscripts,
    GlobalOutcome, IrisGlobalParams,
};

#[test]
fn subscripts_are_checked_against_the_allowlist() {
    assert!(validate_subscripts(&["a b".to_string(), "x.y:z-1_".to_string()]).is_ok());
    let e = validate_subscripts(&["ok".to_string(), "bad\"q".to_string()]).unwrap_err();
    assert_eq!(e.error_code, "INVALID_SUBSCRIPT");
    assert_eq!(e.subscript.as_deref(), Some("bad\"q"));
    assert!(validate_subscripts(&["".to_string()]).is_err());
}

#[test]
fn global_names_and_refs() {
    assert_eq!(normalize_global_name("^MyApp"), "MyApp");
    assert_eq!(normalize_global_name("MyApp"), "MyApp");
    assert_eq!(build_global_ref("MyApp", &[]), "^MyApp");
    assert_eq!(build_global_ref("MyApp", &["a".to_string(), "b".to_string()]), "^MyApp(\"a\",\"b\")");
    assert!(build_kill_code("^X").contains("^X"));
}

#[test]
fn clamps() {
    assert_eq!(clamp_max_nodes(0), 1);
    assert_eq!(clamp_max_nodes(5000), 1000);
    assert_eq!(clamp_max_subscripts(50), 50);
}

#[test]
fn execute_output_and_outcome() {
    assert_eq!(parse_execute_output("  ok  ").unwrap(), "ok");
    assert_eq!(parse_execute_output(" ERROR:  <UNDEFINED> ").unwrap_err().message, "<UNDEFINED>");
    match finish_iris_global(true, Ok("{\"success\":true,\"value\":\"v\"}".to_string())) {
        GlobalOutcome::Value(v) => assert_eq!(v["value"], "v"),
        GlobalOutcome::Failed(e) => panic!("unexpected {}", e.message),
    }
}

fn expected_get(gref: &str) -> String {
    format!(
        r#" Set gref = "{gref}"
 Set val = $Get(@gref)
 Set def = ($Data(@gref) > 0)
 If def {{
   Write "{{""success"":true,""defined"":true,""value"":""",val,"""}}",$C(10)
 }} Else {{
   Write "{{""success"":true,""defined"":false,""value"":null}}",$C(10)
 }}"#
    )
}

fn expected_subtree(gref: &str, max_nodes: i64) -> String {
    format!(
        r#" Set startTime = $ZH
 Set maxNodes = {max_nodes}
 Set grefBase = "{gref}"
 Set node = grefBase
 Set count = 0
 Set truncated = 0
 Set out = "["
 For {{
   Set node = $Query(@node)
   Quit:node=""
   Quit:$Extract(node,1,$Length(grefBase))'=grefBase
   If count >= maxNodes {{ Set truncated = 1  Quit }}
   If ($ZH - startTime) > 5 {{ Set truncated = 1  Quit }}
   Set val = @node
   If count > 0 {{ Set out = out_","  }}
   Set out = out_"{{""path"":"""_node_""",""value"":"""_val_"""}}"
   Set count = count + 1
 }}
 Set out = out_"]"
 Write "{{""success"":true,""truncated"":"_truncated_",""node_count"":"_count_",""nodes"":"_out_"}}",$C(10)"#
    )
}

fn expected_list(gref: &str, max_subscripts: i64) -> String {
    format!(
        r#" Set maxSubs = {max_subscripts}
 Set gref = "{gref}"
 Set sub = ""
 Set count = 0
 Set truncated = 0
 Set out = "["
 For {{
   Set sub = $Order(@gref@(sub))
   Quit:sub=""
   If count >= maxSubs {{ Set truncated = 1  Quit }}
   If count > 0 {{ Set out = out_","  }}
   Set out = out_""""_sub_""""
   Set count = count + 1
 }}
 Set out = out_"]"
 Write "{{""success"":true,""truncated"":"_truncated_",""subscripts"":"_out_"}}",$C(10)"#
    )
}

#[test]
fn objectscript_generators() {
    let gref = "^MyApp(\"\"a\"\")";
    assert_eq!(build_get_code(gref), expected_get(gref));
    assert_eq!(build_subtree_get_code(gref, 100), expected_subtree(gref, 100));
    assert_eq!(build_list_code(gref, 50), expected_list(gref, 50));
    assert_eq!(
        build_set_objectscript(gref, "say \"hi\""),
        format!(
            r#" Set gref = "{gref}"
 Set @gref = "{escaped_value}"
 Write "{{""success"":true}}",$C(10)"#,
            gref = gref,
            escaped_value = "say \"\"hi\"\""
        )
    );
}

fn gparams(action: &str) -> IrisGlobalParams {
    IrisGlobalParams {
        action: action.to_string(),
        global_name: "MyApp".to_string(),
        subscripts: Some(vec!["a".to_string()]),
        value: None,
        namespace: None,
        subtree: None,
        max_nodes: None,
        max_subscripts: None,
        acknowledge_phi: None,
    }
}

#[test]
fn planning_a_global_call() {
    let gref = build_global_ref(&normalize_global_name("MyApp"), &["a".to_string()]);
    let plan = plan_iris_global(&gparams("get"), "USER").ok().unwrap();
    assert!(plan.is_get);
    assert_eq!(plan.code, expected_get(&gref));
    assert_eq!(plan.namespace, "USER");
    let mut p = gparams("get");
    p.subtree = Some(true);
    p.max_nodes = Some(5000);
    p.namespace = Some("APP".to_string());
    let plan = plan_iris_global(&p, "USER").ok().unwrap();
    assert_eq!(plan.code, expected_subtree(&gref, 1000));
    assert_eq!(plan.namespace, "APP");
    let mut p = gparams("list");
    p.max_subscripts = Some(0);
    assert_eq!(plan_iris_global(&p, "USER").ok().unwrap().code, expected_list(&gref, 1));
    let e = plan_iris_global(&gparams("set"), "USER").err().unwrap();
    assert_eq!((e.error_code.as_str(), e.message.as_str()), ("INVALID_PARAMS", "action=set requires a 'value' parameter"));
    let e = plan_iris_global(&gparams("zap"), "USER").err().unwrap();
    assert_eq!((e.error_code.as_str(), e.message.as_str()), ("INVALID_ACTION", "unknown action: zap (expected: get, set, kill, list)"));
    let mut p = gparams("get");
    p.subscripts = Some(vec!["ok".to_string(), "b;ad".to_string(), "w$rse".to_string()]);
    let e = plan_iris_global(&p, "USER").err().unwrap();
    assert_eq!(e.error_code, "INVALID_SUBSCRIPT");
    assert_eq!(e.subscript.as_deref(), Some("b;ad"));
}

#[test]
fn global_answer_is_the_value_read() {
    let text = " {\"success\":true,\"defined\":false,\"value\":null} \n";
    let want: serde_json::Value = serde_json::from_str(text.trim()).unwrap();
    match finish_iris_global(true, Ok(text.to_string())) {
        GlobalOutcome::Value(v) => assert_eq!(v, want),
        GlobalOutcome::Failed(e) => panic!("unexpected {}", e.message),
    }
}
