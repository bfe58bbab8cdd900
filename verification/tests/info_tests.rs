use iris_agentic_dev_core::tools::info::{
    class_prompt, ddl_globals, debug_exec_error, debug_plan, info_target, macro_action,
    package_prefix, row_count, row_count_code, split_table, suggested_test_class, table_lookup_code,
    table_not_found_msg, table_storage, test_methods_sql, test_prompt, DebugParams,
    DebugPlan, InfoParams, InfoTarget, MacroAction, TableStorage,
};

#[test]
fn info_targets() {
    let p = |what: &str, dt: Option<&str>| InfoParams { what: what.to_string(), doc_type: dt.map(String::from), name: None, namespace: "USER".to_string(), inline: false };
    match info_target(&p("documents", Some("mac"))).unwrap() {
        InfoTarget::Namespace(path) => assert_eq!(path, "/docnames/MAC"),
        _ => panic!(),
    }
    match info_target(&p("documents", Some("ALL"))).unwrap() {
        InfoTarget::Namespace(path) => assert_eq!(path, "/docnames/CLS"),
        _ => panic!(),
    }
    assert!(matches!(info_target(&p("metadata", None)).unwrap(), InfoTarget::Root(_)));
    assert_eq!(info_target(&p("x", None)).err().unwrap().error_code, "INVALID_PARAM");
}

#[test]
fn macro_and_debug_actions() {
    assert!(matches!(macro_action("list").unwrap(), MacroAction::List));
    assert!(matches!(macro_action("expand").unwrap(), MacroAction::Lookup(_)));
    assert!(macro_action("nope").is_err());
    let d = DebugParams { action: "map_int".to_string(), error_string: Some("<UNDEFINED>x+3^A.1 \"q\"".to_string()), class_name: None, limit: 20, namespace: "USER".to_string() };
    match debug_plan(&d).unwrap() {
        DebugPlan::Run { code, label } => {
            assert_eq!(label, "map_int");
            assert!(code.starts_with("set err=\"<UNDEFINED>x+3^A.1 \\\"q\\\"\""));
        }
        _ => panic!(),
    }
    assert_eq!(debug_exec_error("capture", "DOCKER_REQUIRED").error, "iris_debug capture requires docker exec. Set IRIS_CONTAINER=<container_name>.");
    assert_eq!(debug_exec_error("capture", "boom").error_code, "EXECUTION_FAILED");
}

#[test]
fn generate_helpers() {
    assert_eq!(package_prefix(&[]), "MyApp");
    assert_eq!(package_prefix(&["Acme.Orders.Order".to_string()]), "Acme");
    assert!(test_methods_sql("O'Brien.X").contains("parent = 'O''Brien.X'"));
    assert!(class_prompt("a thing", "Acme").contains("Use package prefix 'Acme'"));
}

#[test]
fn table_info_helpers() {
    assert_eq!(split_table("Sch.Tab.X"), ("Sch".to_string(), "Tab.X".to_string()));
    assert_eq!(split_table("Tab"), ("SQLUser".to_string(), "Tab".to_string()));
    assert!(matches!(table_storage(" NOT_FOUND \n"), TableStorage::NotFound));
    match table_storage("CLASS:My.Cls\nDATA: ^My.ClsD \nINDEX:\nID:^x") {
        TableStorage::Class { class_name, data_global, index_global } => {
            assert_eq!(class_name, "My.Cls");
            assert_eq!(data_global.as_deref(), Some("^My.ClsD"));
            assert_eq!(index_global, None);
        }
        _ => panic!(),
    }
    assert!(matches!(table_storage("DDL_TABLE"), TableStorage::Ddl));
    assert_eq!(ddl_globals("S", "T").2, "^S.TC");
    assert_eq!(row_count(Ok(" 42 \n".to_string())), Some(42));
    assert_eq!(row_count(Ok("error".to_string())), None);
}

#[test]
fn test_generation_prompt() {
    let cls = "My.Pkg.Order";
    assert_eq!(
        test_prompt(cls, "cover totals", "[{\"Name\":\"Total\"}]"),
        format!(
            "Write an InterSystems IRIS %UnitTest.TestCase subclass to test '{}'. \
             Requirements: {}. \
             The class has these methods: {}. \
             Rules: extend %UnitTest.TestCase, prefix test methods with 'Test', \
             use $$$AssertEquals/$$$AssertTrue macros, include ##class({}).%New() in setup. \
             Write only valid ObjectScript — no explanations, no markdown fences.",
            cls, "cover totals", "[{\"Name\":\"Total\"}]", cls
        )
    );
    assert_eq!(suggested_test_class(cls), "My.Pkg.Order.Test");
}

#[test]
fn table_snippets_and_messages() {
    let schema = "Sample";
    let table = "Per\"son";
    let expected_lookup = format!(
        r#"
set sqlSchema = "{schema}", sqlTable = "{table}"
// Check table exists at all via INFORMATION_SCHEMA
set rsEx = ##class(%SQL.Statement).%ExecDirect(,"SELECT COUNT(*) FROM INFORMATION_SCHEMA.TABLES WHERE TABLE_SCHEMA = ? AND TABLE_NAME = ?", sqlSchema, sqlTable)
if rsEx.%Next() && (rsEx.%GetData(1) = 0) {{ write "NOT_FOUND",! quit }}
// Look for backing class
set rs = ##class(%SQL.Statement).%ExecDirect(,"SELECT c.Name, c.ClassType, s.DataLocation, s.IndexLocation, s.IDLocation FROM %Dictionary.CompiledClass c LEFT JOIN %Dictionary.CompiledStorage s ON s.parent = c.Name WHERE c.SqlSchemaName = ? AND c.SqlTableName = ?", sqlSchema, sqlTable)
if rs.%Next() {{
    write "CLASS:",rs.Name,!
    write "CLASSTYPE:",rs.ClassType,!
    write "DATA:",rs.DataLocation,!
    write "INDEX:",rs.IndexLocation,!
    write "ID:",rs.IDLocation,!
}} else {{
    write "DDL_TABLE",!
}}
"#,
        schema = schema.replace('"', "\\\""),
        table = table.replace('"', "\\\""),
    );
    assert_eq!(table_lookup_code(schema, table), expected_lookup);
    let expected_count = format!(
        r#"set rs = ##class(%SQL.Statement).%ExecDirect(,"SELECT COUNT(*) FROM ""{schema}"".{table}")
if rs.%Next() {{ write rs.%GetData(1),! }} else {{ write "error",! }}"#,
        schema = schema.replace('"', "\\\""),
        table = table.replace('"', "\\\""),
    );
    assert_eq!(row_count_code(schema, table), expected_count);
    assert_eq!(table_not_found_msg("Sample.Person", "USER"), "Table 'Sample.Person' not found in namespace 'USER'");
}
