use serde_json::Value;
use zed_java::dap::{
    attach_config, attach_scenario, begin_launch, check_debug_adapter, complete_launch_config,
    dap_request_kind, finish_launch, json_request_kind, launch_program, locator_plan,
    locator_scenario,
    run_dap_locator, BuildTask, DapError, DebugRequest, DebugRequestKind, LaunchPlan,
    TaskTemplate, TcpTemplate,
};
use zed_java::debug_config::{config_from_json, parse_config_text, ConfigObject, ConfigValue};

fn text(s: &str) -> ConfigValue {
    ConfigValue::Text(s.to_string())
}

fn object(pairs: Vec<(&str, ConfigValue)>) -> ConfigObject {
    let mut c = ConfigObject::new();
    for (k, v) in pairs {
        c.insert(k.to_string(), v);
    }
    c
}

fn json(text: &str) -> Value {
    serde_json::from_str(text).unwrap()
}

#[test]
fn test_dap_locator() {
    let template = TaskTemplate {
        label: "Run test method".to_string(),
        command: "java-task-helper run-test-method \"/path/to/File.java\" \"com.example\" \"MyClass\" \"Outer\" \"myTestMethod\"".to_string(),
        args: vec![],
        env: vec![],
        cwd: None,
    };

    let plan = locator_plan(&template).unwrap();
    assert_eq!(plan.fqcn, "com.example.Outer$MyClass");
    assert_eq!(plan.workspace_folder, "");
    let port: u16 = 5005;
    let scenario = locator_scenario(
        plan,
        template,
        "Debug Java Test".to_string(),
        "Java".to_string(),
        None,
        port,
        None,
    );

    assert_eq!(scenario.adapter, "Java");
    assert_eq!(scenario.label, "Debug Java Test");
    assert!(scenario.tcp_connection.is_none());

    // Verify config
    let config_val: Value = serde_json::from_str(&scenario.config).unwrap();
    assert_eq!(config_val["request"], "attach");
    assert_eq!(config_val["hostName"], "localhost");
    assert_eq!(config_val["testClass"], "com.example.Outer$MyClass");
    assert_eq!(config_val["testMethod"], "myTestMethod");
    let port = config_val["port"].as_u64().unwrap();
    assert!(port > 0);
    assert_eq!(config_val["projectName"], Value::Null);

    // Verify build task
    if let Some(BuildTask::Template { locator_name, template }) = scenario.build {
        assert_eq!(locator_name, Some("java".to_string()));
        let envs = &template.env;
        assert!(envs.contains(&("ZED_JAVA_DEBUG".to_string(), "1".to_string())));
        assert!(envs.contains(&("ZED_JAVA_DEBUG_PORT".to_string(), port.to_string())));
        assert_eq!(template.label, "Run test method");

        // Verify run_dap_locator
        let debug_request = run_dap_locator();
        if let DebugRequest::Attach { process_id } = debug_request {
            assert!(process_id.is_none());
        } else {
            panic!("Expected DebugRequest::Attach");
        }
    } else {
        panic!("Expected BuildTask::Template");
    }
}

#[test]
fn locator_for_run_class_uses_resolved_name() {
    let template = TaskTemplate {
        label: "Run".to_string(),
        command: "h run-class \"/p/Main.java\" \"wrong\" \"Main\" \"\"".to_string(),
        args: vec!["x".to_string()],
        env: vec![("A".to_string(), "B".to_string())],
        cwd: Some("/p".to_string()),
    };
    let plan = locator_plan(&template).unwrap();
    assert_eq!(plan.fqcn, "wrong.Main");
    assert_eq!(plan.workspace_folder, "/p");
    let scenario = locator_scenario(
        plan,
        template,
        "Debug".to_string(),
        "Java".to_string(),
        Some("right.Main".to_string()),
        6000,
        Some("app".to_string()),
    );
    assert_eq!(
        json(&scenario.config),
        json(r#"{"request":"attach","hostName":"localhost","port":6000,"projectName":"app","testClass":"right.Main"}"#)
    );
    match scenario.build {
        Some(BuildTask::Template { template, .. }) => {
            assert_eq!(template.args, vec!["x".to_string()]);
            assert_eq!(template.cwd, Some("/p".to_string()));
            assert_eq!(
                template.env,
                vec![
                    ("A".to_string(), "B".to_string()),
                    ("ZED_JAVA_DEBUG".to_string(), "1".to_string()),
                    ("ZED_JAVA_DEBUG_PORT".to_string(), "6000".to_string()),
                ]
            );
        }
        _ => panic!("Expected BuildTask::Template"),
    }
}

#[test]
fn locator_ignores_other_commands() {
    let template = TaskTemplate {
        label: "Build".to_string(),
        command: "gradle build".to_string(),
        args: vec![],
        env: vec![],
        cwd: None,
    };
    assert!(locator_plan(&template).is_none());
}

#[test]
fn adapter_checks() {
    assert_eq!(check_debug_adapter(false, "Java"), Err(DapError::DebuggerNotLoaded));
    assert_eq!(
        check_debug_adapter(true, "Python"),
        Err(DapError::UnknownAdapter("Python".to_string()))
    );
    assert_eq!(check_debug_adapter(true, "Java"), Ok(()));
}

#[test]
fn request_kinds() {
    let launch = object(vec![("request", text("launch"))]);
    let attach = object(vec![("request", text("attach"))]);
    let other = object(vec![("request", text("run"))]);
    let number = object(vec![("request", ConfigValue::Unsigned(1))]);
    let missing = ConfigObject::new();
    assert_eq!(dap_request_kind("Java", &launch), Ok(DebugRequestKind::Launch));
    assert_eq!(dap_request_kind("Java", &attach), Ok(DebugRequestKind::Attach));
    assert_eq!(dap_request_kind("Java", &other), Err(DapError::UnexpectedRequest(text("run"))));
    assert_eq!(
        dap_request_kind("Java", &number),
        Err(DapError::UnexpectedRequest(ConfigValue::Unsigned(1)))
    );
    assert_eq!(dap_request_kind("Java", &missing), Err(DapError::MissingRequest));
    assert_eq!(
        dap_request_kind("Go", &launch),
        Err(DapError::UnknownAdapter("Go".to_string()))
    );
}

#[test]
fn launch_config_completion() {
    let mut c = object(vec![("program", text("MyClass")), ("projectName", text("app"))]);
    let found = launch_program(&c);
    assert_eq!(found, Some(("MyClass".to_string(), Some("app".to_string()))));
    complete_launch_config(&mut c, Some(("MyClass".to_string(), Some("com.example.MyClass".to_string()))));
    assert_eq!(c.get("program"), Some(&text("com.example.MyClass")));
    assert_eq!(c.get("mainClass"), Some(&text("com.example.MyClass")));
    assert_eq!(c.get("request"), Some(&text("launch")));

    // user choices are kept
    let mut c = object(vec![
        ("program", text("A")),
        ("mainClass", text("B")),
        ("request", text("attach")),
    ]);
    complete_launch_config(&mut c, Some(("A".to_string(), None)));
    assert_eq!(c.get("program"), Some(&text("A")));
    assert_eq!(c.get("mainClass"), Some(&text("B")));
    assert_eq!(c.get("request"), Some(&text("attach")));

    // no program: only the request is defaulted
    let mut c = object(vec![("program", ConfigValue::Unsigned(3))]);
    assert_eq!(launch_program(&c), None);
    complete_launch_config(&mut c, None);
    assert_eq!(c.get("mainClass"), None);
    assert_eq!(c.get("request"), Some(&text("launch")));
    assert_eq!(c.entries().len(), 2);
}

#[test]
fn attach_configs() {
    let c = attach_config(true, true, DebugRequest::Attach { process_id: Some(42) }, Some(true)).unwrap();
    assert_eq!(c.get("request"), Some(&text("attach")));
    assert_eq!(c.get("processId"), Some(&ConfigValue::Unsigned(42)));
    assert_eq!(c.get("stopOnEntry"), Some(&ConfigValue::Boolean(true)));
    assert_eq!(c.entries().len(), 3);

    let c = attach_config(true, true, DebugRequest::Attach { process_id: Some(7) }, None).unwrap();
    assert_eq!(c.get("stopOnEntry"), Some(&ConfigValue::Null));

    let c = attach_config(true, true, DebugRequest::Attach { process_id: None }, Some(true)).unwrap();
    assert_eq!(c.get("hostName"), Some(&text("localhost")));
    assert_eq!(c.get("port"), Some(&ConfigValue::Unsigned(5005)));
    assert_eq!(c.get("stopOnEntry"), None);

    assert_eq!(
        attach_config(false, true, DebugRequest::Launch, None).err(),
        Some(DapError::DebuggerNotLoaded)
    );
    assert_eq!(
        attach_config(true, false, DebugRequest::Launch, None).err(),
        Some(DapError::WorkspaceNotInitialized)
    );
    assert_eq!(
        attach_config(true, true, DebugRequest::Launch, None).err(),
        Some(DapError::LaunchUnsupported)
    );

    let tcp = TcpTemplate { port: Some(1234), host: None, timeout: None };
    let c = attach_config(true, true, DebugRequest::Attach { process_id: Some(42) }, Some(false)).unwrap();
    let s = attach_scenario("Java".to_string(), c, tcp);
    assert_eq!(
        json(&s.config),
        json(r#"{"request":"attach","processId":42,"stopOnEntry":false}"#)
    );
    assert_eq!(s.label, "Attach to Java process");
    assert_eq!(s.tcp_connection, Some(tcp));
    assert!(s.build.is_none());
}

#[test]
fn config_object_read_after_write() {
    let mut c = ConfigObject::new();
    assert!(!c.contains_key("a"));
    c.insert("a".to_string(), text("1"));
    c.insert("b".to_string(), ConfigValue::Boolean(false));
    c.insert("a".to_string(), text("2"));
    assert_eq!(c.get("a"), Some(&text("2")));
    assert_eq!(c.get_text("a"), Some("2".to_string()));
    assert_eq!(c.get_text("b"), None);
    assert_eq!(c.entries().len(), 2);
    c.insert_if_absent("a".to_string(), text("3"));
    c.insert_if_absent("c".to_string(), ConfigValue::Raw(json("[1,2]")));
    assert_eq!(c.get("a"), Some(&text("2")));
    assert_eq!(c.get("c"), Some(&ConfigValue::Raw(json("[1,2]"))));
}

#[test]
fn config_text_parsing() {
    let c = parse_config_text(r#"{"program":"Main","port":5,"flag":true,"none":null,"list":[1]}"#)
        .unwrap()
        .unwrap();
    assert_eq!(c.get("program"), Some(&text("Main")));
    assert_eq!(c.get("port"), Some(&ConfigValue::Raw(json("5"))));
    assert_eq!(c.get("flag"), Some(&ConfigValue::Boolean(true)));
    assert_eq!(c.get("none"), Some(&ConfigValue::Null));
    assert_eq!(c.get("list"), Some(&ConfigValue::Raw(json("[1]"))));
    assert_eq!(c.entries().len(), 5);
    assert!(parse_config_text("[1, 2]").unwrap().is_none());
    assert!(parse_config_text("\"text\"").unwrap().is_none());
    assert!(parse_config_text("{not json").is_err());
}

#[test]
fn launch_steps() {
    assert_eq!(begin_launch("Java", false, "{}").err(), Some(DapError::DebuggerNotLoaded));
    assert_eq!(
        begin_launch("Go", true, "{}").err(),
        Some(DapError::UnknownAdapter("Go".to_string()))
    );
    match begin_launch("Java", true, "{oops") {
        Err(DapError::InvalidJson(e)) => assert!(!e.is_empty()),
        _ => panic!("expected InvalidJson"),
    }

    let plan = begin_launch("Java", true, r#"{"program":"Main","projectName":"app"}"#).unwrap();
    assert_eq!(plan.program, Some(("Main".to_string(), Some("app".to_string()))));
    let (out, kind) = finish_launch(plan, Some("com.example.Main".to_string())).unwrap();
    assert_eq!(kind, DebugRequestKind::Launch);
    assert_eq!(
        json(&out),
        json(r#"{"program":"com.example.Main","projectName":"app","mainClass":"com.example.Main","request":"launch"}"#)
    );

    // nothing found: the program stands, and is the main class
    let plan = begin_launch("Java", true, r#"{"program":"Main","request":"attach"}"#).unwrap();
    assert_eq!(plan.program, Some(("Main".to_string(), None)));
    let (out, kind) = finish_launch(plan, None).unwrap();
    assert_eq!(kind, DebugRequestKind::Attach);
    assert_eq!(json(&out), json(r#"{"program":"Main","mainClass":"Main","request":"attach"}"#));

    // an unknown request
    let plan = begin_launch("Java", true, r#"{"request":"run"}"#).unwrap();
    assert_eq!(plan.program, None);
    assert_eq!(
        finish_launch(plan, None).err(),
        Some(DapError::KindUndetermined(Box::new(DapError::UnexpectedRequest(text("run")))))
    );

    // JSON that is not an object has no request
    let plan = begin_launch("Java", true, "[1]").unwrap();
    assert!(plan.config.is_none());
    assert_eq!(
        finish_launch(plan, None).err(),
        Some(DapError::KindUndetermined(Box::new(DapError::MissingRequest)))
    );
    let plan = LaunchPlan { config: None, program: None };
    assert!(finish_launch(plan, None).is_err());
}

#[test]
fn error_messages() {
    assert_eq!(DapError::DebuggerNotLoaded.message(), "Debugger plugin is not loaded");
    assert_eq!(
        DapError::UnknownAdapter("Go".to_string()).message(),
        "Cannot create binary for adapter \"Go\""
    );
    assert_eq!(
        DapError::UnexpectedRequest(text("run")).message(),
        "Unexpected value for `request` key in Java debug adapter configuration: String(\"run\")"
    );
    assert_eq!(
        DapError::MissingRequest.message(),
        "Missing required `request` field in Java debug adapter configuration"
    );
    assert_eq!(DapError::WorkspaceNotInitialized.message(), "LSP workspace not initialized yet");
    assert_eq!(DapError::LaunchUnsupported.message(), "Java Extension doesn't support launching");
    assert_eq!(
        DapError::InvalidJson("bad".to_string()).message(),
        "Invalid JSON configuration: bad"
    );
    assert_eq!(
        DapError::KindUndetermined(Box::new(DapError::MissingRequest)).message(),
        "Failed to determine debug request kind: Missing required `request` field in Java debug adapter configuration"
    );
}

#[test]
fn request_kinds_of_json() {
    assert_eq!(json_request_kind("Java", &json(r#"{"request":"launch"}"#)), Ok(DebugRequestKind::Launch));
    assert_eq!(json_request_kind("Java", &json(r#"{"request":"attach"}"#)), Ok(DebugRequestKind::Attach));
    assert_eq!(
        json_request_kind("Java", &json(r#"{"request":true}"#)),
        Err(DapError::UnexpectedRequest(ConfigValue::Boolean(true)))
    );
    assert_eq!(json_request_kind("Java", &json("{}")), Err(DapError::MissingRequest));
    assert_eq!(json_request_kind("Java", &json("[1]")), Err(DapError::MissingRequest));
    assert_eq!(
        json_request_kind("Go", &json(r#"{"request":"launch"}"#)),
        Err(DapError::UnknownAdapter("Go".to_string()))
    );
    let c = config_from_json(&json(r#"{"a":"x","b":false}"#)).unwrap();
    assert_eq!(c.get("a"), Some(&text("x")));
    assert_eq!(c.get("b"), Some(&ConfigValue::Boolean(false)));
    assert!(config_from_json(&json("3")).is_none());
}

#[test]
fn written_configurations_read_back() {
    let c = attach_config(true, true, DebugRequest::Attach { process_id: None }, None).unwrap();
    let tcp = TcpTemplate { port: None, host: None, timeout: None };
    let s = attach_scenario("Java".to_string(), c, tcp);
    let back = parse_config_text(&s.config).unwrap().unwrap();
    assert_eq!(back.get("request"), Some(&text("attach")));
    assert_eq!(back.get("hostName"), Some(&text("localhost")));
    assert_eq!(back.get("port"), Some(&ConfigValue::Raw(json("5005"))));
    assert_eq!(back.entries().len(), 3);

    let plan = begin_launch("Java", true, r#"{"program":"Main","stopOnEntry":true,"args":null}"#).unwrap();
    let (out, _) = finish_launch(plan, None).unwrap();
    let back = parse_config_text(&out).unwrap().unwrap();
    assert_eq!(back.get("stopOnEntry"), Some(&ConfigValue::Boolean(true)));
    assert_eq!(back.get("args"), Some(&ConfigValue::Null));
    assert_eq!(back.get("mainClass"), Some(&text("Main")));
}
