use zed_java::command_line::{get_fqcn, parse_args};

#[test]
fn test_parse_args_and_get_fqcn() {
    // Test run-class
    let cmd = r#"EXT="..."; [ -n "$LOCALAPPDATA" ] && EXT="..."; "$EXT/proxy-bin/java-task-helper" run-class "/path/to/File.java" "com.example" "MyClass" """#;
    let args = parse_args(cmd).unwrap();
    assert_eq!(args[0], "run-class");
    assert_eq!(args[1], "/path/to/File.java");
    assert_eq!(args[2], "com.example");
    assert_eq!(args[3], "MyClass");
    assert_eq!(args[4], "");
    assert_eq!(
        get_fqcn(&args[2], &args[3], &args[4]),
        "com.example.MyClass"
    );

    // Test run-test-method
    let cmd = r#"EXT="..."; .../java-task-helper run-test-method "/path/to/File.java" "com.example" "MyClass" "Outer" "myTestMethod""#;
    let args = parse_args(cmd).unwrap();
    assert_eq!(args[0], "run-test-method");
    assert_eq!(args[1], "/path/to/File.java");
    assert_eq!(args[2], "com.example");
    assert_eq!(args[3], "MyClass");
    assert_eq!(args[4], "Outer");
    assert_eq!(args[5], "myTestMethod");
    assert_eq!(
        get_fqcn(&args[2], &args[3], &args[4]),
        "com.example.Outer$MyClass"
    );
}

#[test]
fn parse_args_reads_each_subcommand() {
    let args = parse_args(r#"helper run-test-class "/a/B.java" "a" "B" """#).unwrap();
    assert_eq!(args, vec!["run-test-class", "/a/B.java", "a", "B", ""]);
    let args = parse_args(r#"helper run-class "x""#).unwrap();
    assert_eq!(args, vec!["run-class", "x"]);
}

#[test]
fn parse_args_prefers_run_class_marker() {
    // " run-class " is looked for first, wherever it stands.
    let args = parse_args(r#"a run-test-method "m" b run-class "c""#).unwrap();
    assert_eq!(args, vec!["run-class", "c"]);
}

#[test]
fn parse_args_without_marker_is_none() {
    assert!(parse_args("java-task-helper build \"x\"").is_none());
    assert!(parse_args("run-class \"x\"").is_none());
    assert!(parse_args("").is_none());
}

#[test]
fn parse_args_drops_unclosed_field_and_unquoted_text() {
    let args = parse_args(r#"h run-class plain "one" between "two" "unclosed"#).unwrap();
    assert_eq!(args, vec!["run-class", "one", "two"]);
    let args = parse_args("h run-class ").unwrap();
    assert_eq!(args, vec!["run-class"]);
}

#[test]
fn get_fqcn_forms() {
    assert_eq!(get_fqcn("", "Main", ""), "Main");
    assert_eq!(get_fqcn("", "Inner", "Outer"), "Outer$Inner");
    assert_eq!(get_fqcn("p.q", "Inner", "Outer"), "p.q.Outer$Inner");
    assert_eq!(
        get_fqcn("p", "C", "${ZED_CUSTOM_java_outer_class_name:-}"),
        "p.C"
    );
    assert_eq!(
        get_fqcn("p", "C", "${ZED_CUSTOM_java_outer_class_name:-}"),
        get_fqcn("p", "C", "")
    );
}

#[test]
fn quoted_round_trip_example() {
    let fields = ["/path/to/File.java", "com.example", "MyClass", "", "myTest"];
    let mut cmd = String::from("prefix run-test-method");
    for f in fields.iter() {
        cmd.push_str(" \"");
        cmd.push_str(f);
        cmd.push('"');
    }
    let args = parse_args(&cmd).unwrap();
    assert_eq!(args[0], "run-test-method");
    assert_eq!(&args[1..], &fields[..]);
}

#[test]
fn run_class_arguments_read_back() {
    let fields = ["/p/Main.java", "com.example", "Main", "with space"];
    let joined: Vec<String> = fields.iter().map(|f| format!("\"{}\"", f)).collect();
    let cmd = format!("h run-class {}", joined.join(" "));
    let args = parse_args(&cmd).unwrap();
    assert_eq!(args[0], "run-class");
    assert_eq!(&args[1..], &fields[..]);
    assert_eq!(parse_args("h run-class "), Some(vec!["run-class".to_string()]));
}
