use zed_java::gradle::{init_script_content, init_script_file_name, Gradle, GradleRun};

fn run(debug: bool, module: Option<&str>, script: Option<&str>) -> GradleRun {
    GradleRun {
        command: "./gradlew".to_string(),
        module: module.map(String::from),
        debug,
        init_script: script.map(String::from),
    }
}

#[test]
fn gradle_run_class() {
    let g = Gradle::new("/root/project".to_string());
    assert_eq!(g.root(), "/root/project");
    let c = g.run_class(&run(false, None, Some("/tmp/zed_run.gradle")), "com.example", "Main", None);
    assert_eq!(c.command, "./gradlew");
    assert_eq!(c.cwd, "/root/project");
    assert_eq!(c.args, vec![":run", "-PmainClass=com.example.Main", "--console=plain", "--no-daemon"]);
    let c = g.run_class(&run(true, Some("app/core"), Some("/tmp/s.gradle")), "", "In", Some("Out"));
    assert_eq!(
        c.args,
        vec![":app:core:run", "-PmainClass=Out$In", "--console=plain", "--no-daemon", "--debug-jvm", "-I", "/tmp/s.gradle"]
    );
    let c = g.run_class(&run(true, None, None), "p", "C", None);
    assert_eq!(c.args, vec![":run", "-PmainClass=p.C", "--console=plain", "--no-daemon", "--debug-jvm"]);
}

#[test]
fn gradle_test_commands() {
    let g = Gradle::new("/r".to_string());
    let c = g.run_test_method(&run(false, Some("m"), Some("/t/zed_run.gradle")), "a.b", "T", Some("O"), "check");
    assert_eq!(
        c.args,
        vec![":m:test", "--tests", "a.b.O$T.check", "--console=plain", "--no-daemon", "-I", "/t/zed_run.gradle"]
    );
    let c = g.run_test_method(&run(true, None, None), "", "T", None, "m");
    assert_eq!(c.args, vec![":test", "--tests", "T.m", "--console=plain", "--no-daemon", "--debug-jvm"]);
    let c = g.run_test_class(&run(false, None, Some("/t/s")), "com.example", "SomeFileTest", None);
    assert!(c.args.contains(&"--console=plain".to_string()));
    assert!(c.args.contains(&"--no-daemon".to_string()));
    let idx = c.args.iter().position(|a| a == "-I").unwrap();
    assert_eq!(c.args[idx + 1], "/t/s");
    assert!(!c.args.contains(&"--debug-jvm".to_string()));
    assert_eq!(c.args[2], "com.example.SomeFileTest");
    let c = g.run_test_class(&run(true, None, Some("/t/d")), "com.example", "SomeFileTest", None);
    assert!(c.args.contains(&"--debug-jvm".to_string()));
    let c = g.run_all_tests(&run(true, Some("x"), Some("/t/d")));
    assert_eq!(c.args, vec![":x:test", "--console=plain", "--no-daemon", "--debug-jvm", "-I", "/t/d"]);
    let c = g.run_all_tests(&run(false, None, None));
    assert_eq!(c.args, vec![":test", "--console=plain", "--no-daemon"]);
    assert_eq!(Gradle::module_marker_files(), vec!["build.gradle", "build.gradle.kts"]);
}

#[test]
fn init_script_texts() {
    assert_eq!(init_script_file_name(None), "zed_run.gradle");
    assert_eq!(init_script_file_name(Some("5006")), "zed_debug_5006.gradle");

    let plain = init_script_content(None);
    assert!(plain.contains("outputs.upToDateWhen { false }"));
    assert!(!plain.contains("debugOptions"));
    assert_eq!(
        plain,
        "allprojects {\n    tasks.withType(Test) {\n        outputs.upToDateWhen { false }\n    }\n}\n"
    );

    let debug = init_script_content(Some("5006"));
    assert!(debug.contains("outputs.upToDateWhen { false }"));
    assert!(debug.contains("debugOptions"));
    assert!(debug.contains("port = 5006"));
    let expected = format!(
        "allprojects {{\n    tasks.withType(Test) {{\n        outputs.upToDateWhen {{ false }}\n{d}    }}\n    tasks.withType(JavaExec) {{\n        outputs.upToDateWhen {{ false }}\n{d}    }}\n}}\n",
        d = "        debugOptions {\n            port = 5006\n        }\n"
    );
    assert_eq!(debug, expected);
}
