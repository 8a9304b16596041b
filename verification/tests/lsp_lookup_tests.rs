use zed_java::lsp_lookup::{lsp_class_query, select_symbol, LspSymbol};

fn sym(name: &str, container: Option<&str>, uri: &str) -> LspSymbol {
    LspSymbol {
        name: name.to_string(),
        container_name: container.map(String::from),
        uri: uri.to_string(),
    }
}

#[test]
fn query_for_program_names() {
    let q = lsp_class_query("wrong.pkg.MyClass$Inner").unwrap();
    assert_eq!(q.outer_class_name, "MyClass");
    assert_eq!(q.nested, vec!["Inner".to_string()]);
    let q = lsp_class_query("MyClass").unwrap();
    assert_eq!(q.outer_class_name, "MyClass");
    assert!(q.nested.is_empty());
    assert!(lsp_class_query("/path/to/Main").is_none());
    assert!(lsp_class_query("a\\b").is_none());
    assert!(lsp_class_query("${file}").is_none());
    assert!(lsp_class_query("com.example.").is_none());
    assert!(lsp_class_query("com.example.1Main").is_none());
    assert!(lsp_class_query("").is_none());
}

#[test]
fn first_accepted_symbol_wins() {
    let q = lsp_class_query("MyClass$Inner").unwrap();
    let symbols = vec![
        sym("Other", Some("x"), "file:///w/app/src/Other.java"),
        sym("MyClass", None, "file:///w/app/src/MyClass.java"),
        sym("MyClass", Some("com.example"), "file:///w/lib/src/MyClass.java"),
        sym("MyClass", Some("com.app"), "file:///w/app/src/MyClass.java"),
    ];
    assert_eq!(
        select_symbol(&symbols, &q, None),
        Some("com.example.MyClass$Inner".to_string())
    );
    assert_eq!(
        select_symbol(&symbols, &q, Some("app")),
        Some("com.app.MyClass$Inner".to_string())
    );
    assert_eq!(
        select_symbol(&symbols, &q, Some("org.w.app")),
        Some("com.app.MyClass$Inner".to_string())
    );
    assert_eq!(select_symbol(&symbols, &q, Some("missing")), None);
    assert_eq!(select_symbol(&vec![], &q, None), None);
}

#[test]
fn empty_container_gives_simple_name() {
    let q = lsp_class_query("Main").unwrap();
    let symbols = vec![sym("Main", Some(""), "file:///w/Main.java")];
    assert_eq!(select_symbol(&symbols, &q, None), Some("Main".to_string()));
}
