use zed_java::workspace::{
    class_file_query, find_project_name, fqcn_from_source, is_skipped_directory,
    package_declaration, package_matches_suffix, project_marker_files, qualified_class_name,
    AncestorDir, DirEntryInfo, EntryKind, SearchStep, WorkspaceSearch,
};

#[test]
fn package_declaration_forms() {
    assert_eq!(
        package_declaration("package com.example;\npublic class MyClass {}"),
        Some("com.example".to_string())
    );
    assert_eq!(
        package_declaration("// header\r\n  package  a.b ;  \r\nclass X {}"),
        Some("a.b".to_string())
    );
    assert_eq!(package_declaration("class X {}\n"), None);
    assert_eq!(package_declaration("packagex;\npackage y"), None);
    assert_eq!(package_declaration("package ;"), Some(String::new()));
    assert_eq!(
        package_declaration("package first;\npackage second;"),
        Some("first".to_string())
    );
}

#[test]
fn class_file_query_parts() {
    let q = class_file_query("example.MyClass$Inner$Deeper");
    assert_eq!(q.class_name, "MyClass");
    assert_eq!(q.file_name, "MyClass.java");
    assert_eq!(q.package_suffix, Some("example".to_string()));
    assert_eq!(q.nested, vec!["Inner".to_string(), "Deeper".to_string()]);

    let q = class_file_query("NonExistentClass");
    assert_eq!(q.class_name, "NonExistentClass");
    assert_eq!(q.package_suffix, None);
    assert!(q.nested.is_empty());

    let q = class_file_query("a.b.c.D");
    assert_eq!(q.package_suffix, Some("a.b.c".to_string()));
}

#[test]
fn names_from_source() {
    let q = class_file_query("example.MyClass$Inner");
    assert_eq!(qualified_class_name("com.example", &q), "com.example.MyClass$Inner");
    assert_eq!(
        fqcn_from_source(&q, Some("package com.example;\npublic class MyClass {}")),
        Some("com.example.MyClass$Inner".to_string())
    );
    assert_eq!(fqcn_from_source(&q, Some("class MyClass {}")), None);
    assert_eq!(fqcn_from_source(&q, None), None);
}

#[test]
fn package_suffix_matching() {
    assert!(package_matches_suffix("com.example", "example"));
    assert!(package_matches_suffix("example", "example"));
    assert!(!package_matches_suffix("com.myexample", "example"));
    assert!(!package_matches_suffix("com.example.sub", "example"));
}

#[test]
fn skipped_directories() {
    for d in [".git", "build", "target", "bin", ".gradle", "node_modules", ".idea", ".settings"] {
        assert!(is_skipped_directory(d));
    }
    assert!(!is_skipped_directory("src"));
    assert!(!is_skipped_directory("builds"));
}

fn dir(path: &str, name: &str) -> DirEntryInfo {
    DirEntryInfo { path: path.to_string(), name: Some(name.to_string()), kind: EntryKind::Directory }
}

fn file(path: &str, name: &str) -> DirEntryInfo {
    DirEntryInfo { path: path.to_string(), name: Some(name.to_string()), kind: EntryKind::File }
}

/// Walks a virtual tree: `listing` gives each directory's entries, `source` each file's text.
fn walk(
    root: &str,
    target: &str,
    listing: &dyn Fn(&str) -> Vec<DirEntryInfo>,
    source: &dyn Fn(&str) -> Option<String>,
) -> Option<String> {
    let q = class_file_query(target);
    let mut search = WorkspaceSearch::new(root.to_string(), q.file_name.clone(), q.package_suffix.clone());
    while let Some(d) = search.next_directory() {
        for entry in listing(&d) {
            match search.visit(entry) {
                SearchStep::Continue => {}
                SearchStep::Abandon => return None,
                SearchStep::Found(p) => return fqcn_from_source(&q, source(&p).as_deref()),
                SearchStep::ReadPackage(p) => {
                    let content = source(&p);
                    if let Some(found) = search.package_read(content) {
                        return fqcn_from_source(&q, source(&found).as_deref());
                    }
                }
            }
        }
    }
    let best = search.best_match()?;
    fqcn_from_source(&q, source(&best).as_deref())
}

#[test]
fn find_fqcn_in_virtual_workspace() {
    let listing = |d: &str| -> Vec<DirEntryInfo> {
        match d {
            "/w" => vec![dir("/w/src", "src"), dir("/w/build", "build")],
            "/w/src" => vec![dir("/w/src/com", "com")],
            "/w/src/com" => vec![dir("/w/src/com/example", "example")],
            "/w/src/com/example" => vec![file("/w/src/com/example/MyClass.java", "MyClass.java")],
            "/w/build" => vec![file("/w/build/MyClass.java", "MyClass.java")],
            _ => vec![],
        }
    };
    let source = |p: &str| -> Option<String> {
        match p {
            "/w/src/com/example/MyClass.java" => Some("package com.example;\npublic class MyClass {}".to_string()),
            _ => None,
        }
    };
    assert_eq!(walk("/w", "example.MyClass", &listing, &source), Some("com.example.MyClass".to_string()));
    assert_eq!(walk("/w", "com.example.MyClass", &listing, &source), Some("com.example.MyClass".to_string()));
    assert_eq!(walk("/w", "example.MyClass$Inner", &listing, &source), Some("com.example.MyClass$Inner".to_string()));
    assert_eq!(walk("/w", "NonExistentClass", &listing, &source), None);
}

#[test]
fn search_keeps_first_candidate() {
    let mut search = WorkspaceSearch::new("/r".to_string(), "A.java".to_string(), Some("x".to_string()));
    assert_eq!(search.next_directory(), Some("/r".to_string()));
    assert_eq!(search.next_directory(), None);
    assert!(matches!(search.visit(file("/r/A.java", "A.java")), SearchStep::ReadPackage(_)));
    assert_eq!(search.package_read(Some("package y;".to_string())), None);
    // nothing was asked for
    assert_eq!(search.package_read(Some("package a.x;".to_string())), None);
    assert!(matches!(search.visit(file("/r/b/A.java", "A.java")), SearchStep::ReadPackage(_)));
    assert_eq!(search.package_read(None), None);
    assert_eq!(search.best_match(), Some("/r/A.java".to_string()));
    assert!(matches!(search.visit(file("/r/c/A.java", "A.java")), SearchStep::ReadPackage(_)));
    assert_eq!(
        search.package_read(Some("package a.x;".to_string())),
        Some("/r/c/A.java".to_string())
    );
    let nameless = DirEntryInfo { path: "/r/?".to_string(), name: None, kind: EntryKind::Directory };
    assert!(matches!(search.visit(nameless), SearchStep::Abandon));
    assert!(matches!(search.visit(file("/r/B.java", "B.java")), SearchStep::Continue));
    assert!(matches!(search.visit(dir("/r/.git", ".git")), SearchStep::Continue));
    assert_eq!(search.next_directory(), None);
    assert!(matches!(search.visit(dir("/r/src", "src")), SearchStep::Continue));
    assert_eq!(search.next_directory(), Some("/r/src".to_string()));
}

#[test]
fn search_without_package_takes_first_file() {
    let mut search = WorkspaceSearch::new("/r".to_string(), "A.java".to_string(), None);
    match search.visit(file("/r/A.java", "A.java")) {
        SearchStep::Found(p) => assert_eq!(p, "/r/A.java"),
        _ => panic!("expected the file to be found"),
    }
}

#[test]
fn project_name_is_nearest_marked_directory() {
    let ancestors = vec![
        AncestorDir { name: Some("java".to_string()), has_build_file: false },
        AncestorDir { name: Some("my-sub-module".to_string()), has_build_file: true },
        AncestorDir { name: Some("root".to_string()), has_build_file: true },
    ];
    assert_eq!(find_project_name(&ancestors), Some("my-sub-module".to_string()));
    let none = vec![AncestorDir { name: Some("x".to_string()), has_build_file: false }];
    assert_eq!(find_project_name(&none), None);
    let nameless = vec![AncestorDir { name: None, has_build_file: true }];
    assert_eq!(find_project_name(&nameless), None);
    assert_eq!(project_marker_files(), vec!["build.gradle", "build.gradle.kts", "pom.xml"]);
}

#[test]
fn corrected_name_is_found_again() {
    let q = class_file_query("example.MyClass$Inner");
    let content = "package com.example;\nclass MyClass {}";
    let corrected = fqcn_from_source(&q, Some(content)).unwrap();
    assert_eq!(corrected, "com.example.MyClass$Inner");
    let q2 = class_file_query(&corrected);
    assert_eq!(q2.file_name, q.file_name);
    assert_eq!(q2.nested, q.nested);
    assert_eq!(q2.package_suffix, Some("com.example".to_string()));
    assert_eq!(fqcn_from_source(&q2, Some(content)), Some(corrected));
}
