use lvjb::classpath::{expand_classpath, is_jar, join_classpath, wildcard_dir};
use lvjb::config::Config;
use lvjb::paths::{class_to_path, forge_sys_path, is_source_file, join, url_file_name, PathType};

fn names(v: &[&str]) -> Vec<String> {
    v.iter().map(|s| s.to_string()).collect()
}

#[test]
fn dotted_names_become_paths() {
    assert_eq!(class_to_path("com.example.app"), "com/example/app");
    assert_eq!(class_to_path("Main"), "Main");
    assert_eq!(class_to_path(""), "");
}

#[test]
fn paths_under_configured_roots() {
    let c = Config::default();
    assert_eq!(forge_sys_path("com/example", &c, PathType::SRC), "src/com/example");
    assert_eq!(forge_sys_path("default", &c, PathType::SRC), "src/default");
    assert_eq!(forge_sys_path("x.jar", &c, PathType::LIB), "lib/x.jar");
    assert_eq!(forge_sys_path("out-1.jar", &c, PathType::RELEASES), "releases/out-1.jar");
    assert_eq!(forge_sys_path("T", &c, PathType::TEST), "test/T");
    assert_eq!(forge_sys_path("d", &c, PathType::DOCS), "docs/d");
    assert_eq!(forge_sys_path("b", &c, PathType::BIN), "bin/b");
    assert_eq!(forge_sys_path("n", &c, PathType::SRCNOPKG), "default/n");
}

#[test]
fn join_rules() {
    assert_eq!(join("a", "b"), "a/b");
    assert_eq!(join("a/", "b"), "a/b");
    assert_eq!(join("", "b"), "b");
    assert_eq!(join("a", "/abs"), "/abs");
}

#[test]
fn source_file_names() {
    assert!(is_source_file("Main.java", "java"));
    assert!(!is_source_file("Main.class", "java"));
    assert!(!is_source_file("va", "java"));
}

#[test]
fn download_file_names() {
    assert_eq!(url_file_name("https://repo.example.org/libs/gson-2.10.jar"), "gson-2.10.jar");
    assert_eq!(url_file_name("plain.jar"), "plain.jar");
    assert_eq!(url_file_name("https://x.org/"), "");
}

#[test]
fn wildcard_entries() {
    assert_eq!(wildcard_dir("lib/*"), Some("lib".to_string()));
    assert_eq!(wildcard_dir("bin"), None);
    assert_eq!(wildcard_dir("/*"), Some("".to_string()));
}

#[test]
fn jar_extension() {
    assert!(is_jar("lib/a.jar"));
    assert!(!is_jar("lib/.jar"));
    assert!(!is_jar(".jar"));
    assert!(!is_jar("lib/a.jarx"));
    assert!(is_jar("a..jar"));
}

#[test]
fn classpath_expansion() {
    let paths = names(&["bin", "lib/*", "extra/c.jar"]);
    let listings = vec![vec![], names(&["lib/a.jar", "lib/readme.txt", "lib/b.jar"]), vec![]];
    assert_eq!(expand_classpath(&paths, &listings), "bin:lib/a.jar:lib/b.jar:extra/c.jar");
}

#[test]
fn classpath_expansion_empty_dir() {
    let paths = names(&["lib/*"]);
    let listings = vec![vec![]];
    assert_eq!(expand_classpath(&paths, &listings), "");
    assert_eq!(join_classpath(&names(&["a"])), "a");
    assert_eq!(join_classpath(&vec![]), "");
}
