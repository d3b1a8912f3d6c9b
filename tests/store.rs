use lvjb::cache::Cache;
use lvjb::config::Config;
use lvjb::incremental::{check_incremental, filter_stale};

fn names(v: &[&str]) -> Vec<String> {
    v.iter().map(|s| s.to_string()).collect()
}

#[test]
fn build_twice_then_edit_one_file() {
    let mut config = Config::default();
    let files = names(&["src/A.src", "src/B.src"]);
    let contents = vec![Some(b"1".to_vec()), Some(b"2".to_vec())];
    let first = filter_stale(&files, &contents, &mut config);
    assert_eq!(first, files);
    assert_eq!(config.cache.files.len(), 2);

    let second = filter_stale(&files, &contents, &mut config);
    assert!(second.is_empty());

    let edited = vec![Some(b"11".to_vec()), Some(b"2".to_vec())];
    let third = filter_stale(&files, &edited, &mut config);
    assert_eq!(third, names(&["src/A.src"]));
    assert_eq!(config.cache.files.len(), 2);
}

#[test]
fn unseen_file_is_stale() {
    let mut config = Config::default();
    assert!(check_incremental("a/X.java", Some(b"class X {}"), &mut config));
}

#[test]
fn unchanged_file_stale_then_fresh() {
    let mut config = Config::default();
    let content = b"public class Main {}".to_vec();
    assert!(check_incremental("src/Main.java", Some(&content), &mut config));
    assert!(!check_incremental("src/Main.java", Some(&content), &mut config));
    assert!(!check_incremental("src/Main.java", Some(&content), &mut config));
}

#[test]
fn one_changed_byte_is_stale() {
    let mut config = Config::default();
    let mut content = vec![b'x'; 4096];
    assert!(check_incremental("big.java", Some(&content), &mut config));
    content[2048] = b'y';
    assert!(check_incremental("big.java", Some(&content), &mut config));
    assert!(!check_incremental("big.java", Some(&content), &mut config));
}

#[test]
fn unreadable_file_is_always_stale() {
    let mut config = Config::default();
    assert!(check_incremental("gone.java", None, &mut config));
    assert!(check_incremental("gone.java", None, &mut config));
    assert!(config.cache.files.is_empty());
}

#[test]
fn fingerprint_is_xxh3_of_content() {
    let mut config = Config::default();
    check_incremental("h.java", Some(b"hello"), &mut config);
    assert_eq!(config.cache.files.len(), 1);
    assert_eq!(config.cache.files[0].0, "h.java");
    assert_eq!(config.cache.files[0].1, xxhash_rust::xxh3::xxh3_64(b"hello"));
    assert_ne!(config.cache.files[0].1, 0);
}

#[test]
fn observe_updates_in_place() {
    let mut cache = Cache::default();
    assert!(cache.observe("a", 1));
    assert!(cache.observe("b", 2));
    assert!(!cache.observe("a", 1));
    assert!(cache.observe("a", 3));
    assert_eq!(cache.files, vec![("a".to_string(), 3), ("b".to_string(), 2)]);
}

#[test]
fn stored_zero_fingerprint_matches_zero() {
    let mut cache = Cache::default();
    cache.files.push(("p".to_string(), 0));
    assert!(!cache.observe("p", 0));
    assert!(cache.observe("q", 0));
}

#[test]
fn release_and_url_history() {
    let mut cache = Cache::default();
    cache.record_release("out".to_string(), "0.0.1".to_string());
    cache.record_url("https://example.org/lib/x.jar".to_string());
    assert_eq!(cache.releases, vec![Some(("out".to_string(), "0.0.1".to_string()))]);
    assert_eq!(cache.url_libs, vec!["https://example.org/lib/x.jar".to_string()]);
    assert!(cache.files.is_empty());
}

#[test]
fn default_config_values() {
    let c = Config::default();
    assert_eq!(c.jar, "out");
    assert_eq!(c.compiler, "javac");
    assert_eq!(c.src_ext, "java");
    assert_eq!(c.classpath, names(&["bin", "lib/*"]));
    assert!(c.incremental);
    assert_eq!(c.paths.src, "src");
    assert_eq!(c.paths.src_nopkg, "default");
    assert_eq!(c.paths.bin, "bin");
    assert_eq!(c.paths.releases, "releases");
    assert_eq!(c.version, "0.0.1");
    assert_eq!(c.log_level, 0);
    assert!(c.entry_point.is_none());
    assert!(c.args.jvm.is_none());
}
