use lvjb::config::Config;
use lvjb::plan::{build_roots, default_sources, manifest_text, release_archive_path, ReleaseError};
use lvjb::runtime::{add_runtime_args, entry_point, runtime_args, runtime_options, InvokeError};

fn names(v: &[&str]) -> Vec<String> {
    v.iter().map(|s| s.to_string()).collect()
}

#[test]
fn entry_point_given_or_configured() {
    let mut c = Config::default();
    let given = "app.Main".to_string();
    assert_eq!(entry_point(Some(&given), &c).ok(), Some("app.Main".to_string()));
    assert!(matches!(entry_point(None, &c), Err(InvokeError::NoEntryPoint)));
    c.entry_point = Some("cfg.Main".to_string());
    assert_eq!(entry_point(None, &c).ok(), Some("cfg.Main".to_string()));
    assert_eq!(entry_point(Some(&given), &c).ok(), Some("app.Main".to_string()));
}

#[test]
fn runtime_arguments() {
    let mut c = Config::default();
    assert!(runtime_args(&c).is_empty());
    add_runtime_args(&mut c, &names(&["x", "y"]));
    assert_eq!(runtime_args(&c), names(&["x", "y"]));
    add_runtime_args(&mut c, &names(&["z"]));
    assert_eq!(c.args.runtime, Some(names(&["x", "y", "z"])));
}

#[test]
fn runtime_start_options() {
    let mut c = Config::default();
    assert_eq!(runtime_options(&c, "bin"), names(&["-Xcheck:jni", "-Djava.class.path=bin"]));
    c.args.jvm = Some(names(&["-Xmx1g"]));
    assert_eq!(
        runtime_options(&c, "bin:lib/a.jar"),
        names(&["-Xcheck:jni", "-Djava.class.path=bin:lib/a.jar", "-Xmx1g"])
    );
}

#[test]
fn build_roots_by_package() {
    let mut c = Config::default();
    let all = "all".to_string();
    let pkg = "com.ex".to_string();
    let r = build_roots(Some(&all), &c);
    assert_eq!((r.root.as_str(), r.with_default), ("src", false));
    let r = build_roots(Some(&pkg), &c);
    assert_eq!((r.root.as_str(), r.with_default), ("src/com/ex", true));
    let r = build_roots(None, &c);
    assert_eq!((r.root.as_str(), r.with_default), ("src/default", false));
    c.incremental = false;
    let r = build_roots(Some(&pkg), &c);
    assert_eq!((r.root.as_str(), r.with_default), ("src", false));
    assert_eq!(default_sources(&c), "src/default");
}

#[test]
fn release_names() {
    let mut c = Config::default();
    assert_eq!(release_archive_path(&c), "releases/out-0.0.1.jar");
    assert!(matches!(manifest_text(&c), Err(ReleaseError::NoEntryPoint)));
    c.entry_point = Some("app.Main".to_string());
    assert_eq!(manifest_text(&c).ok(), Some("Main-Class: app.Main\n".to_string()));
}
