use lvjb::cli::{parse_args, CliCommand};

fn argv(v: &[&str]) -> Vec<String> {
    std::iter::once("lvjb").chain(v.iter().copied()).map(|s| s.to_string()).collect()
}

#[test]
fn without_a_project_only_init_and_help() {
    assert!(matches!(parse_args(&argv(&["init"]), false), CliCommand::Init));
    assert!(matches!(parse_args(&argv(&["--help"]), false), CliCommand::Help));
    assert!(matches!(parse_args(&argv(&["build"]), false), CliCommand::NotAProject));
    assert!(matches!(parse_args(&argv(&[]), false), CliCommand::NotAProject));
}

#[test]
fn simple_commands() {
    assert!(matches!(parse_args(&argv(&["test"]), true), CliCommand::Test));
    assert!(matches!(parse_args(&argv(&["clean"]), true), CliCommand::Clean));
    assert!(matches!(parse_args(&argv(&["release"]), true), CliCommand::Release));
    assert!(matches!(parse_args(&argv(&["help"]), true), CliCommand::Help));
    assert!(matches!(parse_args(&argv(&[]), true), CliCommand::NoCommand));
    assert!(matches!(parse_args(&argv(&["frob"]), true), CliCommand::Unrecognized(ref c) if c == "frob"));
}

#[test]
fn commands_with_an_argument() {
    assert!(matches!(parse_args(&argv(&["initpkg", "com.ex"]), true), CliCommand::InitPkg(ref p) if p == "com.ex"));
    assert!(matches!(parse_args(&argv(&["docgen", "Main"]), true), CliCommand::Docgen(ref p) if p == "Main"));
    assert!(matches!(parse_args(&argv(&["curl", "http://x/a.jar"]), true), CliCommand::Curl(ref p) if p == "http://x/a.jar"));
    assert!(matches!(parse_args(&argv(&["curl"]), true), CliCommand::MissingArgument(ref w) if w == "curl"));
    assert!(matches!(parse_args(&argv(&["initpkg"]), true), CliCommand::MissingArgument(ref w) if w == "initpkg"));
}

#[test]
fn build_arguments() {
    match parse_args(&argv(&["build", "com.ex", "--re"]), true) {
        CliCommand::Build { pkg, full } => {
            assert_eq!(pkg, Some("com.ex".to_string()));
            assert!(full);
        }
        other => panic!("unexpected {:?}", other),
    }
    match parse_args(&argv(&["build"]), true) {
        CliCommand::Build { pkg, full } => {
            assert_eq!(pkg, None);
            assert!(!full);
        }
        other => panic!("unexpected {:?}", other),
    }
}

#[test]
fn run_arguments() {
    match parse_args(&argv(&["run", "app.Main", "--", "a", "b"]), true) {
        CliCommand::Run { entry, extra } => {
            assert_eq!(entry, Some("app.Main".to_string()));
            assert_eq!(extra, Some(vec!["a".to_string(), "b".to_string()]));
        }
        other => panic!("unexpected {:?}", other),
    }
    match parse_args(&argv(&["run", "--", "x"]), true) {
        CliCommand::Run { entry, extra } => {
            assert_eq!(entry, None);
            assert_eq!(extra, Some(vec!["x".to_string()]));
        }
        other => panic!("unexpected {:?}", other),
    }
    match parse_args(&argv(&["run"]), true) {
        CliCommand::Run { entry, extra } => {
            assert_eq!(entry, None);
            assert_eq!(extra, None);
        }
        other => panic!("unexpected {:?}", other),
    }
}
