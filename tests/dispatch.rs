use lvjb::config::Config;
use lvjb::dispatch::{compiler_args, Action, CompileDispatch, CompileError, ProcessEvent, Stage};

fn names(v: &[&str]) -> Vec<String> {
    v.iter().map(|s| s.to_string()).collect()
}

#[test]
fn empty_file_set_is_a_no_op() {
    let c = Config::default();
    let d = CompileDispatch::new(&vec![], &c, "bin");
    assert!(matches!(d.action(), Action::Done));
    assert!(d.into_result().is_ok());
}

#[test]
fn empty_file_set_runs_pre_hooks_only() {
    let mut c = Config::default();
    c.pre_build_cmds = names(&["echo pre"]);
    c.post_build_cmds = names(&["echo post"]);
    let mut d = CompileDispatch::new(&vec![], &c, "bin");
    assert!(matches!(d.action(), Action::RunHook(ref h) if h == "echo pre"));
    d.on_event(ProcessEvent::Exited(Some(0)));
    assert!(matches!(d.action(), Action::Done));
    assert!(d.into_result().is_ok());
}

#[test]
fn full_dispatch_order() {
    let mut c = Config::default();
    c.pre_build_cmds = names(&["lint", "gen"]);
    c.post_build_cmds = names(&["pack"]);
    let files = names(&["src/A.java"]);
    let mut d = CompileDispatch::new(&files, &c, "bin:lib/x.jar");
    assert!(matches!(d.action(), Action::RunHook(ref h) if h == "lint"));
    d.on_event(ProcessEvent::Exited(Some(0)));
    assert!(matches!(d.action(), Action::RunHook(ref h) if h == "gen"));
    d.on_event(ProcessEvent::Exited(Some(0)));
    assert!(matches!(d.action(), Action::RunCompiler));
    assert_eq!(d.program, "javac");
    d.on_event(ProcessEvent::Exited(Some(0)));
    assert!(matches!(d.action(), Action::RunHook(ref h) if h == "pack"));
    d.on_event(ProcessEvent::Exited(Some(0)));
    assert!(matches!(d.stage, Stage::Finished(Ok(()))));
    assert!(d.into_result().is_ok());
}

#[test]
fn failing_pre_hook_aborts() {
    let mut c = Config::default();
    c.pre_build_cmds = names(&["false", "never"]);
    let mut d = CompileDispatch::new(&names(&["A.java"]), &c, "bin");
    d.on_event(ProcessEvent::Exited(Some(1)));
    assert!(matches!(d.action(), Action::Done));
    match d.into_result() {
        Err(CompileError::HookFailure { command, code }) => {
            assert_eq!(command, "false");
            assert_eq!(code, Some(1));
        }
        _ => panic!("expected a hook failure"),
    }
}

#[test]
fn unstartable_hook() {
    let mut c = Config::default();
    c.post_build_cmds = names(&["x"]);
    let mut d = CompileDispatch::new(&names(&["A.java"]), &c, "bin");
    d.on_event(ProcessEvent::Exited(Some(0)));
    d.on_event(ProcessEvent::SpawnFailed("no shell".to_string()));
    match d.into_result() {
        Err(CompileError::HookSpawnFailure { command, cause }) => {
            assert_eq!(command, "x");
            assert_eq!(cause, "no shell");
        }
        _ => panic!("expected a hook spawn failure"),
    }
}

#[test]
fn compiler_failure_status() {
    let c = Config::default();
    let mut d = CompileDispatch::new(&names(&["A.java"]), &c, "bin");
    assert!(matches!(d.action(), Action::RunCompiler));
    d.on_event(ProcessEvent::Exited(Some(2)));
    assert!(matches!(d.into_result(), Err(CompileError::ToolFailure(Some(2)))));
}

#[test]
fn compiler_killed_by_signal() {
    let c = Config::default();
    let mut d = CompileDispatch::new(&names(&["A.java"]), &c, "bin");
    d.on_event(ProcessEvent::Exited(None));
    assert!(matches!(d.into_result(), Err(CompileError::ToolFailure(None))));
}

#[test]
fn compiler_not_startable() {
    let c = Config::default();
    let mut d = CompileDispatch::new(&names(&["A.java"]), &c, "bin");
    d.on_event(ProcessEvent::SpawnFailed("not found".to_string()));
    assert!(matches!(d.into_result(), Err(CompileError::SpawnFailure(ref m)) if m == "not found"));
}

#[test]
fn compiler_argument_list() {
    let mut c = Config::default();
    c.args.compilation = Some(names(&["-Xlint"]));
    let files = names(&["src/A.java", "src/B.java"]);
    let args = compiler_args(&files, &c, "bin:lib/x.jar");
    assert_eq!(args, names(&["-cp", "bin:lib/x.jar", "-d", "bin", "src/A.java", "src/B.java", "-Xlint"]));
}

#[test]
fn compiler_arguments_without_classpath() {
    let mut c = Config::default();
    c.classpath = vec![];
    let args = compiler_args(&names(&["A.java"]), &c, "");
    assert_eq!(args, names(&["-d", "bin", "A.java"]));
}
