//! The compile dispatcher: pre-build hooks, one compiler run over the whole
//! file batch, post-build hooks. It decides what to run next from what the
//! previous run ended with; the caller runs the processes.
use vstd::prelude::*;
use crate::classpath::{push_all, views};
use crate::config::Config;

verus! {

/// Why a compile dispatch failed.
#[derive(Debug)]
pub enum CompileError {
    /// A hook exited unsuccessfully, with its exit code if it had one.
    HookFailure { command: String, code: Option<i32> },
    /// A hook could not be started.
    HookSpawnFailure { command: String, cause: String },
    /// The compiler exited unsuccessfully, with its exit code if it had one.
    ToolFailure(Option<i32>),
    /// The compiler could not be started.
    SpawnFailure(String),
}

/// How a process run ended.
#[derive(Debug)]
pub enum ProcessEvent {
    /// The process ran and exited, with its exit code if it had one.
    Exited(Option<i32>),
    /// The process could not be started.
    SpawnFailed(String),
}

/// Whether a process run succeeded: it exited with code zero.
pub open spec fn succeeded(ev: ProcessEvent) -> bool {
    ev == ProcessEvent::Exited(Some(0i32))
}

/// Where a dispatch stands.
#[derive(Debug)]
pub enum Stage {
    /// The pre-build hook at this index runs next.
    PreHook(usize),
    /// The compiler runs next.
    Compile,
    /// The post-build hook at this index runs next.
    PostHook(usize),
    /// The dispatch is over, with this result.
    Finished(Result<(), CompileError>),
}

/// What the caller is asked to do next.
#[derive(Debug)]
pub enum Action {
    /// Run this hook command through the shell.
    RunHook(String),
    /// Run the dispatch's `program` with its `args`.
    RunCompiler,
    /// Nothing more to run.
    Done,
}

/// The arguments of the compiler run: `-cp <classpath>` where the configured
/// classpath is not empty, `-d <bin>`, the files, then the extra compilation
/// arguments.
pub open spec fn compiler_args_spec(files: Seq<Seq<char>>, config: Config, classpath: Seq<char>) -> Seq<Seq<char>> {
    let cp = if config.classpath@.len() > 0 { seq!["-cp"@, classpath] } else { Seq::empty() };
    let extra = match config.args.compilation {
        Some(x) => views(x@),
        None => Seq::empty(),
    };
    cp + seq!["-d"@, config.paths.bin@] + files + extra
}

/// The arguments of the compiler run over `files`, with the expanded
/// `classpath`.
pub fn compiler_args(files: &Vec<String>, config: &Config, classpath: &str) -> (r: Vec<String>)
    ensures
        views(r@) == compiler_args_spec(views(files@), *config, classpath@),
{
    let mut out: Vec<String> = Vec::new();
    if config.classpath.len() > 0 {
        out.push(String::from_str("-cp"));
        out.push(String::from_str(classpath));
    }
    out.push(String::from_str("-d"));
    out.push(config.paths.bin.clone());
    push_all(&mut out, files);
    match &config.args.compilation {
        Some(x) => push_all(&mut out, x),
        None => {},
    }
    assert(views(out@) =~= compiler_args_spec(views(files@), *config, classpath@));
    out
}

/// A compile dispatch over one batch of files.
#[derive(Debug)]
pub struct CompileDispatch {
    pub pre: Vec<String>,
    pub post: Vec<String>,
    pub program: String,
    pub args: Vec<String>,
    pub has_files: bool,
    pub stage: Stage,
}

/// The stage that comes once the pre-build hooks from index `i` on are all
/// that is left: the next hook, else the compiler, else, with no files to
/// compile, success.
pub open spec fn pre_stage(pre_len: nat, has_files: bool, i: nat) -> Stage {
    if i < pre_len {
        Stage::PreHook(i as usize)
    } else if has_files {
        Stage::Compile
    } else {
        Stage::Finished(Ok(()))
    }
}

/// The stage that comes once the post-build hooks from index `i` on are all
/// that is left.
pub open spec fn post_stage(post_len: nat, i: nat) -> Stage {
    if i < post_len {
        Stage::PostHook(i as usize)
    } else {
        Stage::Finished(Ok(()))
    }
}

impl CompileDispatch {
    /// Every hook index in range, and no compiler run without files.
    pub open spec fn wf(&self) -> bool {
        match self.stage {
            Stage::PreHook(i) => i < self.pre@.len(),
            Stage::Compile => self.has_files,
            Stage::PostHook(i) => i < self.post@.len(),
            Stage::Finished(_) => true,
        }
    }

    /// The stage after a run that ended with `ev`.
    pub open spec fn next_stage(&self, ev: ProcessEvent) -> Stage {
        match self.stage {
            Stage::PreHook(i) => if succeeded(ev) {
                pre_stage(self.pre@.len(), self.has_files, (i + 1) as nat)
            } else {
                Stage::Finished(Err(hook_error(self.pre@[i as int], ev)))
            },
            Stage::Compile => if succeeded(ev) {
                post_stage(self.post@.len(), 0)
            } else {
                Stage::Finished(Err(match ev {
                    ProcessEvent::Exited(code) => CompileError::ToolFailure(code),
                    ProcessEvent::SpawnFailed(cause) => CompileError::SpawnFailure(cause),
                }))
            },
            Stage::PostHook(i) => if succeeded(ev) {
                post_stage(self.post@.len(), (i + 1) as nat)
            } else {
                Stage::Finished(Err(hook_error(self.post@[i as int], ev)))
            },
            Stage::Finished(r) => Stage::Finished(r),
        }
    }

    /// The stage after runs that ended with `events`, in order.
    pub open spec fn run_events(self, events: Seq<ProcessEvent>) -> Stage
        decreases events.len(),
    {
        if events.len() == 0 {
            self.stage
        } else {
            (CompileDispatch { stage: self.next_stage(events[0]), ..self }).run_events(events.drop_first())
        }
    }

    /// Starts a dispatch that compiles `files` with the settings of `config`;
    /// `classpath` is the expanded classpath.
    pub fn new(files: &Vec<String>, config: &Config, classpath: &str) -> (r: CompileDispatch)
        ensures
            r.wf(),
            views(r.pre@) == views(config.pre_build_cmds@),
            views(r.post@) == views(config.post_build_cmds@),
            r.program == config.compiler,
            views(r.args@) == compiler_args_spec(views(files@), *config, classpath@),
            r.has_files == (files@.len() > 0),
            r.stage == pre_stage(config.pre_build_cmds@.len(), files@.len() > 0, 0),
    {
        let has_files = files.len() > 0;
        let stage = if config.pre_build_cmds.len() > 0 {
            Stage::PreHook(0)
        } else if has_files {
            Stage::Compile
        } else {
            Stage::Finished(Ok(()))
        };
        let mut pre: Vec<String> = Vec::new();
        push_all(&mut pre, &config.pre_build_cmds);
        let mut post: Vec<String> = Vec::new();
        push_all(&mut post, &config.post_build_cmds);
        assert(pre@.len() == views(pre@).len());
        assert(post@.len() == views(post@).len());
        CompileDispatch {
            pre,
            post,
            program: config.compiler.clone(),
            args: compiler_args(files, config, classpath),
            has_files,
            stage,
        }
    }

    /// What to run next.
    pub fn action(&self) -> (r: Action)
        requires
            self.wf(),
        ensures
            match self.stage {
                Stage::PreHook(i) => r == Action::RunHook(self.pre@[i as int]),
                Stage::Compile => r == Action::RunCompiler,
                Stage::PostHook(i) => r == Action::RunHook(self.post@[i as int]),
                Stage::Finished(_) => r == Action::Done,
            },
    {
        match &self.stage {
            Stage::PreHook(i) => Action::RunHook(self.pre[*i].clone()),
            Stage::Compile => Action::RunCompiler,
            Stage::PostHook(i) => Action::RunHook(self.post[*i].clone()),
            Stage::Finished(_) => Action::Done,
        }
    }

    /// Takes in how the run asked for by `action` ended.
    pub fn on_event(&mut self, ev: ProcessEvent)
        requires
            old(self).wf(),
        ensures
            final(self).wf(),
            (CompileDispatch { stage: final(self).stage, ..*old(self) }) == *final(self),
            final(self).stage == old(self).next_stage(ev),
    {
        let ok = match &ev {
            ProcessEvent::Exited(Some(c)) => *c == 0,
            _ => false,
        };
        let ghost expected = self.next_stage(ev);
        let next = match &self.stage {
            Stage::Finished(_) => {
                return;
            },
            Stage::PreHook(i) => {
                let i = *i;
                if ok {
                    if i < self.pre.len() - 1 {
                        Stage::PreHook(i + 1)
                    } else if self.has_files {
                        Stage::Compile
                    } else {
                        Stage::Finished(Ok(()))
                    }
                } else {
                    Stage::Finished(Err(make_hook_error(self.pre[i].clone(), ev)))
                }
            },
            Stage::Compile => {
                if ok {
                    if self.post.len() > 0 {
                        Stage::PostHook(0)
                    } else {
                        Stage::Finished(Ok(()))
                    }
                } else {
                    Stage::Finished(Err(match ev {
                        ProcessEvent::Exited(code) => CompileError::ToolFailure(code),
                        ProcessEvent::SpawnFailed(cause) => CompileError::SpawnFailure(cause),
                    }))
                }
            },
            Stage::PostHook(i) => {
                let i = *i;
                if ok {
                    if i < self.post.len() - 1 {
                        Stage::PostHook(i + 1)
                    } else {
                        Stage::Finished(Ok(()))
                    }
                } else {
                    Stage::Finished(Err(make_hook_error(self.post[i].clone(), ev)))
                }
            },
        };
        self.stage = next;
    }

    /// The result of a finished dispatch.
    pub fn into_result(self) -> (r: Result<(), CompileError>)
        requires
            self.stage is Finished,
        ensures
            self.stage == Stage::Finished(r),
    {
        match self.stage {
            Stage::Finished(r) => r,
            _ => Ok(()),
        }
    }
}

/// The error of a hook `command` whose run ended unsuccessfully with `ev`.
pub open spec fn hook_error(command: String, ev: ProcessEvent) -> CompileError {
    match ev {
        ProcessEvent::Exited(code) => CompileError::HookFailure { command, code },
        ProcessEvent::SpawnFailed(cause) => CompileError::HookSpawnFailure { command, cause },
    }
}

fn make_hook_error(command: String, ev: ProcessEvent) -> (r: CompileError)
    ensures
        r == hook_error(command, ev),
{
    match ev {
        ProcessEvent::Exited(code) => CompileError::HookFailure { command, code },
        ProcessEvent::SpawnFailed(cause) => CompileError::HookSpawnFailure { command, cause },
    }
}

/// A dispatch over an empty file set never asks for a compiler run, whatever
/// its hooks end with.
pub proof fn lemma_empty_batch_never_compiles(d: CompileDispatch, events: Seq<ProcessEvent>)
    requires
        d.wf(),
        !d.has_files,
    ensures
        d.run_events(events) != Stage::Compile,
    decreases events.len(),
{
    if events.len() > 0 {
        let d1 = CompileDispatch { stage: d.next_stage(events[0]), ..d };
        lemma_empty_batch_never_compiles(d1, events.drop_first());
    }
}

/// A dispatch over an empty file set whose pre-build hooks all succeed ends in
/// success, once per hook, without a compiler run.
pub proof fn lemma_empty_batch_succeeds(d: CompileDispatch, events: Seq<ProcessEvent>)
    requires
        d.wf(),
        d.pre@.len() <= usize::MAX,
        d.stage == pre_stage(d.pre@.len(), false, 0),
        !d.has_files,
        events.len() == d.pre@.len(),
        forall|i: int| 0 <= i < events.len() ==> succeeded(#[trigger] events[i]),
    ensures
        d.run_events(events) == Stage::Finished(Ok::<(), CompileError>(())),
{
    lemma_empty_hooks_from(d, events, 0);
}

proof fn lemma_empty_hooks_from(d: CompileDispatch, events: Seq<ProcessEvent>, k: nat)
    requires
        d.wf(),
        d.pre@.len() <= usize::MAX,
        d.stage == pre_stage(d.pre@.len(), false, k),
        !d.has_files,
        k <= d.pre@.len(),
        events.len() == d.pre@.len() - k,
        forall|i: int| 0 <= i < events.len() ==> succeeded(#[trigger] events[i]),
    ensures
        d.run_events(events) == Stage::Finished(Ok::<(), CompileError>(())),
    decreases events.len(),
{
    if events.len() > 0 {
        assert(succeeded(events[0]));
        let d1 = CompileDispatch { stage: d.next_stage(events[0]), ..d };
        assert(d1.stage == pre_stage(d.pre@.len(), false, k + 1));
        assert forall|i: int| 0 <= i < events.drop_first().len() implies succeeded(
            #[trigger] events.drop_first()[i],
        ) by {
            assert(succeeded(events[i + 1]));
        }
        lemma_empty_hooks_from(d1, events.drop_first(), k + 1);
    }
}

} // verus!
