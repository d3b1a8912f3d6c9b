//! What an invocation through the managed runtime is made of: the entry point
//! to call, the arguments it gets and the options the runtime starts with.
use vstd::prelude::*;
use crate::classpath::{push_all, views};
use crate::config::Config;

verus! {

/// Why an invocation through the managed runtime failed.
#[derive(Debug)]
pub enum InvokeError {
    /// No entry point was given and none is configured.
    NoEntryPoint,
    /// The entry point's class could not be resolved.
    ClassNotFound(String),
    /// The class has no `main` taking a string array.
    EntryPointMissing(String),
    /// The invoked code raised an exception that left the entry point; the
    /// message is the exception's string form.
    UncaughtException(String),
    /// The calling thread could not attach to the runtime.
    RuntimeAttachFailure(String),
    /// The runtime failed in another way.
    Runtime(String),
}

/// The entry point to invoke: the one given, else the configured one.
pub fn entry_point(p: Option<&String>, config: &Config) -> (r: Result<String, InvokeError>)
    ensures
        match p {
            Some(s) => r == Ok::<String, InvokeError>(*s),
            None => match config.entry_point {
                Some(e) => r == Ok::<String, InvokeError>(e),
                None => r == Err::<String, InvokeError>(InvokeError::NoEntryPoint),
            },
        },
{
    match p {
        Some(s) => Ok(s.clone()),
        None => match &config.entry_point {
            Some(e) => Ok(e.clone()),
            None => Err(InvokeError::NoEntryPoint),
        },
    }
}

/// The arguments handed to an invoked entry point: the configured runtime
/// arguments, or none.
pub fn runtime_args(config: &Config) -> (r: Vec<String>)
    ensures
        views(r@) == match config.args.runtime {
            Some(a) => views(a@),
            None => Seq::empty(),
        },
{
    let mut out: Vec<String> = Vec::new();
    match &config.args.runtime {
        Some(a) => push_all(&mut out, a),
        None => {},
    }
    out
}

/// Adds `extra` to the configured runtime arguments, starting a list where
/// there is none.
pub fn add_runtime_args(config: &mut Config, extra: &Vec<String>)
    ensures
        views(final(config).args.runtime.unwrap()@) == match old(config).args.runtime {
            Some(a) => views(a@),
            None => Seq::empty(),
        } + views(extra@),
        final(config).args.runtime.is_some(),
        (Config { args: final(config).args, ..*old(config) }) == *final(config),
        final(config).args.compilation == old(config).args.compilation,
        final(config).args.test == old(config).args.test,
        final(config).args.jvm == old(config).args.jvm,
{
    let mut all = runtime_args(config);
    push_all(&mut all, extra);
    config.args.runtime = Some(all);
}

/// The options the managed runtime starts with: JNI checking, the class path,
/// then the configured runtime flags.
pub open spec fn runtime_options_spec(config: Config, classpath: Seq<char>) -> Seq<Seq<char>> {
    seq!["-Xcheck:jni"@, "-Djava.class.path="@ + classpath] + match config.args.jvm {
        Some(f) => views(f@),
        None => Seq::empty(),
    }
}

/// The options the managed runtime starts with, over the expanded
/// `classpath`.
pub fn runtime_options(config: &Config, classpath: &str) -> (r: Vec<String>)
    ensures
        views(r@) == runtime_options_spec(*config, classpath@),
{
    let mut out: Vec<String> = Vec::new();
    out.push(String::from_str("-Xcheck:jni"));
    let cp = String::from_str("-Djava.class.path=").concat(classpath);
    out.push(cp);
    match &config.args.jvm {
        Some(f) => push_all(&mut out, f),
        None => {},
    }
    assert(views(out@) =~= runtime_options_spec(*config, classpath@));
    out
}

} // verus!
