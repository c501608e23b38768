//! Session-manager control commands, modeled as the argument lists
//! handed to the `tmux` binary.
//!
//! The library pins down exactly which invocation each operation makes;
//! spawning the process and reading its exit status is I/O and stays
//! with the caller. For the existence probe, the process's success
//! status is the answer.

use vstd::prelude::*;

verus! {

/// The arguments that ask whether a session named `name` exists; the
/// invocation's success status is the answer.
pub fn has_session(name: &str) -> (args: Vec<String>)
    ensures
        args.deep_view() == seq!["has-session"@, "-t"@, name@],
{
    let mut args: Vec<String> = Vec::new();
    args.push("has-session".to_owned());
    args.push("-t".to_owned());
    args.push(name.to_owned());
    proof {
        assert(args.deep_view() =~= seq!["has-session"@, "-t"@, name@]);
    }
    args
}

/// The arguments that create a detached session named `name` whose
/// working directory is `path`.
pub fn new_session(name: &str, path: &str) -> (args: Vec<String>)
    ensures
        args.deep_view() == seq!["new-session"@, "-c"@, path@, "-s"@, name@, "-d"@],
{
    let mut args: Vec<String> = Vec::new();
    args.push("new-session".to_owned());
    args.push("-c".to_owned());
    args.push(path.to_owned());
    args.push("-s".to_owned());
    args.push(name.to_owned());
    args.push("-d".to_owned());
    proof {
        assert(args.deep_view() =~= seq!["new-session"@, "-c"@, path@, "-s"@, name@, "-d"@]);
    }
    args
}

/// The arguments that attach the current terminal to session `name`
/// (used outside an existing session).
pub fn attach(name: &str) -> (args: Vec<String>)
    ensures
        args.deep_view() == seq!["attach"@, "-t"@, name@],
{
    let mut args: Vec<String> = Vec::new();
    args.push("attach".to_owned());
    args.push("-t".to_owned());
    args.push(name.to_owned());
    proof {
        assert(args.deep_view() =~= seq!["attach"@, "-t"@, name@]);
    }
    args
}

/// The arguments that switch the running client to session `name`
/// (used from inside an existing session).
pub fn switch(name: &str) -> (args: Vec<String>)
    ensures
        args.deep_view() == seq!["switch"@, "-t"@, name@],
{
    let mut args: Vec<String> = Vec::new();
    args.push("switch".to_owned());
    args.push("-t".to_owned());
    args.push(name.to_owned());
    proof {
        assert(args.deep_view() =~= seq!["switch"@, "-t"@, name@]);
    }
    args
}

} // verus!
