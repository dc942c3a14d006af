use vstd::prelude::*;

verus! {

/// What running a command comes to.
#[derive(Debug, Clone)]
pub enum Invocation {
    /// A dry run: nothing is started, and the command counts as successful.
    Skipped,
    /// Start `program` with `args`, in `dir` when one is given, with the
    /// environment variables `envs` added.
    Run { program: String, args: Vec<String>, dir: Option<String>, envs: Vec<(String, String)> },
}

/// The words of a command line that are not empty.
pub open spec fn nonempty_words(words: Seq<String>) -> Seq<String>
    decreases words.len(),
{
    if words.len() == 0 {
        words
    } else if words.last()@.len() > 0 {
        nonempty_words(words.drop_last()).push(words.last())
    } else {
        nonempty_words(words.drop_last())
    }
}

fn do_call(command: &[String], dir: Option<String>, envs: Vec<(String, String)>, dry_run: bool) -> (r:
    Invocation)
    requires
        dry_run || command@.len() > 0,
    ensures
        dry_run ==> r is Skipped,
        !dry_run ==> (r matches Invocation::Run { program, args, dir: d, envs: e } && program
            == command@[0] && args@ == nonempty_words(command@.skip(1)) && d == dir && e@
            == envs@),
{
    if dry_run {
        return Invocation::Skipped;
    }
    let mut args: Vec<String> = Vec::new();
    let mut i: usize = 1;
    while i < command.len()
        invariant
            1 <= i <= command@.len(),
            args@ == nonempty_words(command@.subrange(1, i as int)),
        decreases command@.len() - i,
    {
        assert(command@.subrange(1, i + 1).drop_last() =~= command@.subrange(1, i as int));
        if command[i].as_str().unicode_len() > 0 {
            args.push(command[i].clone());
        }
        i += 1;
    }
    assert(command@.subrange(1, i as int) =~= command@.skip(1));
    Invocation::Run { program: command[0].clone(), args, dir, envs }
}

/// The invocation of a command line in the current directory: its first
/// word is the program, the other non-empty words its arguments.
pub fn call(command: &[String], dry_run: bool) -> (r: Invocation)
    requires
        dry_run || command@.len() > 0,
    ensures
        dry_run ==> r is Skipped,
        !dry_run ==> (r matches Invocation::Run { program, args, dir, envs } && program
            == command@[0] && args@ == nonempty_words(command@.skip(1)) && dir is None && envs@.len()
            == 0),
{
    do_call(command, None, Vec::new(), dry_run)
}

/// The invocation of a command line in the directory `path`.
pub fn call_on_path(command: &[String], path: &str, dry_run: bool) -> (r: Invocation)
    requires
        dry_run || command@.len() > 0,
    ensures
        dry_run ==> r is Skipped,
        !dry_run ==> (r matches Invocation::Run { program, args, dir, envs } && program
            == command@[0] && args@ == nonempty_words(command@.skip(1)) && dir is Some && dir->0@
            == path@ && envs@.len() == 0),
{
    do_call(command, Some(String::from_str(path)), Vec::new(), dry_run)
}

/// The invocation of a command line in the directory `path`, with the
/// environment variables `envs` added.
pub fn call_with_env(command: &[String], envs: Vec<(String, String)>, path: &str, dry_run: bool) -> (r:
    Invocation)
    requires
        dry_run || command@.len() > 0,
    ensures
        dry_run ==> r is Skipped,
        !dry_run ==> (r matches Invocation::Run { program, args, dir, envs: e } && program
            == command@[0] && args@ == nonempty_words(command@.skip(1)) && dir is Some && dir->0@
            == path@ && e@ == envs@),
{
    do_call(command, Some(String::from_str(path)), envs, dry_run)
}

} // verus!
