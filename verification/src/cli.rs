//! The command line of `please`: what its arguments ask for, and the command
//! that is finally run through `sudo`.
use vstd::prelude::*;

use crate::text::{str_equals, views};

verus! {

/// What a command line asks `please` to do.
#[derive(Debug)]
pub enum Invocation {
    /// Print the usage text (`-h`, `--help`).
    ShowHelp,
    /// Print the detected shell (`-p`, `--print-shell`).
    PrintShell,
    /// Print name, version, the detected shell and a short description (`-i`, `--info`).
    ShowInfo,
    /// Print only the version (`--version`).
    ShowVersion,
    /// Run the last command from the shell history again, through `sudo`.
    RerunLast,
    /// Run the given command through `sudo`.
    Run(Vec<String>),
}

/// The option that a lone argument names, if any: 0 help, 1 print-shell,
/// 2 info, 3 version.
pub open spec fn option_of(arg: Seq<char>) -> Option<int> {
    if arg == "-h"@ || arg == "--help"@ {
        Some(0)
    } else if arg == "-p"@ || arg == "--print-shell"@ {
        Some(1)
    } else if arg == "-i"@ || arg == "--info"@ {
        Some(2)
    } else if arg == "--version"@ {
        Some(3)
    } else {
        None
    }
}

/// Plans what to do for the argument vector `args` (program name first): a
/// lone option is handled by itself, no argument re-runs the last command, and
/// anything else is the command to run.
pub fn plan_invocation(args: &Vec<String>) -> (plan: Invocation)
    requires
        args@.len() >= 1,
    ensures
        match plan {
            Invocation::ShowHelp => args@.len() == 2 && option_of(args@[1]@) == Some(0int),
            Invocation::PrintShell => args@.len() == 2 && option_of(args@[1]@) == Some(1int),
            Invocation::ShowInfo => args@.len() == 2 && option_of(args@[1]@) == Some(2int),
            Invocation::ShowVersion => args@.len() == 2 && option_of(args@[1]@) == Some(3int),
            Invocation::RerunLast => args@.len() == 1,
            Invocation::Run(command) => {
                &&& args@.len() >= 2
                &&& (args@.len() == 2 ==> option_of(args@[1]@) is None)
                &&& views(command@) == views(args@).subrange(1, args@.len() as int)
            },
        },
{
    if args.len() == 2 {
        let a = args[1].as_str();
        if str_equals(a, "-h") || str_equals(a, "--help") {
            return Invocation::ShowHelp;
        }
        if str_equals(a, "-p") || str_equals(a, "--print-shell") {
            return Invocation::PrintShell;
        }
        if str_equals(a, "-i") || str_equals(a, "--info") {
            return Invocation::ShowInfo;
        }
        if str_equals(a, "--version") {
            return Invocation::ShowVersion;
        }
    }
    if args.len() == 1 {
        return Invocation::RerunLast;
    }
    let mut command: Vec<String> = Vec::new();
    let mut i: usize = 1;
    while i < args.len()
        invariant
            1 <= i <= args@.len(),
            views(command@) == views(args@).subrange(1, i as int),
        decreases args@.len() - i,
    {
        command.push(args[i].clone());
        assert(views(args@).subrange(1, i + 1) == views(args@).subrange(1, i as int).push(
            args@[i as int]@,
        ));
        i = i + 1;
    }
    Invocation::Run(command)
}

/// `command` run through `sudo`: `sudo` first, then the command unchanged.
pub fn with_sudo(command: Vec<String>) -> (argv: Vec<String>)
    ensures
        views(argv@) == seq!["sudo"@] + views(command@),
{
    let mut argv = command;
    let ghost before = argv@;
    argv.insert(0, "sudo".to_owned());
    assert(views(argv@) =~= seq!["sudo"@] + views(before));
    argv
}

} // verus!

verus! {

/// The lone options: `-h` and `--help` ask for help, `-p` and
/// `--print-shell` for the detected shell, `-i` and `--info` for information,
/// `--version` for the version; any other argument is no option (so, for
/// instance, `-v`, `-H` and the empty argument are commands).
pub proof fn lemma_options()
    ensures
        option_of("-h"@) == Some(0int),
        option_of("--help"@) == Some(0int),
        option_of("-p"@) == Some(1int),
        option_of("--print-shell"@) == Some(1int),
        option_of("-i"@) == Some(2int),
        option_of("--info"@) == Some(2int),
        option_of("--version"@) == Some(3int),
        option_of("-v"@) is None,
        option_of("-H"@) is None,
        option_of(Seq::<char>::empty()) is None,
        forall|a: Seq<char>| option_of(a) is Some ==> a.len() >= 2 && a[0] == '-',
{
    reveal_strlit("-h");
    reveal_strlit("--help");
    reveal_strlit("-p");
    reveal_strlit("--print-shell");
    reveal_strlit("-i");
    reveal_strlit("--info");
    reveal_strlit("--version");
    reveal_strlit("-v");
    reveal_strlit("-H");
    let e = Seq::<char>::empty();
    assert(e.len() != "-h"@.len() && e.len() != "--help"@.len() && e.len() != "-p"@.len());
    assert(e.len() != "--print-shell"@.len() && e.len() != "-i"@.len() && e.len()
        != "--info"@.len() && e.len() != "--version"@.len());
    assert("-p"@[1] != "-h"@[1]);
    assert("--print-shell"@.len() != "-h"@.len() && "--print-shell"@.len() != "--help"@.len());
    assert("-i"@[1] != "-h"@[1] && "-i"@[1] != "-p"@[1]);
    assert("--info"@[2] != "--help"@[2]);
    assert("-v"@[1] != "-h"@[1] && "-v"@[1] != "-p"@[1] && "-v"@[1] != "-i"@[1]);
    assert("-H"@[1] != "-h"@[1] && "-H"@[1] != "-p"@[1] && "-H"@[1] != "-i"@[1]);
}

} // verus!
