//! The decisions around invoking the cargo build tool: which program, which
//! arguments, and what its exit means.

use vstd::prelude::*;
use vstd::string::StrSliceExecFns;

verus! {

/// How much the build tool should print.
#[derive(Debug, Clone, Copy, PartialEq, Eq, Structural)]
pub enum Verbosity {
    Quiet,
    Default,
    Verbose,
}

impl Verbosity {
    /// Whether extra output was asked for.
    pub fn is_verbose(&self) -> (r: bool)
        ensures
            r == (*self is Verbose),
    {
        match self {
            Verbosity::Verbose => true,
            _ => false,
        }
    }
}

/// Why an invocation of the build tool failed.
#[derive(Debug, Clone)]
pub enum CommandError {
    /// The process could not be started (the reason given).
    Spawn(String),
    /// The process ended with a failure status, and this code if it had one.
    Failed { exit_code: Option<i32> },
}

/// The subcommand that accepts no `--verbose` flag.
pub open spec fn no_verbose_flag_command() -> Seq<char> {
    seq!['d', 'y', 'l', 'i', 'n', 't']
}

/// The flags that `verbosity` adds after the arguments of `command`.
pub open spec fn verbosity_flags(command: Seq<char>, verbosity: Verbosity) -> Seq<Seq<char>> {
    match verbosity {
        Verbosity::Quiet => seq![seq!['-', '-', 'q', 'u', 'i', 'e', 't']],
        Verbosity::Verbose => if command == no_verbose_flag_command() {
            Seq::empty()
        } else {
            seq![seq!['-', '-', 'v', 'e', 'r', 'b', 'o', 's', 'e']]
        },
        Verbosity::Default => Seq::empty(),
    }
}

/// The arguments handed to the build tool: the subcommand, its arguments,
/// then the verbosity flag.
pub open spec fn command_line(command: Seq<char>, args: Seq<Seq<char>>, verbosity: Verbosity) -> Seq<Seq<char>> {
    seq![command] + args + verbosity_flags(command, verbosity)
}

/// Whether `command` is the subcommand that takes no `--verbose`.
fn is_no_verbose_flag_command(command: &str) -> (r: bool)
    ensures
        r == (command@ == no_verbose_flag_command()),
{
    let expected: [char; 6] = ['d', 'y', 'l', 'i', 'n', 't'];
    assert(expected@ =~= no_verbose_flag_command());
    if command.unicode_len() != 6 {
        return false;
    }
    let mut i: usize = 0;
    while i < 6
        invariant
            command@.len() == 6,
            expected@ == no_verbose_flag_command(),
            i <= 6,
            forall|k: int| 0 <= k < i ==> command@[k] == expected@[k],
        decreases 6 - i,
    {
        if command.get_char(i) != expected[i] {
            return false;
        }
        i = i + 1;
    }
    assert(command@ =~= expected@);
    true
}

/// Builds the arguments for the build tool from the subcommand, its
/// arguments and the verbosity.
pub fn cargo_args(command: &str, args: Vec<String>, verbosity: Verbosity) -> (r: Vec<String>)
    ensures
        r.deep_view() == command_line(command@, args.deep_view(), verbosity),
{
    let mut args = args;
    let ghost given = args.deep_view();
    let ghost given_v = args@;
    let mut out: Vec<String> = Vec::new();
    out.push(command.to_owned());
    out.append(&mut args);
    let ghost mid = out@;
    assert(mid.len() == 1 + given.len());
    assert(forall|i: int| 0 <= i < given.len() ==> #[trigger] mid[i + 1] == given_v[i]);
    match verbosity {
        Verbosity::Quiet => {
            proof {
                reveal_strlit("--quiet");
            }
            out.push("--quiet".to_owned());
            assert(out@.last()@ =~= seq!['-', '-', 'q', 'u', 'i', 'e', 't']);
        },
        Verbosity::Verbose => {
            if !is_no_verbose_flag_command(command) {
                proof {
                    reveal_strlit("--verbose");
                }
                out.push("--verbose".to_owned());
                assert(out@.last()@ =~= seq!['-', '-', 'v', 'e', 'r', 'b', 'o', 's', 'e']);
            }
        },
        Verbosity::Default => {},
    }
    assert(out@.subrange(0, mid.len() as int) =~= mid);
    assert(out.deep_view() =~= command_line(command@, given, verbosity));
    out
}

/// The program to run: the one named by the override, else `cargo`.
pub fn cargo_program(override_value: Option<String>) -> (r: String)
    ensures
        r@ == match override_value {
            Some(v) => v@,
            None => seq!['c', 'a', 'r', 'g', 'o'],
        },
{
    match override_value {
        Some(v) => v,
        None => {
            proof {
                reveal_strlit("cargo");
            }
            "cargo".to_owned()
        },
    }
}

/// The result of a finished invocation: its output on success, else the
/// failure with the exit code.
pub fn command_outcome(success: bool, exit_code: Option<i32>, stdout: Vec<u8>) -> (r: Result<Vec<u8>, CommandError>)
    ensures
        success ==> r is Ok && r->Ok_0@ == stdout@,
        !success ==> r is Err && r->Err_0 == (CommandError::Failed { exit_code }),
{
    if success {
        Ok(stdout)
    } else {
        Err(CommandError::Failed { exit_code })
    }
}

/// With no arguments and quiet output, the command line is the subcommand
/// followed by exactly one flag, `--quiet`.
pub proof fn lemma_quiet_adds_one_flag(command: Seq<char>)
    ensures
        command_line(command, Seq::empty(), Verbosity::Quiet) == seq![
            command,
            seq!['-', '-', 'q', 'u', 'i', 'e', 't'],
        ],
{
    assert(command_line(command, Seq::empty(), Verbosity::Quiet) =~= seq![
        command,
        seq!['-', '-', 'q', 'u', 'i', 'e', 't'],
    ]);
}

} // verus!
