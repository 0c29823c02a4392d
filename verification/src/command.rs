//! Running host commands through an injectable runner.

use vstd::prelude::*;

use crate::model::strs_view;
use crate::text::{eq_str, from_chars, push_str, to_chars};

verus! {

/// What a finished command printed, and its exit status (none when it was
/// killed by a signal).
#[derive(Debug, Clone, PartialEq, Eq)]
pub struct CommandOutput {
    pub status: Option<i32>,
    pub stdout: String,
    pub stderr: String,
}

pub struct CommandOutputView {
    pub status: Option<i32>,
    pub stdout: Seq<char>,
    pub stderr: Seq<char>,
}

impl View for CommandOutput {
    type V = CommandOutputView;

    open spec fn view(&self) -> CommandOutputView {
        CommandOutputView { status: self.status, stdout: self.stdout@, stderr: self.stderr@ }
    }
}

/// Why a command did not run: the program is missing, or starting it failed
/// (the text of the underlying error).
#[derive(Debug, Clone, PartialEq, Eq)]
pub enum CommandError {
    Unavailable(String),
    Io(String),
}

impl CommandError {
    pub open spec fn message(self) -> Seq<char> {
        match self {
            CommandError::Unavailable(p) => "command unavailable: "@ + p@,
            CommandError::Io(m) => "command execution failed: "@ + m@,
        }
    }

    /// The message text (what `Display` shows).
    pub fn to_message(&self) -> (r: String)
        ensures
            r@ == self.message(),
    {
        let mut out: Vec<char> = Vec::new();
        match self {
            CommandError::Unavailable(p) => {
                push_str(&mut out, "command unavailable: ");
                push_str(&mut out, p.as_str());
            },
            CommandError::Io(m) => {
                push_str(&mut out, "command execution failed: ");
                push_str(&mut out, m.as_str());
            },
        }
        from_chars(out.as_slice())
    }
}

/// Runs a program with arguments on the host (or a stand-in for it).
///
/// A runner may keep a log of the calls it was handed and of what it
/// answered them (`records_calls`); the functions that use a runner state,
/// over that log, which calls they make and what they make of the answers.
/// A runner that keeps no log claims nothing.
pub trait CommandRunner {
    /// Whether `calls` is the log of the calls handed to `run`.
    open spec fn records_calls() -> bool {
        false
    }

    /// The calls handed to `run` so far: each program with its arguments.
    open spec fn calls(&self) -> Seq<(Seq<char>, Seq<Seq<char>>)> {
        Seq::empty()
    }

    /// What `run` answered so far, one outcome per call, in order.
    open spec fn answers(&self) -> Seq<Result<CommandOutput, CommandError>> {
        Seq::empty()
    }

    fn run(&mut self, program: &str, args: &[&str]) -> (r: Result<CommandOutput, CommandError>)
        ensures
            Self::records_calls() ==> final(self).calls() == old(self).calls().push(
                (program@, args_view(args@)),
            ),
            Self::records_calls() ==> final(self).answers() == old(self).answers().push(r),
    ;
}

/// The views of an argument list.
pub open spec fn args_view(args: Seq<&str>) -> Seq<Seq<char>> {
    args.map_values(|a: &str| a@)
}

/// A recorded call: the program and its arguments.
pub open spec fn calls_view(calls: Seq<(String, Vec<String>)>) -> Seq<(Seq<char>, Seq<Seq<char>>)> {
    calls.map_values(|c: (String, Vec<String>)| (c.0@, strs_view(c.1@)))
}

/// The exit status a succeeding stand-in reports: 1 for the probes that look
/// for the legacy router and for `test`, 0 otherwise.
pub open spec fn canned_status(program: Seq<char>, args: Seq<Seq<char>>) -> Option<i32> {
    if program == "nft"@ && args.len() == 4 && args[0] == "list"@ && args[1] == "table"@ && args[2]
        == "inet"@ && args[3] == "router"@ {
        Some(1)
    } else if program == "systemctl"@ && args.len() == 2 && args[0] == "is-enabled"@ && args[1]
        == "gateway-firewall.service"@ {
        Some(1)
    } else if program == "test"@ {
        Some(1)
    } else {
        Some(0)
    }
}

/// The output a succeeding stand-in prints: that of a healthy gateway.
pub open spec fn canned_stdout(program: Seq<char>, args: Seq<Seq<char>>) -> Seq<char> {
    if program == "nft"@ {
        "table inet gateway_kit"@
    } else if program == "ip"@ && args.len() == 2 && args[0] == "rule"@ && args[1] == "show"@ {
        "fwmark 1 lookup 51820"@
    } else if program == "ip"@ && args.len() >= 2 && args[0] == "route"@ && args[1] == "show"@ {
        "local 0.0.0.0/0 dev lo scope host"@
    } else if program == "ip"@ && args.len() >= 2 && args[0] == "-o"@ && args[1] == "link"@ {
        "wg0: <POINTOPOINT,UP>"@
    } else if program == "ss"@ {
        "tcp LISTEN 127.0.0.1:7895\nudp UNCONN 127.0.0.1:5353"@
    } else if program == "wg"@ {
        "wg0\tkey=\t1"@
    } else {
        Seq::empty()
    }
}

/// A scripted stand-in for the host: queued replies are handed out in order
/// to the program they name; with `always_ok`, any other call succeeds with
/// the output of a healthy gateway, else the program is unavailable.
pub struct ScriptedRunner {
    pub always_ok: bool,
    pub calls: Vec<(String, Vec<String>)>,
    pub replies: Vec<(String, Result<CommandOutput, CommandError>)>,
    /// What the runner answered so far.
    pub answered: Ghost<Seq<Result<CommandOutput, CommandError>>>,
}

impl Default for ScriptedRunner {
    fn default() -> (r: Self)
        ensures
            !r.always_ok,
            r.calls@.len() == 0,
            r.replies@.len() == 0,
    {
        ScriptedRunner {
            always_ok: false,
            calls: Vec::new(),
            replies: Vec::new(),
            answered: Ghost(Seq::empty()),
        }
    }
}

fn arg_is(args: &[&str], i: usize, expected: &str) -> (r: bool)
    ensures
        r == (i < args@.len() && args@[i as int]@ == expected@),
{
    if i >= args.len() {
        return false;
    }
    let a = to_chars(args[i]);
    eq_str(a.as_slice(), expected)
}

fn canned_status_exec(program: &str, args: &[&str]) -> (r: Option<i32>)
    ensures
        r == canned_status(program@, args_view(args@)),
{
    let p = to_chars(program);
    let n = args.len();
    if eq_str(p.as_slice(), "nft") && n == 4 && arg_is(args, 0, "list") && arg_is(args, 1, "table")
        && arg_is(args, 2, "inet") && arg_is(args, 3, "router") {
        Some(1)
    } else if eq_str(p.as_slice(), "systemctl") && n == 2 && arg_is(args, 0, "is-enabled") && arg_is(
        args,
        1,
        "gateway-firewall.service",
    ) {
        Some(1)
    } else if eq_str(p.as_slice(), "test") {
        Some(1)
    } else {
        Some(0)
    }
}

fn canned_stdout_exec(program: &str, args: &[&str]) -> (r: &'static str)
    ensures
        r@ == canned_stdout(program@, args_view(args@)),
{
    let p = to_chars(program);
    let n = args.len();
    if eq_str(p.as_slice(), "nft") {
        "table inet gateway_kit"
    } else if eq_str(p.as_slice(), "ip") && n == 2 && arg_is(args, 0, "rule") && arg_is(args, 1, "show") {
        "fwmark 1 lookup 51820"
    } else if eq_str(p.as_slice(), "ip") && arg_is(args, 0, "route") && arg_is(args, 1, "show") {
        "local 0.0.0.0/0 dev lo scope host"
    } else if eq_str(p.as_slice(), "ip") && arg_is(args, 0, "-o") && arg_is(args, 1, "link") {
        "wg0: <POINTOPOINT,UP>"
    } else if eq_str(p.as_slice(), "ss") {
        "tcp LISTEN 127.0.0.1:7895\nudp UNCONN 127.0.0.1:5353"
    } else if eq_str(p.as_slice(), "wg") {
        "wg0\tkey=\t1"
    } else {
        proof {
            reveal_strlit("");
        }
        ""
    }
}

impl ScriptedRunner {
    /// A stand-in on which every unscripted call succeeds.
    pub fn succeeding() -> (r: Self)
        ensures
            r.always_ok,
            r.calls@.len() == 0,
            r.replies@.len() == 0,
    {
        ScriptedRunner {
            always_ok: true,
            calls: Vec::new(),
            replies: Vec::new(),
            answered: Ghost(Seq::empty()),
        }
    }

    /// Queues a reply saying the program is not installed.
    pub fn push_unavailable(&mut self, program: &str)
        ensures
            final(self).always_ok == old(self).always_ok,
            final(self).calls == old(self).calls,
            final(self).answered == old(self).answered,
            final(self).replies@.len() == old(self).replies@.len() + 1,
            final(self).replies@.drop_last() == old(self).replies@,
            final(self).replies@.last().0@ == program@,
            final(self).replies@.last().1 matches Err(CommandError::Unavailable(p)) && p@ == program@,
    {
        self.replies.push((program.to_owned(), Err(CommandError::Unavailable(program.to_owned()))));
    }

    /// Queues a successful reply with the given output.
    pub fn push_ok(&mut self, program: &str, stdout: &str)
        ensures
            final(self).always_ok == old(self).always_ok,
            final(self).calls == old(self).calls,
            final(self).answered == old(self).answered,
            final(self).replies@.len() == old(self).replies@.len() + 1,
            final(self).replies@.drop_last() == old(self).replies@,
            final(self).replies@.last().0@ == program@,
            final(self).replies@.last().1 matches Ok(o) && o@ == (CommandOutputView {
                status: Some(0),
                stdout: stdout@,
                stderr: Seq::empty(),
            }),
    {
        self.replies.push(
            (
                program.to_owned(),
                Ok(CommandOutput { status: Some(0), stdout: stdout.to_owned(), stderr: String::new() }),
            ),
        );
    }

    /// The answer to a call: the first queued reply when it names the
    /// program, else the canned success or `Unavailable`.
    fn answer(&mut self, program: &str, args: &[&str]) -> (r: Result<CommandOutput, CommandError>)
        ensures
            final(self).always_ok == old(self).always_ok,
            final(self).calls == old(self).calls,
            final(self).answered == old(self).answered,
            old(self).replies@.len() > 0 && old(self).replies@[0].0@ == program@ ==> (
            final(self).replies@ == old(self).replies@.drop_first() && r == old(self).replies@[0].1),
            !(old(self).replies@.len() > 0 && old(self).replies@[0].0@ == program@) ==> (
            final(self).replies@ == old(self).replies@ && (if old(self).always_ok {
                r matches Ok(o) && o@ == (CommandOutputView {
                    status: canned_status(program@, args_view(args@)),
                    stdout: canned_stdout(program@, args_view(args@)),
                    stderr: Seq::empty(),
                })
            } else {
                r matches Err(CommandError::Unavailable(p)) && p@ == program@
            })),
    {
        if self.replies.len() > 0 {
            let expected = to_chars(self.replies[0].0.as_str());
            if eq_str(expected.as_slice(), program) {
                let (_, result) = self.replies.remove(0);
                return result;
            }
        }
        if self.always_ok {
            let status = canned_status_exec(program, args);
            let stdout = canned_stdout_exec(program, args);
            return Ok(CommandOutput { status, stdout: stdout.to_owned(), stderr: String::new() });
        }
        Err(CommandError::Unavailable(program.to_owned()))
    }

    /// Records the call and answers it.
    pub fn run_scripted(&mut self, program: &str, args: &[&str]) -> (r: Result<
        CommandOutput,
        CommandError,
    >)
        ensures
            final(self).always_ok == old(self).always_ok,
            final(self).answered@ == old(self).answered@.push(r),
            calls_view(final(self).calls@) == calls_view(old(self).calls@).push(
                (program@, args_view(args@)),
            ),
            old(self).replies@.len() > 0 && old(self).replies@[0].0@ == program@ ==> (
            final(self).replies@ == old(self).replies@.drop_first() && r == old(self).replies@[0].1),
            !(old(self).replies@.len() > 0 && old(self).replies@[0].0@ == program@) ==> (
            final(self).replies@ == old(self).replies@ && (if old(self).always_ok {
                r matches Ok(o) && o@ == (CommandOutputView {
                    status: canned_status(program@, args_view(args@)),
                    stdout: canned_stdout(program@, args_view(args@)),
                    stderr: Seq::empty(),
                })
            } else {
                r matches Err(CommandError::Unavailable(p)) && p@ == program@
            })),
    {
        let mut recorded: Vec<String> = Vec::new();
        let n = args.len();
        for i in 0..n
            invariant
                n == args@.len(),
                strs_view(recorded@) == args_view(args@.take(i as int)),
        {
            let ghost before = recorded@;
            recorded.push(args[i].to_owned());
            assert(strs_view(recorded@) =~= strs_view(before).push(args@[i as int]@));
            assert(args_view(args@.take((i + 1) as int)) =~= args_view(args@.take(i as int)).push(
                args@[i as int]@,
            ));
        }
        assert(args@.take(n as int) =~= args@);
        let ghost old_calls = self.calls@;
        self.calls.push((program.to_owned(), recorded));
        assert(calls_view(self.calls@) =~= calls_view(old_calls).push((program@, args_view(args@))));
        let r = self.answer(program, args);
        self.answered = Ghost(self.answered@.push(r));
        r
    }
}

impl CommandRunner for ScriptedRunner {
    open spec fn records_calls() -> bool {
        true
    }

    open spec fn calls(&self) -> Seq<(Seq<char>, Seq<Seq<char>>)> {
        calls_view(self.calls@)
    }

    open spec fn answers(&self) -> Seq<Result<CommandOutput, CommandError>> {
        self.answered@
    }

    /// Records the call and answers it, as `run_scripted` does.
    fn run(&mut self, program: &str, args: &[&str]) -> (r: Result<CommandOutput, CommandError>)
        ensures
            final(self).always_ok == old(self).always_ok,
            final(self).answered@ == old(self).answered@.push(r),
            calls_view(final(self).calls@) == calls_view(old(self).calls@).push(
                (program@, args_view(args@)),
            ),
            old(self).replies@.len() > 0 && old(self).replies@[0].0@ == program@ ==> (
            final(self).replies@ == old(self).replies@.drop_first() && r == old(self).replies@[0].1),
            !(old(self).replies@.len() > 0 && old(self).replies@[0].0@ == program@) ==> (
            final(self).replies@ == old(self).replies@ && (if old(self).always_ok {
                r matches Ok(o) && o@ == (CommandOutputView {
                    status: canned_status(program@, args_view(args@)),
                    stdout: canned_stdout(program@, args_view(args@)),
                    stderr: Seq::empty(),
                })
            } else {
                r matches Err(CommandError::Unavailable(p)) && p@ == program@
            })),
    {
        self.run_scripted(program, args)
    }
}

} // verus!
