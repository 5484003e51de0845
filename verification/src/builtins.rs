//! Builtin dispatcher: the fixed set of commands the shell runs in its own
//! process, and what each of them asks the surrounding program to do.

use vstd::prelude::*;

use crate::digits::{dec_str, pad4, spec_parse_i32};
use crate::resolver::Resolver;

verus! {

/// The closed set of builtin commands.
#[derive(Debug, Clone, Copy, PartialEq, Eq, Structural)]
pub enum Builtin {
    Echo,
    Exit,
    Type,
    Pwd,
    Cd,
    History,
}

/// The builtin a command name denotes, if any.
pub open spec fn spec_builtin_of(name: Seq<char>) -> Option<Builtin> {
    if name == "echo"@ {
        Some(Builtin::Echo)
    } else if name == "exit"@ {
        Some(Builtin::Exit)
    } else if name == "type"@ {
        Some(Builtin::Type)
    } else if name == "pwd"@ {
        Some(Builtin::Pwd)
    } else if name == "cd"@ {
        Some(Builtin::Cd)
    } else if name == "history"@ {
        Some(Builtin::History)
    } else {
        None
    }
}

/// Whether a command name is a builtin.
pub open spec fn is_builtin_name(name: Seq<char>) -> bool {
    spec_builtin_of(name) is Some
}

/// The builtin a command name denotes, if any.
pub fn builtin_of(name: &String) -> (r: Option<Builtin>)
    ensures
        r == spec_builtin_of(name@),
{
    if crate::word_eq(name, "echo") {
        Some(Builtin::Echo)
    } else if crate::word_eq(name, "exit") {
        Some(Builtin::Exit)
    } else if crate::word_eq(name, "type") {
        Some(Builtin::Type)
    } else if crate::word_eq(name, "pwd") {
        Some(Builtin::Pwd)
    } else if crate::word_eq(name, "cd") {
        Some(Builtin::Cd)
    } else if crate::word_eq(name, "history") {
        Some(Builtin::History)
    } else {
        None
    }
}

/// Whether a command name is a builtin.
pub fn is_builtin(name: &String) -> (r: bool)
    ensures
        r == is_builtin_name(name@),
{
    match builtin_of(name) {
        Some(_) => true,
        None => false,
    }
}

/// Words joined by single spaces.
pub open spec fn join_with_spaces(ws: Seq<Seq<char>>) -> Seq<char>
    decreases ws.len(),
{
    if ws.len() == 0 {
        Seq::empty()
    } else if ws.len() == 1 {
        ws[0]
    } else {
        join_with_spaces(ws.drop_last()) + " "@ + ws.last()
    }
}

/// What `echo` prints: its arguments joined by spaces, then a newline.
pub open spec fn echo_text(args: Seq<Seq<char>>) -> Seq<char> {
    join_with_spaces(args) + "\n"@
}

/// Joins the arguments with single spaces and appends one newline.
pub fn echo_output(args: &Vec<String>) -> (r: String)
    ensures
        r@ == echo_text(args.deep_view()),
{
    let ghost av: Seq<Seq<char>> = args.deep_view();
    let mut out = String::new();
    let mut i: usize = 0;
    while i < args.len()
        invariant
            0 <= i <= args.len(),
            av == args.deep_view(),
            out@ == join_with_spaces(av.take(i as int)),
        decreases args.len() - i,
    {
        proof {
            assert(av.take(i as int + 1).drop_last() =~= av.take(i as int));
            assert(av.take(i as int + 1).last() == av[i as int]);
            assert(args@[i as int]@ == av[i as int]);
        }
        if i > 0 {
            out.append(" ");
        }
        out.append(args[i].as_str());
        proof {
            if i == 0 {
                assert(out@ =~= join_with_spaces(av.take(1)));
            } else {
                assert(out@ =~= join_with_spaces(av.take(i as int + 1)));
            }
        }
        i = i + 1;
    }
    proof {
        assert(av.take(args.len() as int) =~= av);
    }
    out.append("\n");
    out
}

/// What `type` prints for its first argument: a usage note when there is
/// none; that the name is a builtin; the path it resolves to; or that it
/// was not found.
pub open spec fn type_text(args: Seq<Seq<char>>, reso: Resolver) -> Seq<char> {
    if args.len() == 0 {
        "type: missing operand\n"@
    } else {
        let a = args[0];
        if is_builtin_name(a) {
            a + " is a shell builtin\n"@
        } else {
            match reso.spec_resolve(a) {
                Some(p) => a + " is "@ + p + "\n"@,
                None => a + ": not found\n"@,
            }
        }
    }
}

/// Reports what kind of command the first argument names.
pub fn type_output(args: &Vec<String>, reso: &Resolver) -> (r: String)
    ensures
        r@ == type_text(args.deep_view(), *reso),
{
    if args.len() == 0 {
        return String::from_str("type: missing operand\n");
    }
    let a = &args[0];
    proof {
        assert(args.deep_view()[0] == args@[0]@);
    }
    let mut out = String::from_str(a.as_str());
    if is_builtin(a) {
        out.append(" is a shell builtin\n");
        proof {
            assert(out@ =~= type_text(args.deep_view(), *reso));
        }
        out
    } else {
        match reso.resolve(a) {
            Some(p) => {
                out.append(" is ");
                out.append(p.as_str());
                out.append("\n");
                proof {
                    assert(out@ =~= type_text(args.deep_view(), *reso));
                }
                out
            },
            None => {
                out.append(": not found\n");
                proof {
                    assert(out@ =~= type_text(args.deep_view(), *reso));
                }
                out
            },
        }
    }
}

/// The exit code `exit` terminates with: its first argument read as a
/// signed 32-bit decimal number, or zero when absent or unparseable.
pub open spec fn spec_exit_code(args: Seq<Seq<char>>) -> i32 {
    if args.len() == 0 {
        0
    } else {
        match spec_parse_i32(args[0]) {
            Some(c) => c,
            None => 0,
        }
    }
}

/// The exit code the `exit` builtin's arguments call for.
pub fn exit_code(args: &Vec<String>) -> (r: i32)
    ensures
        r == spec_exit_code(args.deep_view()),
{
    if args.len() == 0 {
        return 0;
    }
    proof {
        assert(args.deep_view()[0] == args@[0]@);
    }
    match crate::digits::parse_i32(&args[0]) {
        Some(c) => c,
        None => 0,
    }
}

/// How tilde expansion relates its output to its input: a word that does
/// not begin with `~` (alone or before a path separator) comes back
/// unchanged; one that does either comes back unchanged (no home
/// directory was known) or has the `~` replaced by some prefix.
pub open spec fn tilde_expanded(input: Seq<char>, out: Seq<char>) -> bool {
    if input.len() >= 1 && input[0] == '~' && (input.len() == 1 || input[1] == '/' || input[1]
        == '\\') {
        out == input || (exists|h: Seq<char>| out == h + input.skip(1))
    } else {
        out == input
    }
}

/// Relies on shellexpand::tilde: a leading `~`, alone or before a path
/// separator, is replaced by the home directory when one is known, and
/// any other input is returned unchanged.  Which prefix replaces the `~`
/// depends on the environment, so only the shape of the result is stated.
#[verifier::external_body]
fn tilde_expand(s: &str) -> (r: String)
    ensures
        tilde_expanded(s@, r@),
{
    shellexpand::tilde(s).into_owned()
}

/// What `cd` reports when the directory cannot be entered.
pub open spec fn cd_error_text(dir: Seq<char>) -> Seq<char> {
    "cd: "@ + dir + ": No such file or directory\n"@
}

/// The message `cd` reports when changing to `dir` fails.
pub fn cd_error_message(dir: &str) -> (r: String)
    ensures
        r@ == cd_error_text(dir@),
{
    let mut out = String::from_str("cd: ");
    out.append(dir);
    out.append(": No such file or directory\n");
    proof {
        assert(out@ =~= cd_error_text(dir@));
    }
    out
}

/// What `pwd` reports when the working directory cannot be read.
pub open spec fn pwd_error_text() -> Seq<char> {
    "pwd: cannot determine current directory\n"@
}

/// One history line per past input, 1-based indices right-aligned to four
/// columns, two spaces, then the line.
pub open spec fn history_text(lines: Seq<Seq<char>>) -> Seq<char>
    decreases lines.len(),
{
    if lines.len() == 0 {
        Seq::empty()
    } else {
        history_text(lines.drop_last()) + pad4(dec_str(lines.len() as int)) + "  "@
            + lines.last() + "\n"@
    }
}

/// Lists the past input lines with 1-based indices right-aligned to four
/// columns.
pub fn history_output(lines: &Vec<String>) -> (r: String)
    ensures
        r@ == history_text(lines.deep_view()),
{
    let ghost lv: Seq<Seq<char>> = lines.deep_view();
    let mut out = String::new();
    let mut i: usize = 0;
    while i < lines.len()
        invariant
            0 <= i <= lines.len(),
            lv == lines.deep_view(),
            out@ == history_text(lv.take(i as int)),
        decreases lines.len() - i,
    {
        proof {
            assert(lv.take(i as int + 1).drop_last() =~= lv.take(i as int));
            assert(lv.take(i as int + 1).last() == lv[i as int]);
            assert(lines@[i as int]@ == lv[i as int]);
        }
        let idx: u64 = (i as u64) + 1;
        let pad = crate::digits::dec_padded4(idx);
        out.append(pad.as_str());
        out.append("  ");
        out.append(lines[i].as_str());
        out.append("\n");
        proof {
            assert(out@ =~= history_text(lv.take(i as int + 1)));
        }
        i = i + 1;
    }
    proof {
        assert(lv.take(lines.len() as int) =~= lv);
    }
    out
}

/// What running a builtin asks the surrounding program to do: print some
/// text on the shell's stdout, terminate the whole process with a code,
/// or change the working directory — reporting the given message if that
/// fails.
#[derive(Debug, Clone)]
pub enum BuiltinAction {
    Print(String),
    Exit(i32),
    Chdir { target: String, error_message: String },
}

/// Runs one builtin, synchronously and without forking: decides, from the
/// arguments and from what the surrounding program reports (the resolver,
/// the current working directory, the history), the single action the
/// builtin performs.
pub fn run_builtin(
    b: Builtin,
    args: &Vec<String>,
    reso: &Resolver,
    cwd: Option<&String>,
    history: &Vec<String>,
) -> (r: BuiltinAction)
    ensures
        b == Builtin::Echo ==> (r matches BuiltinAction::Print(s) && s@ == echo_text(
            args.deep_view(),
        )),
        b == Builtin::Type ==> (r matches BuiltinAction::Print(s) && s@ == type_text(
            args.deep_view(),
            *reso,
        )),
        b == Builtin::Exit ==> r == BuiltinAction::Exit(spec_exit_code(args.deep_view())),
        b == Builtin::Pwd ==> (match cwd {
            Some(d) => r matches BuiltinAction::Print(s) && s@ == d@ + "\n"@,
            None => r matches BuiltinAction::Print(s) && s@ == pwd_error_text(),
        }),
        b == Builtin::Cd ==> (r matches BuiltinAction::Chdir { target, error_message } && {
            let dir = if args@.len() == 0 {
                "~"@
            } else {
                args@[0]@
            };
            &&& tilde_expanded(dir, target@)
            &&& error_message@ == cd_error_text(dir)
        }),
        b == Builtin::History ==> (r matches BuiltinAction::Print(s) && s@ == history_text(
            history.deep_view(),
        )),
{
    match b {
        Builtin::Echo => BuiltinAction::Print(echo_output(args)),
        Builtin::Type => BuiltinAction::Print(type_output(args, reso)),
        Builtin::Exit => BuiltinAction::Exit(exit_code(args)),
        Builtin::Pwd => match cwd {
            Some(d) => {
                let mut out = d.clone();
                out.append("\n");
                BuiltinAction::Print(out)
            },
            None => BuiltinAction::Print(String::from_str("pwd: cannot determine current directory\n")),
        },
        Builtin::Cd => {
            if args.len() == 0 {
                let target = tilde_expand("~");
                let error_message = cd_error_message("~");
                BuiltinAction::Chdir { target, error_message }
            } else {
                let target = tilde_expand(args[0].as_str());
                let error_message = cd_error_message(args[0].as_str());
                BuiltinAction::Chdir { target, error_message }
            }
        },
        Builtin::History => BuiltinAction::Print(history_output(history)),
    }
}

} // verus!
