//! What the built-in commands decide: the text each writes to the command's
//! output and error sinks, and the work left to the caller (the process exit
//! status, the directory to change to).
use vstd::prelude::*;
use vstd::string::StringExecFns;

verus! {

/// The commands that the shell runs itself.
#[derive(PartialEq, Eq, Structural, Clone, Copy, Debug)]
pub enum Builtin {
    Exit,
    Echo,
    Type,
    Pwd,
    Cd,
}

/// The built-in that a command word names, if any.
pub open spec fn builtin_spec(name: Seq<char>) -> Option<Builtin> {
    if name == seq!['e', 'x', 'i', 't'] {
        Some(Builtin::Exit)
    } else if name == seq!['e', 'c', 'h', 'o'] {
        Some(Builtin::Echo)
    } else if name == seq!['t', 'y', 'p', 'e'] {
        Some(Builtin::Type)
    } else if name == seq!['p', 'w', 'd'] {
        Some(Builtin::Pwd)
    } else if name == seq!['c', 'd'] {
        Some(Builtin::Cd)
    } else {
        None
    }
}

/// Whether two strings hold the same characters.
pub(crate) fn same_text(a: &str, b: &str) -> (r: bool)
    ensures
        r == (a@ == b@),
{
    let n = a.unicode_len();
    if n != b.unicode_len() {
        return false;
    }
    let mut i: usize = 0;
    while i < n
        invariant
            n == a@.len(),
            n == b@.len(),
            i <= n,
            a@.take(i as int) == b@.take(i as int),
        decreases n - i,
    {
        if a.get_char(i) != b.get_char(i) {
            return false;
        }
        assert(a@.take(i + 1) =~= a@.take(i as int).push(a@[i as int]));
        assert(b@.take(i + 1) =~= b@.take(i as int).push(b@[i as int]));
        i = i + 1;
    }
    assert(a@.take(n as int) =~= a@);
    assert(b@.take(n as int) =~= b@);
    true
}

/// Looks a command word up among the built-ins.
pub fn builtin_of(name: &str) -> (r: Option<Builtin>)
    ensures
        r == builtin_spec(name@),
{
    proof {
        reveal_strlit("exit");
        reveal_strlit("echo");
        reveal_strlit("type");
        reveal_strlit("pwd");
        reveal_strlit("cd");
        assert("exit"@ =~= seq!['e', 'x', 'i', 't']);
        assert("echo"@ =~= seq!['e', 'c', 'h', 'o']);
        assert("type"@ =~= seq!['t', 'y', 'p', 'e']);
        assert("pwd"@ =~= seq!['p', 'w', 'd']);
        assert("cd"@ =~= seq!['c', 'd']);
    }
    if same_text(name, "exit") {
        Some(Builtin::Exit)
    } else if same_text(name, "echo") {
        Some(Builtin::Echo)
    } else if same_text(name, "type") {
        Some(Builtin::Type)
    } else if same_text(name, "pwd") {
        Some(Builtin::Pwd)
    } else if same_text(name, "cd") {
        Some(Builtin::Cd)
    } else {
        None
    }
}

/// What a command writes: `out` to its output sink, `err` to its error sink.
#[derive(Debug)]
pub struct Report {
    pub out: String,
    pub err: String,
}

impl View for Report {
    type V = (Seq<char>, Seq<char>);

    open spec fn view(&self) -> Self::V {
        (self.out@, self.err@)
    }
}

fn text(s: &str) -> (r: String)
    ensures
        r@ == s@,
{
    <String as StringExecFns>::from_str(s)
}

fn to_out(s: String) -> (r: Report)
    ensures
        r@ == (s@, Seq::<char>::empty()),
{
    Report { out: s, err: String::new() }
}

fn to_err(s: String) -> (r: Report)
    ensures
        r@ == (Seq::<char>::empty(), s@),
{
    Report { out: String::new(), err: s }
}

/// The words joined by single spaces.
pub open spec fn join_space(ws: Seq<Seq<char>>) -> Seq<char>
    decreases ws.len(),
{
    if ws.len() == 0 {
        Seq::empty()
    } else if ws.len() == 1 {
        ws[0]
    } else {
        join_space(ws.drop_last()) + seq![' '] + ws.last()
    }
}

/// `echo`: the arguments joined by single spaces, and a line end.
pub fn handle_echo(args: &Vec<String>) -> (r: String)
    ensures
        r@ == join_space(args.deep_view()) + "\n"@,
{
    let ghost ws = args.deep_view();
    let mut line = String::new();
    let mut i: usize = 0;
    while i < args.len()
        invariant
            i <= args.len(),
            ws == args.deep_view(),
            line@ == join_space(ws.take(i as int)),
        decreases args.len() - i,
    {
        assert(ws.take(i + 1).drop_last() =~= ws.take(i as int));
        assert(ws.take(i + 1).last() == args[i as int]@);
        if i > 0 {
            line.append(" ");
            proof {
                reveal_strlit(" ");
                assert(" "@ =~= seq![' ']);
            }
        } else {
            assert(line@ =~= Seq::<char>::empty());
        }
        line.append(args[i].as_str());
        proof {
            if i == 0 {
                assert(line@ =~= ws.take(1)[0]);
            }
        }
        i = i + 1;
    }
    assert(ws.take(args.len() as int) =~= ws);
    line.append("\n");
    line
}

/// What `type` reports for its arguments, given what the search of the
/// executable path found for the first of them: the output sink's text and
/// the error sink's text.
pub open spec fn type_report(args: Seq<Seq<char>>, found: Option<Seq<char>>) -> (Seq<char>, Seq<char>) {
    if args.len() != 1 {
        (Seq::empty(), "type: invalid number of args\n"@)
    } else if builtin_spec(args[0]) is Some {
        (args[0] + " is a shell builtin\n"@, Seq::empty())
    } else {
        match found {
            Some(path) => (args[0] + " is "@ + path + "\n"@, Seq::empty()),
            None => (Seq::empty(), args[0] + ": not found\n"@),
        }
    }
}

/// `type`: says whether its one argument is a built-in or an executable of
/// the search path (`found`, the path that the search gave), or neither.
pub fn handle_type(args: &Vec<String>, found: Option<String>) -> (r: Report)
    ensures
        r@ == type_report(args.deep_view(), match found {
            Some(p) => Some(p@),
            None => None,
        }),
{
    if args.len() != 1 {
        return to_err(text("type: invalid number of args\n"));
    }
    let cmd = &args[0];
    assert(args.deep_view()[0] == cmd@);
    if builtin_of(cmd.as_str()).is_some() {
        let mut line = cmd.clone();
        line.append(" is a shell builtin\n");
        to_out(line)
    } else {
        match found {
            Some(path) => {
                let mut line = cmd.clone();
                line.append(" is ");
                line.append(path.as_str());
                line.append("\n");
                to_out(line)
            },
            None => {
                let mut line = cmd.clone();
                line.append(": not found\n");
                to_err(line)
            },
        }
    }
}

/// The value of a decimal numeral of ASCII digits.
pub open spec fn decimal_value(d: Seq<char>) -> int
    decreases d.len(),
{
    if d.len() == 0 {
        0
    } else {
        decimal_value(d.drop_last()) * 10 + (d.last() as int - '0' as int)
    }
}

/// The `i32` that a string spells: an optional `+` or `-`, then one or more
/// ASCII digits, with a value in range.
pub open spec fn i32_value(s: Seq<char>) -> Option<i32> {
    let neg = s.len() > 0 && s[0] == '-';
    let digits = if s.len() > 0 && (s[0] == '-' || s[0] == '+') { s.skip(1) } else { s };
    let v = if neg { -decimal_value(digits) } else { decimal_value(digits) };
    if digits.len() == 0 || exists|i: int| 0 <= i < digits.len() && !('0' <= #[trigger] digits[i] <= '9') {
        None
    } else if i32::MIN <= v <= i32::MAX {
        Some(v as i32)
    } else {
        None
    }
}

/// Relies on `str::parse::<i32>`: an optional sign, then decimal digits whose
/// value fits; anything else is an error.
#[verifier::external_body]
fn parse_i32(s: &str) -> (r: Option<i32>)
    ensures
        r == i32_value(s@),
{
    s.parse::<i32>().ok()
}

/// What `exit` decides: the status to end the process with, or the message
/// for the error sink.
pub open spec fn exit_decision(args: Seq<Seq<char>>) -> Result<i32, Seq<char>> {
    if args.len() != 1 {
        Err("exit: invalid number of args\n"@)
    } else {
        match i32_value(args[0]) {
            Some(code) => Ok(code),
            None => Err("exit: invalid argument: "@ + args[0] + "\n"@),
        }
    }
}

/// `exit`: `Ok` holds the status that the process ends with; `Err` the
/// message for the error sink, and the shell goes on.
pub fn handle_exit(args: &Vec<String>) -> (r: Result<i32, String>)
    ensures
        match (r, exit_decision(args.deep_view())) {
            (Ok(code), Ok(want)) => code == want,
            (Err(msg), Err(want)) => msg@ == want,
            _ => false,
        },
{
    if args.len() != 1 {
        return Err(text("exit: invalid number of args\n"));
    }
    assert(args.deep_view()[0] == args[0]@);
    match parse_i32(args[0].as_str()) {
        Some(code) => Ok(code),
        None => {
            let mut msg = text("exit: invalid argument: ");
            msg.append(args[0].as_str());
            msg.append("\n");
            Err(msg)
        },
    }
}

/// What `pwd` reports, given the working directory or the reason that it
/// cannot be read.
pub open spec fn pwd_report(args: Seq<Seq<char>>, cwd: Result<Seq<char>, Seq<char>>) -> (Seq<char>, Seq<char>) {
    if args.len() != 0 {
        (Seq::empty(), "pwd: invalid number of args\n"@)
    } else {
        match cwd {
            Ok(dir) => (dir + "\n"@, Seq::empty()),
            Err(e) => (Seq::empty(), "Current working directory cannot be accessed: "@ + e + "\n"@),
        }
    }
}

/// `pwd`: prints the working directory `cwd`, or why it cannot be read.
pub fn handle_pwd(args: &Vec<String>, cwd: Result<String, String>) -> (r: Report)
    ensures
        r@ == pwd_report(args.deep_view(), match cwd {
            Ok(d) => Ok(d@),
            Err(e) => Err(e@),
        }),
{
    if args.len() != 0 {
        return to_err(text("pwd: invalid number of args\n"));
    }
    match cwd {
        Ok(dir) => {
            let mut line = dir;
            line.append("\n");
            to_out(line)
        },
        Err(e) => {
            let mut line = text("Current working directory cannot be accessed: ");
            line.append(e.as_str());
            line.append("\n");
            to_err(line)
        },
    }
}

/// What `cd` decides: the directory to change to (`~` stands for `home`),
/// or the message for the error sink.
pub open spec fn cd_decision(args: Seq<Seq<char>>, home: Seq<char>) -> Result<Seq<char>, Seq<char>> {
    if args.len() != 1 {
        Err("cd: invalid number of args\n"@)
    } else if args[0] == seq!['~'] {
        Ok(home)
    } else {
        Ok(args[0])
    }
}

/// `cd`: `Ok` holds the directory to change to; `Err` the message for the
/// error sink.
pub fn handle_cd(args: &Vec<String>, home: &str) -> (r: Result<String, String>)
    ensures
        match (r, cd_decision(args.deep_view(), home@)) {
            (Ok(dir), Ok(want)) => dir@ == want,
            (Err(msg), Err(want)) => msg@ == want,
            _ => false,
        },
{
    if args.len() != 1 {
        return Err(text("cd: invalid number of args\n"));
    }
    assert(args.deep_view()[0] == args[0]@);
    proof {
        reveal_strlit("~");
        assert("~"@ =~= seq!['~']);
    }
    if same_text(args[0].as_str(), "~") {
        Ok(text(home))
    } else {
        Ok(args[0].clone())
    }
}

/// The message for a `cd` to `path` that failed.
pub fn cd_error(path: &str) -> (r: String)
    ensures
        r@ == "cd: "@ + path@ + ": No such file or directory\n"@,
{
    let mut msg = text("cd: ");
    msg.append(path);
    msg.append(": No such file or directory\n");
    msg
}

/// The message for a command word that is neither a built-in nor found on
/// the search path.
pub fn command_not_found(cmd: &str) -> (r: String)
    ensures
        r@ == cmd@ + ": command not found\n"@,
{
    let mut msg = text(cmd);
    msg.append(": command not found\n");
    msg
}

} // verus!
