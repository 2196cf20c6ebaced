//! Takes the redirection operators and their targets out of a token list.
use vstd::prelude::*;

verus! {

/// The standard stream that a redirection replaces.
#[derive(PartialEq, Eq, Structural, Clone, Copy, Debug)]
pub enum Stream {
    Stdout,
    Stderr,
}

/// How a redirection target is opened.
#[derive(PartialEq, Eq, Structural, Clone, Copy, Debug)]
pub enum WriteMode {
    /// Created if missing, emptied otherwise.
    Truncate,
    /// Created if missing, written at its end otherwise.
    Append,
}

/// One redirection of a command line: which stream goes to which file, and how.
#[derive(Debug)]
pub struct Redirect {
    pub stream: Stream,
    pub mode: WriteMode,
    pub path: String,
}

impl View for Redirect {
    type V = (Stream, WriteMode, Seq<char>);

    open spec fn view(&self) -> Self::V {
        (self.stream, self.mode, self.path@)
    }
}

/// A token list with the redirections taken out: the command word and its
/// arguments, and the redirections in the order in which they appeared.
#[derive(Debug)]
pub struct ParsedCommand {
    pub args: Vec<String>,
    pub redirects: Vec<Redirect>,
}

/// The redirection that a token names, if it is an operator.
pub open spec fn redir_op(t: Seq<char>) -> Option<(Stream, WriteMode)> {
    if t == seq!['>'] || t == seq!['1', '>'] {
        Some((Stream::Stdout, WriteMode::Truncate))
    } else if t == seq!['>', '>'] || t == seq!['1', '>', '>'] {
        Some((Stream::Stdout, WriteMode::Append))
    } else if t == seq!['2', '>'] {
        Some((Stream::Stderr, WriteMode::Truncate))
    } else if t == seq!['2', '>', '>'] {
        Some((Stream::Stderr, WriteMode::Append))
    } else {
        None
    }
}

/// The arguments and the redirections of a token list, scanned left to right:
/// an operator followed by a token takes that token as its target; an
/// operator in last place is an ordinary argument.
pub open spec fn plan(toks: Seq<Seq<char>>) -> (Seq<Seq<char>>, Seq<(Stream, WriteMode, Seq<char>)>)
    decreases toks.len(),
{
    if toks.len() == 0 {
        (Seq::empty(), Seq::empty())
    } else if toks.len() >= 2 && redir_op(toks[0]) is Some {
        let (stream, mode) = redir_op(toks[0]).unwrap();
        let rest = plan(toks.skip(2));
        (rest.0, seq![(stream, mode, toks[1])] + rest.1)
    } else {
        let rest = plan(toks.skip(1));
        (seq![toks[0]] + rest.0, rest.1)
    }
}

/// The redirection that the token `t` names, if it is an operator.
pub fn redirect_op(t: &str) -> (r: Option<(Stream, WriteMode)>)
    ensures
        r == redir_op(t@),
{
    let n = t.unicode_len();
    if n == 0 || n > 3 {
        return None;
    }
    let c0 = t.get_char(0);
    if n == 1 {
        if c0 == '>' {
            assert(t@ =~= seq!['>']);
            return Some((Stream::Stdout, WriteMode::Truncate));
        }
        return None;
    }
    let c1 = t.get_char(1);
    if n == 2 {
        if c0 == '1' && c1 == '>' {
            assert(t@ =~= seq!['1', '>']);
            return Some((Stream::Stdout, WriteMode::Truncate));
        } else if c0 == '>' && c1 == '>' {
            assert(t@ =~= seq!['>', '>']);
            return Some((Stream::Stdout, WriteMode::Append));
        } else if c0 == '2' && c1 == '>' {
            assert(t@ =~= seq!['2', '>']);
            return Some((Stream::Stderr, WriteMode::Truncate));
        }
        return None;
    }
    let c2 = t.get_char(2);
    if c0 == '1' && c1 == '>' && c2 == '>' {
        assert(t@ =~= seq!['1', '>', '>']);
        Some((Stream::Stdout, WriteMode::Append))
    } else if c0 == '2' && c1 == '>' && c2 == '>' {
        assert(t@ =~= seq!['2', '>', '>']);
        Some((Stream::Stderr, WriteMode::Append))
    } else {
        None
    }
}

/// Separates the redirections of a token list from the command's own words.
pub fn parse_redirection(args: &Vec<String>) -> (r: ParsedCommand)
    ensures
        r.args.deep_view() == plan(args.deep_view()).0,
        r.redirects@.map_values(|x: Redirect| x@) == plan(args.deep_view()).1,
{
    let ghost toks = args.deep_view();
    let mut cmd_args: Vec<String> = Vec::new();
    let mut redirects: Vec<Redirect> = Vec::new();
    let mut i: usize = 0;
    proof {
        assert(toks.skip(0) =~= toks);
        assert(cmd_args.deep_view() + plan(toks).0 =~= plan(toks).0);
        assert(redirects@.map_values(|x: Redirect| x@) + plan(toks).1 =~= plan(toks).1);
    }
    while i < args.len()
        invariant
            i <= args.len(),
            toks == args.deep_view(),
            cmd_args.deep_view() + plan(toks.skip(i as int)).0 == plan(toks).0,
            redirects@.map_values(|x: Redirect| x@) + plan(toks.skip(i as int)).1 == plan(toks).1,
        decreases args.len() - i,
    {
        let ghost rest = toks.skip(i as int);
        assert(rest[0] == args[i as int]@);
        let op = redirect_op(args[i].as_str());
        if op.is_some() && i + 1 < args.len() {
            let (stream, mode) = op.unwrap();
            let path = args[i + 1].clone();
            proof {
                assert(rest[1] == args[i + 1]@);
                assert(rest.skip(2) =~= toks.skip(i + 2));
            }
            let ghost old_r = redirects@.map_values(|x: Redirect| x@);
            redirects.push(Redirect { stream, mode, path });
            proof {
                assert(redirects@.map_values(|x: Redirect| x@) =~= old_r.push((stream, mode, rest[1])));
                assert(cmd_args.deep_view() + plan(toks.skip(i + 2)).0 == plan(toks).0);
                assert(old_r.push((stream, mode, rest[1])) + plan(toks.skip(i + 2)).1 =~= old_r + (seq![(stream, mode, rest[1])] + plan(toks.skip(i + 2)).1));
            }
            i = i + 2;
        } else {
            let word = args[i].clone();
            proof {
                assert(rest.skip(1) =~= toks.skip(i + 1));
            }
            let ghost old_a = cmd_args.deep_view();
            cmd_args.push(word);
            proof {
                assert(cmd_args.deep_view() =~= old_a.push(rest[0]));
                assert(old_a.push(rest[0]) + plan(toks.skip(i + 1)).0 =~= old_a + (seq![rest[0]] + plan(toks.skip(i + 1)).0));
            }
            i = i + 1;
        }
    }
    proof {
        assert(toks.skip(i as int) =~= Seq::<Seq<char>>::empty());
        assert(cmd_args.deep_view() + Seq::<Seq<char>>::empty() =~= cmd_args.deep_view());
        assert(redirects@.map_values(|x: Redirect| x@) + Seq::<(Stream, WriteMode, Seq<char>)>::empty() =~= redirects@.map_values(|x: Redirect| x@));
    }
    ParsedCommand { args: cmd_args, redirects }
}

/// Every token ends up either as an argument or in a redirection, where an
/// operator and its target take two: nothing is lost or duplicated.
pub proof fn lemma_plan_accounts_for_every_token(toks: Seq<Seq<char>>)
    ensures
        plan(toks).0.len() + 2 * plan(toks).1.len() == toks.len(),
    decreases toks.len(),
{
    if toks.len() >= 2 && redir_op(toks[0]) is Some {
        lemma_plan_accounts_for_every_token(toks.skip(2));
    } else if toks.len() > 0 {
        lemma_plan_accounts_for_every_token(toks.skip(1));
    }
}

/// A redirection operator reaches the command's arguments only as the very
/// last token of the line, where it has no target; every other operator is
/// taken out together with its target.
pub proof fn lemma_operators_never_reach_arguments(toks: Seq<Seq<char>>)
    ensures
        forall|i: int|
            0 <= i < plan(toks).0.len() && (#[trigger] redir_op(plan(toks).0[i])) is Some
                ==> i == plan(toks).0.len() - 1 && plan(toks).0[i] == toks.last(),
    decreases toks.len(),
{
    if toks.len() >= 2 && redir_op(toks[0]) is Some {
        let rest = toks.skip(2);
        lemma_operators_never_reach_arguments(rest);
        if rest.len() > 0 {
            assert(rest.last() == toks.last());
        }
    } else if toks.len() > 0 {
        let rest = toks.skip(1);
        lemma_operators_never_reach_arguments(rest);
        lemma_plan_empty_args(rest);
        if rest.len() > 0 {
            assert(rest.last() == toks.last());
        }
        let a = plan(toks).0;
        assert forall|i: int| 0 <= i < a.len() && (#[trigger] redir_op(a[i])) is Some
            implies i == a.len() - 1 && a[i] == toks.last() by {
            if i == 0 {
                assert(toks.len() == 1);
                assert(rest.len() == 0);
            } else {
                assert(a[i] == plan(rest).0[i - 1]);
            }
        }
    }
}

proof fn lemma_plan_empty_args(toks: Seq<Seq<char>>)
    ensures
        toks.len() == 0 ==> plan(toks).0.len() == 0,
{
}

/// Of each stream, the redirection that is in force after the first `n`
/// have been tried: the last of them whose file could be opened.
pub open spec fn last_opened(rs: Seq<(Stream, WriteMode, Seq<char>)>, opened: Seq<bool>, s: Stream, n: int) -> Option<int>
    decreases n,
{
    if n <= 0 {
        None
    } else if opened[n - 1] && rs[n - 1].0 == s {
        Some(n - 1)
    } else {
        last_opened(rs, opened, s, n - 1)
    }
}

/// An optional position as a mathematical integer.
pub open spec fn as_index(o: Option<usize>) -> Option<int> {
    match o {
        Some(i) => Some(i as int),
        None => None,
    }
}

/// Which redirections become the command's sinks, once each has been tried
/// in order (`opened[i]` tells whether the file of `redirects[i]` could be
/// opened): for output and for errors, the index of the last one of that
/// stream that was opened, or `None` where the inherited stream stays.
pub fn select_sinks(redirects: &Vec<Redirect>, opened: &Vec<bool>) -> (r: (Option<usize>, Option<usize>))
    requires
        opened.len() == redirects.len(),
    ensures
        ({
            let rs = redirects@.map_values(|x: Redirect| x@);
            &&& as_index(r.0) == last_opened(rs, opened@, Stream::Stdout, rs.len() as int)
            &&& as_index(r.1) == last_opened(rs, opened@, Stream::Stderr, rs.len() as int)
        }),
{
    let ghost rs = redirects@.map_values(|x: Redirect| x@);
    let mut out: Option<usize> = None;
    let mut err: Option<usize> = None;
    let mut i: usize = 0;
    while i < redirects.len()
        invariant
            i <= redirects.len(),
            opened.len() == redirects.len(),
            rs == redirects@.map_values(|x: Redirect| x@),
            as_index(out) == last_opened(rs, opened@, Stream::Stdout, i as int),
            as_index(err) == last_opened(rs, opened@, Stream::Stderr, i as int),
        decreases redirects.len() - i,
    {
        assert(rs[i as int].0 == redirects[i as int].stream);
        if opened[i] {
            match redirects[i].stream {
                Stream::Stdout => {
                    out = Some(i);
                },
                Stream::Stderr => {
                    err = Some(i);
                },
            }
        }
        i = i + 1;
    }
    (out, err)
}

} // verus!
