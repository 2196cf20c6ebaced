//! From a raw command line to a command ready to run, and the search of the
//! executable path.
use vstd::prelude::*;
use crate::builtins::same_text;
use crate::lexer::{parse_quotes, tokenize};
use crate::redirect::{parse_redirection, plan, ParsedCommand, Redirect};

verus! {

/// Lexes a command line and takes its redirections out. `None` where no
/// command word is left (an empty or blank line): there is nothing to run.
pub fn resolve_line(line: &str) -> (r: Option<ParsedCommand>)
    ensures
        match r {
            None => plan(tokenize(line@)).0.len() == 0,
            Some(c) => {
                &&& plan(tokenize(line@)).0.len() > 0
                &&& c.args.deep_view() == plan(tokenize(line@)).0
                &&& c.redirects@.map_values(|x: Redirect| x@) == plan(tokenize(line@)).1
            },
        },
{
    let tokens = parse_quotes(line);
    let parsed = parse_redirection(&tokens);
    if parsed.args.len() == 0 {
        assert(parsed.args.deep_view().len() == 0);
        None
    } else {
        Some(parsed)
    }
}

/// `s` cut at every `:`; an empty string gives one empty part.
pub open spec fn split_colon(s: Seq<char>) -> Seq<Seq<char>>
    decreases s.len(),
{
    if s.len() == 0 {
        seq![Seq::empty()]
    } else {
        let parts = split_colon(s.drop_last());
        if s.last() == ':' {
            parts.push(Seq::empty())
        } else {
            parts.update(parts.len() - 1, parts.last().push(s.last()))
        }
    }
}

proof fn lemma_split_colon_nonempty(s: Seq<char>)
    ensures
        split_colon(s).len() >= 1,
    decreases s.len(),
{
    if s.len() > 0 {
        lemma_split_colon_nonempty(s.drop_last());
    }
}

/// The directories of a `PATH`-style value, in the order listed.
pub fn path_dirs(path_var: &str) -> (r: Vec<String>)
    ensures
        r.deep_view() == split_colon(path_var@),
{
    let ghost s = path_var@;
    let mut parts: Vec<String> = Vec::new();
    let mut cur = String::new();
    for c in it: path_var.chars()
        invariant
            it.seq() == s,
            parts.deep_view().push(cur@) == split_colon(s.take(it.index() as int)),
    {
        let ghost before = s.take(it.index() as int);
        proof {
            assert(s.take(it.index() + 1).drop_last() == before);
            assert(s.take(it.index() + 1).last() == c);
            lemma_split_colon_nonempty(before);
        }
        let ghost old_parts = parts.deep_view();
        if c == ':' {
            let done = cur;
            parts.push(done);
            cur = String::new();
            assert(parts.deep_view() =~= old_parts.push(done@));
            assert(parts.deep_view().push(cur@) =~= split_colon(before).push(Seq::empty()));
        } else {
            let ghost old_cur = cur@;
            cur.push(c);
            assert(parts.deep_view().push(cur@) =~= old_parts.push(old_cur).update(old_parts.len() as int, old_cur.push(c)));
        }
    }
    proof {
        assert(s.take(s.len() as int) == s);
    }
    parts.push(cur);
    parts
}

/// The first of the names that equals `cmd`, where a directory listing is
/// searched for a command word.
pub fn find_entry(cmd: &str, names: &Vec<String>) -> (r: Option<usize>)
    ensures
        match r {
            Some(i) => i < names.len() && names[i as int]@ == cmd@ && forall|j: int|
                0 <= j < i ==> #[trigger] names[j]@ != cmd@,
            None => forall|j: int| 0 <= j < names.len() ==> #[trigger] names[j]@ != cmd@,
        },
{
    let mut i: usize = 0;
    while i < names.len()
        invariant
            i <= names.len(),
            forall|j: int| 0 <= j < i ==> #[trigger] names[j]@ != cmd@,
        decreases names.len() - i,
    {
        if same_text(names[i].as_str(), cmd) {
            return Some(i);
        }
        i = i + 1;
    }
    None
}

} // verus!
