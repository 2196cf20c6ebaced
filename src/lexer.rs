//! Splits a command line into tokens, honouring single quotes, double quotes
//! and backslash escapes.
use vstd::prelude::*;

verus! {

/// Which kind of quote, if any, is open at a point of the line.
#[derive(PartialEq, Eq, Structural, Clone, Copy, Debug)]
pub enum Mode {
    Unquoted,
    InSingleQuote,
    InDoubleQuote,
}

/// The lexer's state after a prefix of the line: the quote mode, whether a
/// backslash is waiting for its character, the token being built and the
/// tokens already emitted.
pub struct LexState {
    pub mode: Mode,
    pub escape: bool,
    pub buf: Seq<char>,
    pub tokens: Seq<Seq<char>>,
}

/// Characters with the Unicode `White_Space` property.
pub open spec fn is_ws(c: char) -> bool {
    ('\u{9}' <= c && c <= '\u{d}') || c == ' ' || c == '\u{85}' || c == '\u{a0}'
        || c == '\u{1680}' || ('\u{2000}' <= c && c <= '\u{200a}') || c == '\u{2028}'
        || c == '\u{2029}' || c == '\u{202f}' || c == '\u{205f}' || c == '\u{3000}'
}

/// The characters that a backslash escapes inside double quotes.
pub open spec fn dq_escapable(c: char) -> bool {
    c == '$' || c == '"' || c == '\\'
}

pub open spec fn initial_state() -> LexState {
    LexState { mode: Mode::Unquoted, escape: false, buf: Seq::empty(), tokens: Seq::empty() }
}

/// One character of input taken by the lexer.
pub open spec fn step(st: LexState, c: char) -> LexState {
    match st.mode {
        Mode::Unquoted => {
            if st.escape {
                LexState { escape: false, buf: st.buf.push(c), ..st }
            } else if c == '\\' {
                LexState { escape: true, ..st }
            } else if c == '\'' {
                LexState { mode: Mode::InSingleQuote, ..st }
            } else if c == '"' {
                LexState { mode: Mode::InDoubleQuote, ..st }
            } else if is_ws(c) {
                if st.buf.len() > 0 {
                    LexState { buf: Seq::empty(), tokens: st.tokens.push(st.buf), ..st }
                } else {
                    st
                }
            } else {
                LexState { buf: st.buf.push(c), ..st }
            }
        },
        Mode::InSingleQuote => {
            if c == '\'' {
                LexState { mode: Mode::Unquoted, ..st }
            } else {
                LexState { buf: st.buf.push(c), ..st }
            }
        },
        Mode::InDoubleQuote => {
            if st.escape {
                if dq_escapable(c) {
                    LexState { escape: false, buf: st.buf.push(c), ..st }
                } else {
                    LexState { escape: false, buf: st.buf.push('\\').push(c), ..st }
                }
            } else if c == '\\' {
                LexState { escape: true, ..st }
            } else if c == '"' {
                LexState { mode: Mode::Unquoted, ..st }
            } else {
                LexState { buf: st.buf.push(c), ..st }
            }
        },
    }
}

/// The state after the lexer has taken every character of `s`, left to right.
pub open spec fn scan(s: Seq<char>) -> LexState
    decreases s.len(),
{
    if s.len() == 0 {
        initial_state()
    } else {
        step(scan(s.drop_last()), s.last())
    }
}

/// The tokens of a state at end of input: a non-empty pending token is
/// emitted, whatever quote or escape is still open.
pub open spec fn finish(st: LexState) -> Seq<Seq<char>> {
    if st.buf.len() > 0 {
        st.tokens.push(st.buf)
    } else {
        st.tokens
    }
}

/// The tokens of a command line.
pub open spec fn tokenize(s: Seq<char>) -> Seq<Seq<char>> {
    finish(scan(s))
}

/// Splits `s` on runs of white space, with no quoting at all: the tokens so
/// far and the word being read.
pub open spec fn ws_scan(s: Seq<char>) -> (Seq<Seq<char>>, Seq<char>)
    decreases s.len(),
{
    if s.len() == 0 {
        (Seq::empty(), Seq::empty())
    } else {
        let (words, cur) = ws_scan(s.drop_last());
        let c = s.last();
        if is_ws(c) {
            if cur.len() > 0 {
                (words.push(cur), Seq::empty())
            } else {
                (words, cur)
            }
        } else {
            (words, cur.push(c))
        }
    }
}

/// The maximal runs of non-white-space characters of `s`, in order.
pub open spec fn ws_words(s: Seq<char>) -> Seq<Seq<char>> {
    let (words, cur) = ws_scan(s);
    if cur.len() > 0 {
        words.push(cur)
    } else {
        words
    }
}

/// Whether `s` holds no quote and no backslash.
pub open spec fn is_plain(s: Seq<char>) -> bool {
    forall|i: int| 0 <= i < s.len() ==> s[i] != '\\' && s[i] != '\'' && s[i] != '"'
}

proof fn lemma_scan_plain(s: Seq<char>)
    requires
        is_plain(s),
    ensures
        scan(s).mode == Mode::Unquoted,
        !scan(s).escape,
        scan(s).tokens == ws_scan(s).0,
        scan(s).buf == ws_scan(s).1,
    decreases s.len(),
{
    if s.len() > 0 {
        assert(is_plain(s.drop_last()));
        lemma_scan_plain(s.drop_last());
        assert(s.last() == s[s.len() - 1]);
    }
}

/// A line with no quote and no backslash is split exactly at its runs of
/// white space: leading, trailing and repeated white space yields no token.
pub proof fn lemma_plain_line_splits_on_whitespace(s: Seq<char>)
    requires
        is_plain(s),
    ensures
        tokenize(s) == ws_words(s),
{
    lemma_scan_plain(s);
}

/// Every token of every line is non-empty.
pub proof fn lemma_tokens_nonempty(s: Seq<char>)
    ensures
        forall|i: int| 0 <= i < tokenize(s).len() ==> #[trigger] tokenize(s)[i].len() > 0,
{
    lemma_scan_tokens_nonempty(s);
}

proof fn lemma_scan_tokens_nonempty(s: Seq<char>)
    ensures
        forall|i: int| 0 <= i < scan(s).tokens.len() ==> #[trigger] scan(s).tokens[i].len() > 0,
    decreases s.len(),
{
    if s.len() > 0 {
        lemma_scan_tokens_nonempty(s.drop_last());
    }
}

/// Relies on `String::push`: appends one character.
pub assume_specification[ String::push ](s: &mut String, ch: char)
    ensures
        final(s)@ == old(s)@.push(ch),
;

/// Whether `c` is white space, as `char::is_whitespace` decides it.
pub fn is_whitespace(c: char) -> (r: bool)
    ensures
        r == is_ws(c),
{
    ('\u{9}' <= c && c <= '\u{d}') || c == ' ' || c == '\u{85}' || c == '\u{a0}'
        || c == '\u{1680}' || ('\u{2000}' <= c && c <= '\u{200a}') || c == '\u{2028}'
        || c == '\u{2029}' || c == '\u{202f}' || c == '\u{205f}' || c == '\u{3000}'
}

/// Splits a command line into its tokens.
pub fn parse_quotes(args_str: &str) -> (args: Vec<String>)
    ensures
        args.deep_view() == tokenize(args_str@),
        forall|i: int| 0 <= i < args.len() ==> #[trigger] args[i]@.len() > 0,
{
    let mut args: Vec<String> = Vec::new();
    let mut arg = String::new();
    let mut mode = Mode::Unquoted;
    let mut backslash = false;
    let ghost s = args_str@;
    for c in it: args_str.chars()
        invariant
            it.seq() == s,
            ({
                let st = scan(s.take(it.index() as int));
                st.mode == mode && st.escape == backslash && st.buf == arg@
                    && st.tokens == args.deep_view()
            }),
    {
        let ghost before = s.take(it.index() as int);
        proof {
            assert(s.take(it.index() + 1).drop_last() == before);
            assert(s.take(it.index() + 1).last() == c);
        }
        match mode {
            Mode::Unquoted => {
                if backslash {
                    arg.push(c);
                    backslash = false;
                } else if c == '\\' {
                    backslash = true;
                } else if c == '\'' {
                    mode = Mode::InSingleQuote;
                } else if c == '"' {
                    mode = Mode::InDoubleQuote;
                } else if is_whitespace(c) {
                    if !arg.as_str().is_empty() {
                        let tok = arg;
                        args.push(tok);
                        arg = String::new();
                    }
                } else {
                    arg.push(c);
                }
            },
            Mode::InSingleQuote => {
                if c == '\'' {
                    mode = Mode::Unquoted;
                } else {
                    arg.push(c);
                }
            },
            Mode::InDoubleQuote => {
                if backslash {
                    backslash = false;
                    if !(c == '$' || c == '"' || c == '\\') {
                        arg.push('\\');
                    }
                    arg.push(c);
                } else if c == '\\' {
                    backslash = true;
                } else if c == '"' {
                    mode = Mode::Unquoted;
                } else {
                    arg.push(c);
                }
            },
        }
    }
    proof {
        assert(s.take(s.len() as int) == s);
    }
    if !arg.as_str().is_empty() {
        args.push(arg);
    }
    proof {
        lemma_tokens_nonempty(s);
        assert forall|i: int| 0 <= i < args.len() implies #[trigger] args[i]@.len() > 0 by {
            assert(args.deep_view()[i] == args[i]@);
            assert(tokenize(s)[i].len() > 0);
        }
    }
    args
}

} // verus!
