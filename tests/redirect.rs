use codecrafters_shell::redirect::{parse_redirection, redirect_op, select_sinks, Stream, WriteMode};

fn strs(v: &[&str]) -> Vec<String> {
    v.iter().map(|s| s.to_string()).collect()
}

#[test]
fn redirection_is_stripped_from_arguments() {
    let p = parse_redirection(&strs(&["echo", "hi", ">", "out.txt"]));
    assert_eq!(p.args, strs(&["echo", "hi"]));
    assert_eq!(p.redirects.len(), 1);
    assert_eq!(p.redirects[0].stream, Stream::Stdout);
    assert_eq!(p.redirects[0].mode, WriteMode::Truncate);
    assert_eq!(p.redirects[0].path, "out.txt");
}

#[test]
fn operators_map_to_stream_and_mode() {
    assert_eq!(redirect_op(">"), Some((Stream::Stdout, WriteMode::Truncate)));
    assert_eq!(redirect_op("1>"), Some((Stream::Stdout, WriteMode::Truncate)));
    assert_eq!(redirect_op(">>"), Some((Stream::Stdout, WriteMode::Append)));
    assert_eq!(redirect_op("1>>"), Some((Stream::Stdout, WriteMode::Append)));
    assert_eq!(redirect_op("2>"), Some((Stream::Stderr, WriteMode::Truncate)));
    assert_eq!(redirect_op("2>>"), Some((Stream::Stderr, WriteMode::Append)));
    for t in ["", ">>>", "3>", "2", "1>>>", "x>", "<", "&>"] {
        assert_eq!(redirect_op(t), None);
    }
}

#[test]
fn append_and_error_redirections() {
    let p = parse_redirection(&strs(&["ls", "2>>", "e.log", "-l", "1>>", "o.log"]));
    assert_eq!(p.args, strs(&["ls", "-l"]));
    assert_eq!(p.redirects.len(), 2);
    assert_eq!(p.redirects[0].stream, Stream::Stderr);
    assert_eq!(p.redirects[0].mode, WriteMode::Append);
    assert_eq!(p.redirects[0].path, "e.log");
    assert_eq!(p.redirects[1].stream, Stream::Stdout);
    assert_eq!(p.redirects[1].mode, WriteMode::Append);
    assert_eq!(p.redirects[1].path, "o.log");
}

#[test]
fn trailing_operator_is_an_argument() {
    let p = parse_redirection(&strs(&["echo", "a", ">"]));
    assert_eq!(p.args, strs(&["echo", "a", ">"]));
    assert!(p.redirects.is_empty());
}

#[test]
fn operator_can_take_an_operator_as_target() {
    let p = parse_redirection(&strs(&["a", ">", ">", "b"]));
    assert_eq!(p.args, strs(&["a", "b"]));
    assert_eq!(p.redirects.len(), 1);
    assert_eq!(p.redirects[0].path, ">");
}

#[test]
fn every_token_is_accounted_for() {
    let toks = strs(&["x", "2>", "e", "y", ">", "o", "z", "1>>"]);
    let p = parse_redirection(&toks);
    assert_eq!(p.args.len() + 2 * p.redirects.len(), toks.len());
}

#[test]
fn last_opened_redirection_wins() {
    let p = parse_redirection(&strs(&["c", ">", "a", "2>", "e", ">>", "b", ">", "bad"]));
    assert_eq!(select_sinks(&p.redirects, &vec![true, true, true, false]), (Some(2), Some(1)));
    assert_eq!(select_sinks(&p.redirects, &vec![true, false, false, false]), (Some(0), None));
    assert_eq!(select_sinks(&p.redirects, &vec![true, true, true, true]), (Some(3), Some(1)));
    assert_eq!(select_sinks(&Vec::new(), &Vec::new()), (None, None));
}
