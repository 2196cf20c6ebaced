use codecrafters_shell::builtins::{
    builtin_of, cd_error, command_not_found, handle_cd, handle_echo, handle_exit, handle_pwd,
    handle_type, Builtin,
};

fn strs(v: &[&str]) -> Vec<String> {
    v.iter().map(|s| s.to_string()).collect()
}

#[test]
fn registry_holds_the_builtins() {
    assert_eq!(builtin_of("exit"), Some(Builtin::Exit));
    assert_eq!(builtin_of("echo"), Some(Builtin::Echo));
    assert_eq!(builtin_of("type"), Some(Builtin::Type));
    assert_eq!(builtin_of("pwd"), Some(Builtin::Pwd));
    assert_eq!(builtin_of("cd"), Some(Builtin::Cd));
    assert_eq!(builtin_of("ls"), None);
    assert_eq!(builtin_of("exit2"), None);
    assert_eq!(builtin_of(""), None);
}

#[test]
fn echo_joins_with_spaces() {
    assert_eq!(handle_echo(&strs(&["hello", "world"])), "hello world\n");
    assert_eq!(handle_echo(&strs(&[])), "\n");
    assert_eq!(handle_echo(&strs(&["a  b"])), "a  b\n");
}

#[test]
fn type_of_builtin() {
    let r = handle_type(&strs(&["pwd"]), None);
    assert_eq!(r.out, "pwd is a shell builtin\n");
    assert_eq!(r.err, "");
}

#[test]
fn type_of_path_command() {
    let r = handle_type(&strs(&["ls"]), Some("/bin/ls".to_string()));
    assert_eq!(r.out, "ls is /bin/ls\n");
    assert_eq!(r.err, "");
}

#[test]
fn type_of_unknown_command() {
    let r = handle_type(&strs(&["nosuch"]), None);
    assert_eq!(r.out, "");
    assert_eq!(r.err, "nosuch: not found\n");
}

#[test]
fn type_arity_error() {
    let r = handle_type(&strs(&["a", "b"]), None);
    assert_eq!(r.out, "");
    assert_eq!(r.err, "type: invalid number of args\n");
}

#[test]
fn exit_with_status() {
    assert_eq!(handle_exit(&strs(&["0"])), Ok(0));
    assert_eq!(handle_exit(&strs(&["-3"])), Ok(-3));
    assert_eq!(handle_exit(&strs(&["+42"])), Ok(42));
    assert_eq!(handle_exit(&strs(&["2147483647"])), Ok(i32::MAX));
    assert_eq!(handle_exit(&strs(&["-2147483648"])), Ok(i32::MIN));
}

#[test]
fn exit_bad_argument() {
    assert_eq!(handle_exit(&strs(&["abc"])), Err("exit: invalid argument: abc\n".to_string()));
    assert_eq!(handle_exit(&strs(&["2147483648"])), Err("exit: invalid argument: 2147483648\n".to_string()));
    assert_eq!(handle_exit(&strs(&["-"])), Err("exit: invalid argument: -\n".to_string()));
}

#[test]
fn exit_wrong_arity() {
    assert_eq!(handle_exit(&strs(&["1", "2"])), Err("exit: invalid number of args\n".to_string()));
    assert_eq!(handle_exit(&strs(&[])), Err("exit: invalid number of args\n".to_string()));
}

#[test]
fn pwd_reports() {
    let r = handle_pwd(&strs(&[]), Ok("/home/u".to_string()));
    assert_eq!((r.out.as_str(), r.err.as_str()), ("/home/u\n", ""));
    let r = handle_pwd(&strs(&[]), Err("denied".to_string()));
    assert_eq!((r.out.as_str(), r.err.as_str()), ("", "Current working directory cannot be accessed: denied\n"));
    let r = handle_pwd(&strs(&["x"]), Ok("/".to_string()));
    assert_eq!((r.out.as_str(), r.err.as_str()), ("", "pwd: invalid number of args\n"));
}

#[test]
fn cd_targets() {
    assert_eq!(handle_cd(&strs(&["~"]), "/home/u"), Ok("/home/u".to_string()));
    assert_eq!(handle_cd(&strs(&["/tmp"]), "/home/u"), Ok("/tmp".to_string()));
    assert_eq!(handle_cd(&strs(&["~/x"]), "/home/u"), Ok("~/x".to_string()));
    assert_eq!(handle_cd(&strs(&[]), "/home/u"), Err("cd: invalid number of args\n".to_string()));
}

#[test]
fn cd_failure_message() {
    assert_eq!(cd_error("/does_not_exist"), "cd: /does_not_exist: No such file or directory\n");
}

#[test]
fn not_found_message() {
    assert_eq!(command_not_found("foo"), "foo: command not found\n");
}
