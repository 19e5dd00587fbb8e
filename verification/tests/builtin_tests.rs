use hjpsh::builtin_cmd::{plan_builtin, BuiltinError, BuiltinOp};

#[test]
fn touch_without_operand_is_an_error_and_touches_nothing() {
    let r = plan_builtin("touch2", &vec![]);
    assert_eq!(r, Err(BuiltinError::MissingFileOperand));
}

#[test]
fn cp_with_one_argument_misses_its_destination() {
    let r = plan_builtin("cp2", &vec!["src.txt".to_string()]);
    assert_eq!(r, Err(BuiltinError::MissingDestination("src.txt".to_string())));
}

#[test]
fn quit_is_accepted_with_no_arguments() {
    assert_eq!(plan_builtin("quit", &vec![]), Ok(BuiltinOp::Quit));
}

#[test]
fn quit_is_accepted_whatever_the_arguments() {
    assert_eq!(
        plan_builtin("quit", &vec!["now".to_string(), "really".to_string()]),
        Ok(BuiltinOp::Quit)
    );
}

#[test]
fn cd_defaults_to_the_home_directory() {
    assert_eq!(plan_builtin("cd2", &vec![]), Ok(BuiltinOp::Cd(None)));
    assert_eq!(
        plan_builtin("cd2", &vec!["/tmp".to_string()]),
        Ok(BuiltinOp::Cd(Some("/tmp".to_string())))
    );
}

#[test]
fn ls_defaults_to_the_working_directory() {
    assert_eq!(plan_builtin("ls2", &vec![]), Ok(BuiltinOp::Ls(".".to_string())));
    assert_eq!(
        plan_builtin("ls2", &vec!["/etc".to_string()]),
        Ok(BuiltinOp::Ls("/etc".to_string()))
    );
}

#[test]
fn echo_defaults_to_the_empty_word() {
    assert_eq!(plan_builtin("echo2", &vec![]), Ok(BuiltinOp::Echo(String::new())));
    assert_eq!(
        plan_builtin("echo2", &vec!["hi".to_string()]),
        Ok(BuiltinOp::Echo("hi".to_string()))
    );
    assert_eq!(
        plan_builtin("echo2", &vec!["a".to_string(), "b".to_string()]),
        Err(BuiltinError::TooManyArguments)
    );
}

#[test]
fn touch_with_too_many_arguments() {
    assert_eq!(
        plan_builtin("touch2", &vec!["a".to_string(), "b".to_string()]),
        Err(BuiltinError::TooManyArguments)
    );
    assert_eq!(
        plan_builtin("touch2", &vec!["a".to_string()]),
        Ok(BuiltinOp::Touch("a".to_string()))
    );
}

#[test]
fn cat_needs_a_file_operand() {
    assert_eq!(plan_builtin("cat2", &vec![]), Err(BuiltinError::MissingFileOperand));
    assert_eq!(
        plan_builtin("cat2", &vec!["notes.txt".to_string()]),
        Ok(BuiltinOp::Cat("notes.txt".to_string()))
    );
}

#[test]
fn cp_full_invocation_and_overflow() {
    assert_eq!(plan_builtin("cp2", &vec![]), Err(BuiltinError::MissingFileOperand));
    assert_eq!(
        plan_builtin("cp2", &vec!["a".to_string(), "b".to_string()]),
        Ok(BuiltinOp::Cp("a".to_string(), "b".to_string()))
    );
    assert_eq!(
        plan_builtin("cp2", &vec!["a".to_string(), "b".to_string(), "c".to_string()]),
        Err(BuiltinError::TooManyArguments)
    );
}

#[test]
fn rm_plain_and_recursive() {
    assert_eq!(plan_builtin("rm2", &vec![]), Err(BuiltinError::MissingFileOperand));
    assert_eq!(
        plan_builtin("rm2", &vec!["a".to_string(), "b".to_string()]),
        Ok(BuiltinOp::Rm(vec!["a".to_string(), "b".to_string()]))
    );
    assert_eq!(
        plan_builtin("rm2", &vec!["-r".to_string(), "dir1".to_string(), "dir2".to_string()]),
        Ok(BuiltinOp::RmRecursive(vec!["dir1".to_string(), "dir2".to_string()]))
    );
}

#[test]
fn rename_needs_both_names() {
    assert_eq!(plan_builtin("rename2", &vec![]), Err(BuiltinError::MissingFileOperand));
    assert_eq!(
        plan_builtin("rename2", &vec!["old".to_string()]),
        Err(BuiltinError::MissingDestination("old".to_string()))
    );
    assert_eq!(
        plan_builtin("rename2", &vec!["old".to_string(), "new".to_string()]),
        Ok(BuiltinOp::Rename("old".to_string(), "new".to_string()))
    );
    assert_eq!(
        plan_builtin("rename2", &vec!["a".to_string(), "b".to_string(), "c".to_string()]),
        Err(BuiltinError::TooManyArguments)
    );
}

#[test]
fn pwd_and_history_take_no_operands() {
    assert_eq!(plan_builtin("pwd2", &vec![]), Ok(BuiltinOp::Pwd));
    assert_eq!(plan_builtin("history2", &vec![]), Ok(BuiltinOp::History));
}

#[test]
fn unknown_name_is_reported_as_such() {
    assert_eq!(
        plan_builtin("frobnicate", &vec!["arg1".to_string()]),
        Err(BuiltinError::UnknownCommand("frobnicate".to_string()))
    );
}
