//! The builtin operation table: names, argument arity, and the validated
//! operation each invocation stands for.
//!
//! A builtin runs inside the shell process. This module decides, from a
//! builtin's name and arguments alone, which operation is requested or
//! which usage error is to be reported; carrying the operation out (the
//! filesystem access, the printing) is the host's part.

use crate::words::str_eq;
use vstd::prelude::*;

verus! {

/// A validated builtin invocation, ready to be carried out.
#[derive(Debug, PartialEq)]
pub enum BuiltinOp {
    /// Print the working directory.
    Pwd,
    /// Change directory; `None` means the user's home directory.
    Cd(Option<String>),
    /// List the entries of a directory.
    Ls(String),
    /// Create the file if it does not exist.
    Touch(String),
    /// Print one word of text.
    Echo(String),
    /// Print a file's contents, each line numbered.
    Cat(String),
    /// Copy the first file to the second.
    Cp(String, String),
    /// Remove files.
    Rm(Vec<String>),
    /// Remove directories and their contents.
    RmRecursive(Vec<String>),
    /// Rename the first file to the second.
    Rename(String, String),
    /// Print the lines entered so far.
    History,
    /// Leave the shell with exit code 0.
    Quit,
}

/// Mathematical image of a `BuiltinOp`.
#[verifier::ext_equal]
pub enum BuiltinOpV {
    Pwd,
    Cd(Option<Seq<char>>),
    Ls(Seq<char>),
    Touch(Seq<char>),
    Echo(Seq<char>),
    Cat(Seq<char>),
    Cp(Seq<char>, Seq<char>),
    Rm(Seq<Seq<char>>),
    RmRecursive(Seq<Seq<char>>),
    Rename(Seq<char>, Seq<char>),
    History,
    Quit,
}

impl View for BuiltinOp {
    type V = BuiltinOpV;

    open spec fn view(&self) -> BuiltinOpV {
        match self {
            BuiltinOp::Pwd => BuiltinOpV::Pwd,
            BuiltinOp::Cd(p) => BuiltinOpV::Cd(p.deep_view()),
            BuiltinOp::Ls(p) => BuiltinOpV::Ls(p@),
            BuiltinOp::Touch(p) => BuiltinOpV::Touch(p@),
            BuiltinOp::Echo(s) => BuiltinOpV::Echo(s@),
            BuiltinOp::Cat(p) => BuiltinOpV::Cat(p@),
            BuiltinOp::Cp(a, b) => BuiltinOpV::Cp(a@, b@),
            BuiltinOp::Rm(v) => BuiltinOpV::Rm(v.deep_view()),
            BuiltinOp::RmRecursive(v) => BuiltinOpV::RmRecursive(v.deep_view()),
            BuiltinOp::Rename(a, b) => BuiltinOpV::Rename(a@, b@),
            BuiltinOp::History => BuiltinOpV::History,
            BuiltinOp::Quit => BuiltinOpV::Quit,
        }
    }
}

/// A usage mistake in a builtin invocation. It is reported to the user;
/// the read loop goes on.
#[derive(Debug, PartialEq)]
pub enum BuiltinError {
    /// The builtin needs a file operand and got none.
    MissingFileOperand,
    /// The builtin got a source operand (carried here) but no destination.
    MissingDestination(String),
    /// The builtin got more arguments than it takes.
    TooManyArguments,
    /// The name (carried here) is not in the builtin table.
    UnknownCommand(String),
}

/// Mathematical image of a `BuiltinError`.
#[verifier::ext_equal]
pub enum BuiltinErrorV {
    MissingFileOperand,
    MissingDestination(Seq<char>),
    TooManyArguments,
    UnknownCommand(Seq<char>),
}

impl View for BuiltinError {
    type V = BuiltinErrorV;

    open spec fn view(&self) -> BuiltinErrorV {
        match self {
            BuiltinError::MissingFileOperand => BuiltinErrorV::MissingFileOperand,
            BuiltinError::MissingDestination(s) => BuiltinErrorV::MissingDestination(s@),
            BuiltinError::TooManyArguments => BuiltinErrorV::TooManyArguments,
            BuiltinError::UnknownCommand(s) => BuiltinErrorV::UnknownCommand(s@),
        }
    }
}

/// `w` names a builtin: the first word of a line decides, once, whether
/// the line is a builtin invocation or an external pipeline.
pub open spec fn is_builtin_name(w: Seq<char>) -> bool {
    ||| w == "pwd2"@
    ||| w == "cd2"@
    ||| w == "ls2"@
    ||| w == "touch2"@
    ||| w == "echo2"@
    ||| w == "cat2"@
    ||| w == "cp2"@
    ||| w == "rm2"@
    ||| w == "rename2"@
    ||| w == "history2"@
    ||| w == "quit"@
}

/// Executable test for `is_builtin_name`.
pub fn is_builtin(w: &str) -> (b: bool)
    ensures
        b == is_builtin_name(w@),
{
    str_eq(w, "pwd2") || str_eq(w, "cd2") || str_eq(w, "ls2") || str_eq(w, "touch2") || str_eq(
        w,
        "echo2",
    ) || str_eq(w, "cat2") || str_eq(w, "cp2") || str_eq(w, "rm2") || str_eq(w, "rename2")
        || str_eq(w, "history2") || str_eq(w, "quit")
}

/// The operation, or usage error, that the invocation `name args...`
/// stands for.
pub open spec fn spec_plan_builtin(name: Seq<char>, args: Seq<Seq<char>>) -> Result<
    BuiltinOpV,
    BuiltinErrorV,
> {
    if name == "pwd2"@ {
        Ok(BuiltinOpV::Pwd)
    } else if name == "cd2"@ {
        if args.len() == 0 {
            Ok(BuiltinOpV::Cd(None))
        } else {
            Ok(BuiltinOpV::Cd(Some(args[0])))
        }
    } else if name == "ls2"@ {
        if args.len() == 0 {
            Ok(BuiltinOpV::Ls("."@))
        } else {
            Ok(BuiltinOpV::Ls(args[0]))
        }
    } else if name == "touch2"@ {
        if args.len() == 0 {
            Err(BuiltinErrorV::MissingFileOperand)
        } else if args.len() == 1 {
            Ok(BuiltinOpV::Touch(args[0]))
        } else {
            Err(BuiltinErrorV::TooManyArguments)
        }
    } else if name == "echo2"@ {
        if args.len() == 0 {
            Ok(BuiltinOpV::Echo(Seq::empty()))
        } else if args.len() == 1 {
            Ok(BuiltinOpV::Echo(args[0]))
        } else {
            Err(BuiltinErrorV::TooManyArguments)
        }
    } else if name == "cat2"@ {
        if args.len() == 0 {
            Err(BuiltinErrorV::MissingFileOperand)
        } else {
            Ok(BuiltinOpV::Cat(args[0]))
        }
    } else if name == "cp2"@ {
        if args.len() == 0 {
            Err(BuiltinErrorV::MissingFileOperand)
        } else if args.len() == 1 {
            Err(BuiltinErrorV::MissingDestination(args[0]))
        } else if args.len() == 2 {
            Ok(BuiltinOpV::Cp(args[0], args[1]))
        } else {
            Err(BuiltinErrorV::TooManyArguments)
        }
    } else if name == "rm2"@ {
        if args.len() == 0 {
            Err(BuiltinErrorV::MissingFileOperand)
        } else if args[0] == "-r"@ {
            Ok(BuiltinOpV::RmRecursive(args.drop_first()))
        } else {
            Ok(BuiltinOpV::Rm(args))
        }
    } else if name == "rename2"@ {
        if args.len() == 0 {
            Err(BuiltinErrorV::MissingFileOperand)
        } else if args.len() == 1 {
            Err(BuiltinErrorV::MissingDestination(args[0]))
        } else if args.len() == 2 {
            Ok(BuiltinOpV::Rename(args[0], args[1]))
        } else {
            Err(BuiltinErrorV::TooManyArguments)
        }
    } else if name == "history2"@ {
        Ok(BuiltinOpV::History)
    } else if name == "quit"@ {
        Ok(BuiltinOpV::Quit)
    } else {
        Err(BuiltinErrorV::UnknownCommand(name))
    }
}

/// The image of a planned invocation under the views above.
pub open spec fn builtin_plan_view(r: Result<BuiltinOp, BuiltinError>) -> Result<
    BuiltinOpV,
    BuiltinErrorV,
> {
    match r {
        Ok(o) => Ok(o@),
        Err(e) => Err(e@),
    }
}

/// Decides which operation the builtin invocation `name args...` asks
/// for, or which usage error it is to be answered with. Pure: nothing is
/// touched; the host carries the returned operation out.
pub fn plan_builtin(name: &str, args: &Vec<String>) -> (r: Result<BuiltinOp, BuiltinError>)
    ensures
        builtin_plan_view(r) == spec_plan_builtin(name@, args.deep_view()),
{
    let ghost av = args.deep_view();
    proof {
        assert(av.len() == args@.len());
    }
    if str_eq(name, "pwd2") {
        Ok(BuiltinOp::Pwd)
    } else if str_eq(name, "cd2") {
        if args.len() == 0 {
            Ok(BuiltinOp::Cd(None))
        } else {
            Ok(BuiltinOp::Cd(Some(args[0].clone())))
        }
    } else if str_eq(name, "ls2") {
        if args.len() == 0 {
            Ok(BuiltinOp::Ls(".".to_owned()))
        } else {
            Ok(BuiltinOp::Ls(args[0].clone()))
        }
    } else if str_eq(name, "touch2") {
        if args.len() == 0 {
            Err(BuiltinError::MissingFileOperand)
        } else if args.len() == 1 {
            Ok(BuiltinOp::Touch(args[0].clone()))
        } else {
            Err(BuiltinError::TooManyArguments)
        }
    } else if str_eq(name, "echo2") {
        if args.len() == 0 {
            Ok(BuiltinOp::Echo(String::new()))
        } else if args.len() == 1 {
            Ok(BuiltinOp::Echo(args[0].clone()))
        } else {
            Err(BuiltinError::TooManyArguments)
        }
    } else if str_eq(name, "cat2") {
        if args.len() == 0 {
            Err(BuiltinError::MissingFileOperand)
        } else {
            Ok(BuiltinOp::Cat(args[0].clone()))
        }
    } else if str_eq(name, "cp2") {
        if args.len() == 0 {
            Err(BuiltinError::MissingFileOperand)
        } else if args.len() == 1 {
            Err(BuiltinError::MissingDestination(args[0].clone()))
        } else if args.len() == 2 {
            Ok(BuiltinOp::Cp(args[0].clone(), args[1].clone()))
        } else {
            Err(BuiltinError::TooManyArguments)
        }
    } else if str_eq(name, "rm2") {
        if args.len() == 0 {
            Err(BuiltinError::MissingFileOperand)
        } else if str_eq(args[0].as_str(), "-r") {
            let dirs = crate::words::clone_range(args, 1, args.len());
            proof {
                assert(dirs.deep_view() =~= av.drop_first());
            }
            Ok(BuiltinOp::RmRecursive(dirs))
        } else {
            let files = crate::words::clone_range(args, 0, args.len());
            proof {
                assert(files.deep_view() =~= av);
            }
            Ok(BuiltinOp::Rm(files))
        }
    } else if str_eq(name, "rename2") {
        if args.len() == 0 {
            Err(BuiltinError::MissingFileOperand)
        } else if args.len() == 1 {
            Err(BuiltinError::MissingDestination(args[0].clone()))
        } else if args.len() == 2 {
            Ok(BuiltinOp::Rename(args[0].clone(), args[1].clone()))
        } else {
            Err(BuiltinError::TooManyArguments)
        }
    } else if str_eq(name, "history2") {
        Ok(BuiltinOp::History)
    } else if str_eq(name, "quit") {
        Ok(BuiltinOp::Quit)
    } else {
        Err(BuiltinError::UnknownCommand(name.to_owned()))
    }
}

} // verus!
