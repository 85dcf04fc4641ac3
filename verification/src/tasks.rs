//! Reading the arguments of the project's maintenance tasks.

use vstd::prelude::*;

use crate::text::{
    chars_of, parse_u64, push_str, spec_parse_u64, string_of, text_eq, views,
};

verus! {

/// Why the arguments of a task were refused.
#[derive(Debug, Clone, PartialEq, Eq)]
pub struct XtaskError {
    message: String,
}

impl XtaskError {
    pub closed spec fn spec_message(&self) -> Seq<char> {
        self.message@
    }

    pub fn new(message: String) -> (r: Self)
        ensures
            r.spec_message() == message@,
    {
        XtaskError { message }
    }

    pub fn to_string(&self) -> (r: String)
        ensures
            r@ == self.spec_message(),
    {
        self.message.clone()
    }
}

/// The optional `--timeout-secs <seconds>` override of a task: nothing, or a
/// positive number of seconds.
pub open spec fn spec_parse_timeout(args: Seq<Seq<char>>) -> Result<Option<u64>, Seq<char>> {
    if args.len() == 0 {
        Ok(None)
    } else if args.len() != 2 || args[0] != "--timeout-secs"@ {
        Err("expected optional arguments in the form `--timeout-secs <seconds>`"@)
    } else {
        match spec_parse_u64(args[1]) {
            None => Err("timeout value must be a positive integer"@),
            Some(n) => if n == 0 {
                Err("timeout value must be greater than zero"@)
            } else {
                Ok(Some(n as u64))
            },
        }
    }
}

/// Reads the optional timeout override of a task.
pub fn parse_timeout_secs(arguments: Vec<String>) -> (r: Result<Option<u64>, XtaskError>)
    ensures
        match spec_parse_timeout(views(arguments@)) {
            Ok(t) => r == Ok::<Option<u64>, XtaskError>(t),
            Err(m) => r matches Err(e) && e.spec_message() == m,
        },
{
    proof {
        assert(arguments@.len() == views(arguments@).len());
    }
    if arguments.len() == 0 {
        return Ok(None);
    }
    if arguments.len() != 2 || !text_eq(arguments[0].as_str(), "--timeout-secs") {
        proof {
            if arguments@.len() == 2 {
                assert(views(arguments@)[0] == arguments@[0]@);
            }
        }
        return Err(
            XtaskError::new(
                string_of("expected optional arguments in the form `--timeout-secs <seconds>`"),
            ),
        );
    }
    proof {
        assert(views(arguments@)[0] == arguments@[0]@);
        assert(views(arguments@)[1] == arguments@[1]@);
    }
    let digits = chars_of(arguments[1].as_str());
    let seconds = match parse_u64(digits.as_slice()) {
        Some(n) => n,
        None => {
            return Err(XtaskError::new(string_of("timeout value must be a positive integer")));
        },
    };
    if seconds == 0 {
        return Err(XtaskError::new(string_of("timeout value must be greater than zero")));
    }
    Ok(Some(seconds))
}

/// What the TexasSolver evaluation task is asked to do.
#[derive(Debug, Clone, PartialEq, Eq)]
pub struct EvalTexasSolverArgs {
    pub suite: String,
    pub input: String,
    pub output_dir: Option<String>,
}

/// The text of an optional string.
pub open spec fn opt_view(o: Option<String>) -> Option<Seq<char>> {
    match o {
        Some(s) => Some(s@),
        None => None,
    }
}

/// Scans the evaluation task's arguments from position `i`: each flag takes the
/// argument after it (none at the end), a timeout is skipped with its value, and
/// anything else is refused.
pub open spec fn scan_eval_args(
    args: Seq<Seq<char>>,
    i: int,
    suite: Option<Seq<char>>,
    input: Option<Seq<char>>,
    output_dir: Option<Seq<char>>,
) -> Result<(Option<Seq<char>>, Option<Seq<char>>, Option<Seq<char>>), Seq<char>>
    decreases args.len() + 2 - i,
{
    if i < 0 || i >= args.len() {
        Ok((suite, input, output_dir))
    } else {
        let flag = args[i];
        let value = if i + 1 < args.len() {
            Some(args[i + 1])
        } else {
            None
        };
        if flag == "--suite"@ {
            scan_eval_args(args, i + 2, value, input, output_dir)
        } else if flag == "--input"@ {
            scan_eval_args(args, i + 2, suite, value, output_dir)
        } else if flag == "--output-dir"@ {
            scan_eval_args(args, i + 2, suite, input, value)
        } else if flag == "--timeout-secs"@ {
            scan_eval_args(args, i + 2, suite, input, output_dir)
        } else {
            Err("unknown eval-texassolver argument `"@ + flag + "`"@)
        }
    }
}

/// The evaluation task's suite, input and optional output directory; the suite and
/// the input are required.
pub open spec fn spec_parse_eval_args(args: Seq<Seq<char>>) -> Result<
    (Seq<char>, Seq<char>, Option<Seq<char>>),
    Seq<char>,
> {
    match scan_eval_args(args, 0, None, None, None) {
        Err(e) => Err(e),
        Ok((suite, input, output_dir)) => match suite {
            None => Err("missing required `--suite <name>`"@),
            Some(s) => match input {
                None => Err("missing required `--input <path>`"@),
                Some(i) => Ok((s, i, output_dir)),
            },
        },
    }
}

fn value_at(arguments: &Vec<String>, index: usize) -> (r: Option<String>)
    ensures
        opt_view(r) == if index < arguments@.len() {
            Some(arguments@[index as int]@)
        } else {
            None
        },
{
    if index < arguments.len() {
        Some(arguments[index].clone())
    } else {
        None
    }
}

/// Reads the arguments of the TexasSolver evaluation task.
pub fn parse_eval_texassolver_args(arguments: Vec<String>) -> (r: Result<EvalTexasSolverArgs, XtaskError>)
    ensures
        match spec_parse_eval_args(views(arguments@)) {
            Ok((suite, input, output_dir)) => r matches Ok(a) && a.suite@ == suite && a.input@ == input
                && opt_view(a.output_dir) == output_dir,
            Err(m) => r matches Err(e) && e.spec_message() == m,
        },
{
    let ghost args = views(arguments@);
    let mut suite: Option<String> = None;
    let mut input: Option<String> = None;
    let mut output_dir: Option<String> = None;
    let mut index: usize = 0;
    while index < arguments.len()
        invariant
            args == views(arguments@),
            args.len() == arguments@.len(),
            index <= arguments@.len(),
            scan_eval_args(args, 0, None, None, None) == scan_eval_args(
                args,
                index as int,
                opt_view(suite),
                opt_view(input),
                opt_view(output_dir),
            ),
        decreases arguments@.len() - index,
    {
        proof {
            assert(args[index as int] == arguments@[index as int]@);
            if index + 1 < arguments@.len() {
                assert(args[index + 1] == arguments@[index + 1]@);
            }
        }
        let ghost i = index as int;
        let ghost before = scan_eval_args(args, i, opt_view(suite), opt_view(input), opt_view(output_dir));
        let flag = arguments[index].as_str();
        if text_eq(flag, "--suite") {
            suite = value_at(&arguments, index + 1);
        } else if text_eq(flag, "--input") {
            input = value_at(&arguments, index + 1);
        } else if text_eq(flag, "--output-dir") {
            output_dir = value_at(&arguments, index + 1);
        } else if text_eq(flag, "--timeout-secs") {
        } else {
            let mut message = string_of("unknown eval-texassolver argument `");
            push_str(&mut message, flag);
            push_str(&mut message, "`");
            return Err(XtaskError::new(message));
        }
        index = index + 1;
        if index < arguments.len() {
            index = index + 1;
        }
        proof {
            assert(before == scan_eval_args(
                args,
                i + 2,
                opt_view(suite),
                opt_view(input),
                opt_view(output_dir),
            ));
            if index as int == i + 1 {
                assert(scan_eval_args(args, i + 1, opt_view(suite), opt_view(input), opt_view(output_dir))
                    == scan_eval_args(args, i + 2, opt_view(suite), opt_view(input), opt_view(output_dir)));
            }
        }
    }
    let suite = match suite {
        Some(s) => s,
        None => {
            return Err(XtaskError::new(string_of("missing required `--suite <name>`")));
        },
    };
    let input = match input {
        Some(i) => i,
        None => {
            return Err(XtaskError::new(string_of("missing required `--input <path>`")));
        },
    };
    Ok(EvalTexasSolverArgs { suite, input, output_dir })
}

} // verus!
