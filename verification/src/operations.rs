//! The text transformations of the companion command-line utility: each
//! operation trims its input and then lowercases it, uppercases it,
//! removes its spaces, slugifies it, leaves it as it is, replaces every
//! character with a crab, or renders it as a comma-separated table.

use vstd::prelude::*;
use vstd::string::{StrSliceExecFns, StringExecFns};

use crate::strutil::{
    spec_split_first, spec_trim, split_at_first_space, str_eq, trim,
};

verus! {

/// The operations the utility can apply.
#[derive(Debug, Clone, Copy, PartialEq, Eq, Structural)]
pub enum Operation {
    Lowercase,
    Uppercase,
    NoSpaces,
    Slugify,
    Unchanged,
    Crabify,
    Csv,
}

/// How an operation, or reading its command, can fail.
#[derive(Debug, Clone, Copy, PartialEq, Eq, Structural)]
pub enum OpError {
    /// The command names no operation.
    UnknownOperation,
    /// The utility was started with the wrong number of arguments.
    WrongArgumentCount { got: usize },
    /// An interactive line holds no space between command and input.
    InvalidInput,
    /// The comma-separated input has no lines at all.
    MissingHeader,
    /// A row's cell count differs from the header's.
    ColumnMismatch { expected: usize, got: usize },
}

/// The operation a command word names, if any.
pub open spec fn spec_operation_of(s: Seq<char>) -> Option<Operation> {
    if s == "lowercase"@ {
        Some(Operation::Lowercase)
    } else if s == "uppercase"@ {
        Some(Operation::Uppercase)
    } else if s == "no-spaces"@ {
        Some(Operation::NoSpaces)
    } else if s == "slugify"@ {
        Some(Operation::Slugify)
    } else if s == "unchanged"@ {
        Some(Operation::Unchanged)
    } else if s == "crabify"@ {
        Some(Operation::Crabify)
    } else if s == "csv"@ {
        Some(Operation::Csv)
    } else {
        None
    }
}

impl Operation {
    /// The operation named by the given command word.
    pub fn from_str(s: &str) -> (r: Result<Operation, OpError>)
        ensures
            match r {
                Ok(op) => spec_operation_of(s@) == Some(op),
                Err(e) => e == OpError::UnknownOperation && spec_operation_of(s@) is None,
            },
    {
        if str_eq(s, "lowercase") {
            Ok(Operation::Lowercase)
        } else if str_eq(s, "uppercase") {
            Ok(Operation::Uppercase)
        } else if str_eq(s, "no-spaces") {
            Ok(Operation::NoSpaces)
        } else if str_eq(s, "slugify") {
            Ok(Operation::Slugify)
        } else if str_eq(s, "unchanged") {
            Ok(Operation::Unchanged)
        } else if str_eq(s, "crabify") {
            Ok(Operation::Crabify)
        } else if str_eq(s, "csv") {
            Ok(Operation::Csv)
        } else {
            Err(OpError::UnknownOperation)
        }
    }
}

/// What `to_lowercase` returns: a function of the characters alone.
pub uninterp spec fn lower_of(s: Seq<char>) -> Seq<char>;

/// What `to_uppercase` returns: a function of the characters alone.
pub uninterp spec fn upper_of(s: Seq<char>) -> Seq<char>;

/// What `slug::slugify` returns: a function of the characters alone.
pub uninterp spec fn slug_of(s: Seq<char>) -> Seq<char>;

/// Relies on str::to_lowercase: the lowercase equivalent of the string,
/// determined by its characters alone.
#[verifier::external_body]
fn to_lowercase_str(s: &str) -> (r: String)
    ensures
        r@ == lower_of(s@),
{
    s.to_lowercase()
}

/// Relies on str::to_uppercase: the uppercase equivalent of the string,
/// determined by its characters alone.
#[verifier::external_body]
fn to_uppercase_str(s: &str) -> (r: String)
    ensures
        r@ == upper_of(s@),
{
    s.to_uppercase()
}

/// Relies on slug::slugify: the ASCII slug of the string, determined by
/// its characters alone.
#[verifier::external_body]
fn slugify_str(s: &str) -> (r: String)
    ensures
        r@ == slug_of(s@),
{
    slug::slugify(s)
}

/// Trims the input and lowercases it.
pub fn lowercase(s: &str) -> (r: Result<String, OpError>)
    ensures
        r matches Ok(t) && t@ == lower_of(spec_trim(s@)),
{
    Ok(to_lowercase_str(trim(s)))
}

/// Trims the input and uppercases it.
pub fn uppercase(s: &str) -> (r: Result<String, OpError>)
    ensures
        r matches Ok(t) && t@ == upper_of(spec_trim(s@)),
{
    Ok(to_uppercase_str(trim(s)))
}

/// Trims the input and removes every space from it.
pub fn no_spaces(s: &str) -> (r: Result<String, OpError>)
    ensures
        r matches Ok(t) && t@ == spec_trim(s@).filter(|c: char| c != ' '),
{
    let t = trim(s);
    let n = t.unicode_len();
    let mut out = String::new();
    let mut i: usize = 0;
    while i < n
        invariant
            n == t@.len(),
            0 <= i <= n,
            out@ == t@.subrange(0, i as int).filter(|c: char| c != ' '),
        decreases n - i,
    {
        let ghost pre = t@.subrange(0, i as int);
        if t.get_char(i) != ' ' {
            out.append(t.substring_char(i, i + 1));
            proof {
                assert(t@.subrange(i as int, (i + 1) as int) =~= seq![t@[i as int]]);
                assert(out@ =~= pre.filter(|c: char| c != ' ').push(t@[i as int]));
            }
        }
        proof {
            assert(t@.subrange(0, i + 1) =~= pre.push(t@[i as int]));
            reveal_with_fuel(Seq::filter, 2);
            assert(pre.push(t@[i as int]).drop_last() =~= pre);
            assert(pre.push(t@[i as int]).filter(|c: char| c != ' ') == if t@[i as int] != ' ' {
                pre.filter(|c: char| c != ' ').push(t@[i as int])
            } else {
                pre.filter(|c: char| c != ' ')
            });
        }
        i = i + 1;
    }
    proof {
        assert(t@.subrange(0, n as int) =~= t@);
    }
    Ok(out)
}

/// Trims the input and slugifies it.
pub fn slugify(s: &str) -> (r: Result<String, OpError>)
    ensures
        r matches Ok(t) && t@ == slug_of(spec_trim(s@)),
{
    Ok(slugify_str(trim(s)))
}

/// Trims the input and returns it otherwise unchanged.
pub fn unchanged(s: &str) -> (r: Result<String, OpError>)
    ensures
        r matches Ok(t) && t@ == spec_trim(s@),
{
    Ok(trim(s).to_owned())
}

/// Trims the input and replaces every character with a crab.
pub fn crabify(s: &str) -> (r: Result<String, OpError>)
    ensures
        r matches Ok(t) && t@ == Seq::new(spec_trim(s@).len(), |i: int| '\u{1f980}'),
{
    let t = trim(s);
    let n = t.unicode_len();
    let mut out = String::new();
    let mut i: usize = 0;
    proof {
        reveal_strlit("\u{1f980}");
    }
    while i < n
        invariant
            n == t@.len(),
            0 <= i <= n,
            out@ == Seq::new(i as nat, |j: int| '\u{1f980}'),
            "\u{1f980}"@ == seq!['\u{1f980}'],
        decreases n - i,
    {
        out.append("\u{1f980}");
        proof {
            assert(out@ =~= Seq::new((i + 1) as nat, |j: int| '\u{1f980}'));
        }
        i = i + 1;
    }
    Ok(out)
}

/// One interactive request: an operation and the text it applies to.
pub struct Input {
    pub command: Operation,
    pub input: String,
}

/// An operation's result, together with the operation that produced it.
pub struct Output {
    pub result: String,
    pub operation: Operation,
}

/// Picks the operation from the command-line arguments (the program name
/// first): exactly one argument is expected, compared ignoring case.
pub fn parse_arguments(arguments: Vec<String>) -> (r: Result<Operation, OpError>)
    ensures
        arguments@.len() != 2 ==> r == Err::<Operation, OpError>(
            OpError::WrongArgumentCount {
                got: (if arguments@.len() > 0 {
                    (arguments@.len() - 1) as usize
                } else {
                    0usize
                }),
            },
        ),
        arguments@.len() == 2 ==> (match r {
            Ok(op) => spec_operation_of(lower_of(arguments@[1]@)) == Some(op),
            Err(e) => e == OpError::UnknownOperation && spec_operation_of(
                lower_of(arguments@[1]@),
            ) is None,
        }),
{
    if arguments.len() != 2 {
        let got = if arguments.len() > 0 {
            arguments.len() - 1
        } else {
            0
        };
        return Err(OpError::WrongArgumentCount { got });
    }
    let lowered = to_lowercase_str(arguments[1].as_str());
    Operation::from_str(lowered.as_str())
}

/// Reads one interactive line: the word before the first space names the
/// operation, the rest is its input.
pub fn parse_line(line: &str) -> (r: Result<Input, OpError>)
    ensures
        match r {
            Ok(inp) => spec_split_first(line@, ' ') matches Some(p) && spec_operation_of(p.0)
                == Some(inp.command) && inp.input@ == p.1,
            Err(e) => match e {
                OpError::InvalidInput => spec_split_first(line@, ' ') is None,
                OpError::UnknownOperation => spec_split_first(line@, ' ') matches Some(p)
                    && spec_operation_of(p.0) is None,
                _ => false,
            },
        },
{
    match split_at_first_space(line) {
        None => Err(OpError::InvalidInput),
        Some(p) => {
            let command = match Operation::from_str(p.0.as_str()) {
                Ok(op) => op,
                Err(e) => {
                    return Err(e);
                },
            };
            Ok(Input { command, input: p.1 })
        },
    }
}

/// Applies the requested operation to the request's input. For the
/// comma-separated table the input is the text to render; reading it from
/// wherever it lives is the caller's business.
pub fn transtext(input: Input) -> (r: Result<Output, OpError>)
    ensures
        match r {
            Ok(o) => {
                &&& o.operation == input.command
                &&& match input.command {
                    Operation::Lowercase => o.result@ == lower_of(spec_trim(input.input@)),
                    Operation::Uppercase => o.result@ == upper_of(spec_trim(input.input@)),
                    Operation::NoSpaces => o.result@ == spec_trim(input.input@).filter(
                        |c: char| c != ' ',
                    ),
                    Operation::Slugify => o.result@ == slug_of(spec_trim(input.input@)),
                    Operation::Unchanged => o.result@ == spec_trim(input.input@),
                    Operation::Crabify => o.result@ == Seq::new(
                        spec_trim(input.input@).len(),
                        |i: int| '\u{1f980}',
                    ),
                    Operation::Csv => crate::csv::spec_csv_ok(input.input@, o.result@),
                }
            },
            Err(e) => input.command is Csv && crate::csv::spec_csv_err(input.input@, e),
        },
{
    let result = match input.command {
        Operation::Lowercase => lowercase(input.input.as_str()),
        Operation::Uppercase => uppercase(input.input.as_str()),
        Operation::NoSpaces => no_spaces(input.input.as_str()),
        Operation::Slugify => slugify(input.input.as_str()),
        Operation::Unchanged => unchanged(input.input.as_str()),
        Operation::Crabify => crabify(input.input.as_str()),
        Operation::Csv => crate::csv::csv(input.input.as_str()),
    };
    match result {
        Ok(s) => Ok(Output { result: s, operation: input.command }),
        Err(e) => Err(e),
    }
}

} // verus!
