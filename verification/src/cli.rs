//! The command line: `-f <manifest>` names the manifest (`Hermitfile`
//! where it is not given), `-o <output>` the file to write (`wasm.com`
//! where it is not given), and `-h` or `--help` asks for the usage. A path
//! may also be joined to its flag, as in `-f=path`. Arguments are read left
//! to right, a later flag replaces an earlier one, reading stops at a
//! request for help, and anything else is passed over.

use vstd::prelude::*;
use vstd::string::*;
use crate::text::{chars_of, same_text, slice_of};

verus! {

/// A flag that takes a path.
#[derive(Clone, Copy, Debug, PartialEq, Eq, Structural)]
pub enum Flag {
    /// `-f`, the manifest.
    Hermitfile,
    /// `-o`, the output.
    Output,
}

/// Why a command line cannot be followed.
#[derive(Clone, Copy, Debug, PartialEq, Eq, Structural)]
pub enum UsageError {
    /// The flag stands last, without the path it takes.
    MissingArgument(Flag),
}

/// What a command line asks for.
#[derive(Clone, Debug, PartialEq, Eq)]
pub struct Invocation {
    /// The manifest to compile.
    pub hermitfile_path: String,
    /// The file to write.
    pub output_path: String,
    /// Whether the usage was asked for.
    pub help: bool,
}

/// An invocation as contracts see it.
pub struct InvocationView {
    pub hermitfile_path: Seq<char>,
    pub output_path: Seq<char>,
    pub help: bool,
}

impl View for Invocation {
    type V = InvocationView;

    open spec fn view(&self) -> InvocationView {
        InvocationView {
            hermitfile_path: self.hermitfile_path@,
            output_path: self.output_path@,
            help: self.help,
        }
    }
}

/// What an empty command line asks for.
pub open spec fn defaults() -> InvocationView {
    InvocationView { hermitfile_path: "Hermitfile"@, output_path: "wasm.com"@, help: false }
}

/// Whether `arg` is `flag`, `=` and a path.
pub open spec fn is_joined(arg: Seq<char>, flag: char) -> bool {
    arg.len() >= 3 && arg[0] == '-' && arg[1] == flag && arg[2] == '='
}

/// What the arguments from `i` on ask for, given what those before asked
/// for.
pub open spec fn scanned(args: Seq<Seq<char>>, i: int, so_far: InvocationView) -> Result<
    InvocationView,
    UsageError,
>
    decreases args.len() - i,
{
    if i < 0 || i >= args.len() {
        Ok(so_far)
    } else if args[i] == "-h"@ || args[i] == "--help"@ {
        Ok(InvocationView { help: true, ..so_far })
    } else if args[i] == "-f"@ {
        if i + 1 < args.len() {
            scanned(args, i + 2, InvocationView { hermitfile_path: args[i + 1], ..so_far })
        } else {
            Err(UsageError::MissingArgument(Flag::Hermitfile))
        }
    } else if args[i] == "-o"@ {
        if i + 1 < args.len() {
            scanned(args, i + 2, InvocationView { output_path: args[i + 1], ..so_far })
        } else {
            Err(UsageError::MissingArgument(Flag::Output))
        }
    } else if is_joined(args[i], 'f') {
        scanned(args, i + 1, InvocationView { hermitfile_path: args[i].skip(3), ..so_far })
    } else if is_joined(args[i], 'o') {
        scanned(args, i + 1, InvocationView { output_path: args[i].skip(3), ..so_far })
    } else {
        scanned(args, i + 1, so_far)
    }
}

/// What the command line `args` asks for.
pub open spec fn invocation(args: Seq<Seq<char>>) -> Result<InvocationView, UsageError> {
    scanned(args, 0, defaults())
}

/// The path joined to `flag` in `arg`, where `arg` is the flag, `=` and a
/// path.
fn joined_path(arg: &String, flag: char) -> (r: Option<String>)
    ensures
        match r {
            Some(path) => is_joined(arg@, flag) && path@ == arg@.skip(3),
            None => !is_joined(arg@, flag),
        },
{
    let chars = chars_of(arg.as_str());
    if chars.len() >= 3 && chars[0] == '-' && chars[1] == flag && chars[2] == '=' {
        Some(slice_of(arg.as_str(), 3, chars.len()))
    } else {
        None
    }
}

/// Reads the command line `args`, the arguments behind the program's name.
/// Fails exactly where a `-f` or `-o` that is read stands last.
pub fn read_arguments(args: &Vec<String>) -> (r: Result<Invocation, UsageError>)
    ensures
        match r {
            Ok(found) => invocation(args.deep_view()) == Ok::<InvocationView, UsageError>(found@),
            Err(e) => invocation(args.deep_view()) == Err::<InvocationView, UsageError>(e),
        },
{
    let ghost all = args.deep_view();
    let mut found = Invocation {
        hermitfile_path: String::from_str("Hermitfile"),
        output_path: String::from_str("wasm.com"),
        help: false,
    };
    let n = args.len();
    let mut i: usize = 0;
    while i < n
        invariant
            n == args.len(),
            i <= n,
            all == args.deep_view(),
            invocation(all) == scanned(all, i as int, found@),
        decreases n - i,
    {
        let arg = &args[i];
        assert(all[i as int] == arg@);
        if same_text(arg.as_str(), "-h") || same_text(arg.as_str(), "--help") {
            found.help = true;
            return Ok(found);
        } else if same_text(arg.as_str(), "-f") {
            if i + 1 < n {
                assert(all[i + 1] == args[i + 1]@);
                found.hermitfile_path = args[i + 1].clone();
                i += 2;
            } else {
                return Err(UsageError::MissingArgument(Flag::Hermitfile));
            }
        } else if same_text(arg.as_str(), "-o") {
            if i + 1 < n {
                assert(all[i + 1] == args[i + 1]@);
                found.output_path = args[i + 1].clone();
                i += 2;
            } else {
                return Err(UsageError::MissingArgument(Flag::Output));
            }
        } else {
            match joined_path(arg, 'f') {
                Some(path) => {
                    found.hermitfile_path = path;
                },
                None => match joined_path(arg, 'o') {
                    Some(path) => {
                        found.output_path = path;
                    },
                    None => {},
                },
            }
            i += 1;
        }
    }
    Ok(found)
}

/// The manifest that the command line `args` names: `Hermitfile` unless
/// `-f` says otherwise. A command line that cannot be followed names none.
pub open spec fn hermitfile_path_of(args: Seq<Seq<char>>) -> Result<Seq<char>, UsageError> {
    match invocation(args) {
        Ok(found) => Ok(found.hermitfile_path),
        Err(e) => Err(e),
    }
}

/// The manifest that the command line `args` names. Fails exactly where
/// the command line cannot be followed: a `-f` or `-o` that is read stands
/// last, without its path.
pub fn get_hermitfile_path(args: &Vec<String>) -> (r: Result<String, UsageError>)
    ensures
        match r {
            Ok(path) => hermitfile_path_of(args.deep_view()) == Ok::<Seq<char>, UsageError>(path@),
            Err(e) => hermitfile_path_of(args.deep_view()) == Err::<Seq<char>, UsageError>(e),
        },
{
    match read_arguments(args) {
        Ok(found) => Ok(found.hermitfile_path),
        Err(e) => Err(e),
    }
}

impl UsageError {
    /// What is wrong with the command line, in words.
    pub open spec fn spec_describe(self) -> Seq<char> {
        match self {
            UsageError::MissingArgument(Flag::Hermitfile) => "the flag -f lacks its argument, the manifest's path"@,
            UsageError::MissingArgument(Flag::Output) => "the flag -o lacks its argument, the output's path"@,
        }
    }

    /// What is wrong with the command line, in words.
    pub fn describe(&self) -> (r: String)
        ensures
            r@ == self.spec_describe(),
    {
        match self {
            UsageError::MissingArgument(Flag::Hermitfile) => String::from_str(
                "the flag -f lacks its argument, the manifest's path",
            ),
            UsageError::MissingArgument(Flag::Output) => String::from_str(
                "the flag -o lacks its argument, the output's path",
            ),
        }
    }
}

} // verus!
