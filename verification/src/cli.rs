//! Argument parsing. Hand-rolled: there are three options and no subcommand tree.
use vstd::prelude::*;

use crate::text::{push_str, str_eq};

verus! {

#[derive(Debug)]
pub enum Command {
    Organize { dry_run: bool },
    Undo,
    Help,
}

pub const USAGE: &'static str = "Usage:
  reorganize              Organize a folder
  reorganize --dry-run    Show what would move, without moving anything
  reorganize undo         Reverse the most recent run

Options:
  -n, --dry-run           Preview only
  -h, --help              Show this message";

pub open spec fn is_help_arg(a: Seq<char>) -> bool {
    a == "-h"@ || a == "--help"@
}

pub open spec fn is_dry_run_arg(a: Seq<char>) -> bool {
    a == "-n"@ || a == "--dry-run"@
}

pub open spec fn is_undo_arg(a: Seq<char>) -> bool {
    a == "undo"@
}

/// The index of the first argument that is neither `--dry-run` nor `undo`,
/// or the number of arguments when there is none.
pub open spec fn first_other(args: Seq<Seq<char>>) -> int
    decreases args.len(),
{
    if args.len() == 0 {
        0
    } else if is_dry_run_arg(args[0]) || is_undo_arg(args[0]) {
        1 + first_other(args.drop_first())
    } else {
        0
    }
}

/// The command that `args` asks for. Arguments are read in order: the first
/// one that is not `--dry-run` or `undo` decides alone, as help or as an
/// unknown argument; otherwise `undo` and `--dry-run` together are an error.
pub open spec fn parse_command(args: Seq<Seq<char>>) -> Result<Command, Seq<char>> {
    let k = first_other(args);
    if k < args.len() {
        if is_help_arg(args[k]) {
            Ok(Command::Help)
        } else {
            Err("Unknown argument: "@ + args[k])
        }
    } else {
        let dry_run = exists|i: int| 0 <= i < args.len() && is_dry_run_arg(#[trigger] args[i]);
        let undo = exists|i: int| 0 <= i < args.len() && is_undo_arg(#[trigger] args[i]);
        if undo && dry_run {
            Err("undo cannot be combined with --dry-run."@)
        } else if undo {
            Ok(Command::Undo)
        } else {
            Ok(Command::Organize { dry_run })
        }
    }
}

pub open spec fn arg_views(args: Seq<String>) -> Seq<Seq<char>> {
    args.map_values(|a: String| a@)
}

/// The recognised arguments are distinct words.
proof fn lemma_flags_distinct()
    ensures
        forall|a: Seq<char>| is_dry_run_arg(a) ==> !is_undo_arg(a) && !is_help_arg(a),
        forall|a: Seq<char>| is_undo_arg(a) ==> !is_help_arg(a),
{
    reveal_strlit("-h");
    reveal_strlit("--help");
    reveal_strlit("-n");
    reveal_strlit("--dry-run");
    reveal_strlit("undo");
    assert("-h"@[1] != "-n"@[1]);
    assert("--help"@.len() != "--dry-run"@.len());
    assert("-h"@.len() != "--dry-run"@.len());
    assert("--help"@.len() != "-n"@.len());
    assert("undo"@.len() != "-n"@.len());
    assert("undo"@.len() != "-h"@.len());
    assert("undo"@.len() != "--help"@.len());
    assert("undo"@.len() != "--dry-run"@.len());
}

proof fn lemma_first_other(args: Seq<Seq<char>>, i: int)
    requires
        0 <= i <= args.len(),
        forall|j: int|
            0 <= j < i ==> is_dry_run_arg(#[trigger] args[j]) || is_undo_arg(args[j]),
        i == args.len() || !(is_dry_run_arg(args[i]) || is_undo_arg(args[i])),
    ensures
        first_other(args) == i,
    decreases i,
{
    if i > 0 {
        let t = args.drop_first();
        assert forall|j: int| 0 <= j < i - 1 implies is_dry_run_arg(#[trigger] t[j])
            || is_undo_arg(t[j]) by {
            assert(t[j] == args[j + 1]);
        }
        lemma_first_other(t, i - 1);
    }
}

pub fn parse_args(args: Vec<String>) -> (r: Result<Command, String>)
    ensures
        match (r, parse_command(arg_views(args@))) {
            (Ok(c), Ok(d)) => c == d,
            (Err(e), Err(f)) => e@ == f,
            _ => false,
        },
{
    let ghost views = arg_views(args@);
    proof {
        lemma_flags_distinct();
    }
    let mut dry_run = false;
    let mut undo = false;
    let mut i: usize = 0;
    while i < args.len()
        invariant
            i <= args.len(),
            views == arg_views(args@),
            forall|a: Seq<char>| is_dry_run_arg(a) ==> !is_undo_arg(a) && !is_help_arg(a),
            forall|a: Seq<char>| is_undo_arg(a) ==> !is_help_arg(a),
            forall|j: int|
                0 <= j < i ==> is_dry_run_arg(#[trigger] views[j]) || is_undo_arg(views[j]),
            dry_run == exists|j: int| 0 <= j < i && is_dry_run_arg(#[trigger] views[j]),
            undo == exists|j: int| 0 <= j < i && is_undo_arg(#[trigger] views[j]),
        decreases args.len() - i,
    {
        let arg = args[i].as_str();
        assert(arg@ == views[i as int]);
        if str_eq(arg, "-h") || str_eq(arg, "--help") {
            proof {
                lemma_first_other(views, i as int);
            }
            return Ok(Command::Help);
        } else if str_eq(arg, "-n") || str_eq(arg, "--dry-run") {
            dry_run = true;
        } else if str_eq(arg, "undo") {
            undo = true;
        } else {
            proof {
                lemma_first_other(views, i as int);
            }
            let mut message = String::new();
            push_str(&mut message, "Unknown argument: ");
            push_str(&mut message, arg);
            return Err(message);
        }
        i = i + 1;
    }
    proof {
        lemma_first_other(views, i as int);
    }
    if undo && dry_run {
        let mut message = String::new();
        push_str(&mut message, "undo cannot be combined with --dry-run.");
        return Err(message);
    }
    if undo {
        return Ok(Command::Undo);
    }
    Ok(Command::Organize { dry_run })
}


/// "1 file" / "2 files".
pub fn file_word(count: u64) -> (word: &'static str)
    ensures
        word@ == (if count == 1 { "file"@ } else { "files"@ }),
{
    if count == 1 {
        "file"
    } else {
        "files"
    }
}

} // verus!
