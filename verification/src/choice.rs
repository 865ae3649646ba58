//! What the user asks for: on the command line and at the prompts.

use crate::decimal::{number_of, parse_number};
use crate::text::{same, trim, trimmed};
use vstd::prelude::*;

verus! {

/// What the command line asks for.
#[derive(Clone, Copy, Debug, PartialEq, Eq, Structural)]
pub enum Invocation {
    /// Save packages of the device.
    Backup,
    /// Install the packages of a backup.
    Install,
    /// There is no argument behind the program's name.
    Missing,
    /// The argument is neither `backup` nor `install`.
    Unknown,
}

/// What the command line `args` asks for, its first entry being the name
/// of the program.
pub open spec fn invocation_of(args: Seq<Seq<char>>) -> Invocation {
    if args.len() < 2 {
        Invocation::Missing
    } else if args[1] == "backup"@ {
        Invocation::Backup
    } else if args[1] == "install"@ {
        Invocation::Install
    } else {
        Invocation::Unknown
    }
}

/// What the command line `args` asks for.
pub fn invocation(args: &Vec<String>) -> (r: Invocation)
    ensures
        r == invocation_of(args.deep_view()),
{
    if args.len() < 2 {
        return Invocation::Missing;
    }
    let word = args[1].as_str();
    assert(args.deep_view()[1] == word@);
    if same(word, "backup") {
        Invocation::Backup
    } else if same(word, "install") {
        Invocation::Install
    } else {
        Invocation::Unknown
    }
}

/// The two kinds of backup.
#[derive(Clone, Copy, Debug, PartialEq, Eq, Structural)]
pub enum BackupMode {
    /// Every third-party package, into a folder of its own.
    New,
    /// The packages that an earlier backup lacks, into a folder of their
    /// own.
    Differential,
}

/// The kind of backup that the answer `line` picks: `1` or `2`, white
/// space around it aside.
pub open spec fn backup_mode_of(line: Seq<char>) -> Option<BackupMode> {
    if trimmed(line) == "1"@ {
        Some(BackupMode::New)
    } else if trimmed(line) == "2"@ {
        Some(BackupMode::Differential)
    } else {
        None
    }
}

/// The kind of backup that the answer `line` picks.
pub fn backup_mode(line: &str) -> (r: Option<BackupMode>)
    ensures
        r == backup_mode_of(line@),
{
    let answer = trim(line);
    if same(answer, "1") {
        Some(BackupMode::New)
    } else if same(answer, "2") {
        Some(BackupMode::Differential)
    } else {
        None
    }
}

/// The index that the answer `line` picks in a list of `count` entries that
/// was shown numbered from one: the answer, white space around it aside,
/// must write a number from 1 to `count`.
pub open spec fn selection_of(line: Seq<char>, count: nat) -> Option<nat> {
    match number_of(trimmed(line)) {
        Some(n) => if 1 <= n <= count {
            Some((n - 1) as nat)
        } else {
            None
        },
        None => None,
    }
}

/// The index that the answer `line` picks in a list of `count` entries.
pub fn selection(line: &str, count: usize) -> (r: Option<usize>)
    ensures
        match r {
            Some(i) => i < count && selection_of(line@, count as nat) == Some(i as nat),
            None => selection_of(line@, count as nat) is None,
        },
{
    match parse_number(trim(line)) {
        Some(n) => if 1 <= n && n <= count {
            Some(n - 1)
        } else {
            None
        },
        None => None,
    }
}

} // verus!
