//! The dealings with `adb`: the arguments it is run with, and what its
//! output says.

use crate::decode::{decode_lossy, decode_strict, fault_text, lossy_text};
use crate::failure::{Failure, FailureKind};
use crate::text::{contains, lines, lines_of, occurs_in, starts_with, trim, trimmed};
use vstd::prelude::*;
use vstd::utf8::{decode_utf8, valid_utf8};

verus! {

/// What a run of `adb` left behind.
#[derive(Clone, Debug, PartialEq, Eq)]
pub struct Output {
    /// The exit status reports success.
    pub success: bool,
    /// What it wrote to its standard output.
    pub stdout: Vec<u8>,
    /// What it wrote to its standard error.
    pub stderr: Vec<u8>,
}

/// An `Output` as a value of specifications.
pub struct OutputView {
    pub success: bool,
    pub stdout: Seq<u8>,
    pub stderr: Seq<u8>,
}

impl View for Output {
    type V = OutputView;

    open spec fn view(&self) -> OutputView {
        OutputView { success: self.success, stdout: self.stdout@, stderr: self.stderr@ }
    }
}

/// Puts a copy of `word` at the end of `words`.
fn push_word(words: &mut Vec<String>, word: &str)
    ensures
        final(words).deep_view() == old(words).deep_view().push(word@),
{
    let ghost before = words.deep_view();
    words.push(word.to_string());
    assert(words.deep_view() =~= before.push(word@));
}

/// The arguments that ask `adb` for its version.
pub open spec fn version_words() -> Seq<Seq<char>> {
    seq!["version"@]
}

/// The arguments that ask `adb` for the devices it sees.
pub open spec fn devices_words() -> Seq<Seq<char>> {
    seq!["devices"@]
}

/// The arguments that ask the device for its third-party packages.
pub open spec fn list_words() -> Seq<Seq<char>> {
    seq!["shell"@, "pm"@, "list"@, "packages"@, "-3"@]
}

/// The arguments that ask the device for the files of `package`.
pub open spec fn path_words(package: Seq<char>) -> Seq<Seq<char>> {
    seq!["shell"@, "pm"@, "path"@, package]
}

/// The arguments that copy the device file `remote` to `local`.
pub open spec fn pull_words(remote: Seq<char>, local: Seq<char>) -> Seq<Seq<char>> {
    seq!["pull"@, remote, local]
}

/// The arguments that install `files` as one package: `install` for a
/// single file, `install-multiple` for any other number.
pub open spec fn install_words(files: Seq<Seq<char>>) -> Seq<Seq<char>> {
    if files.len() == 1 {
        seq!["install"@] + files
    } else {
        seq!["install-multiple"@] + files
    }
}

/// The arguments that ask `adb` for its version.
pub fn version_arguments() -> (r: Vec<String>)
    ensures
        r.deep_view() == version_words(),
{
    let mut r: Vec<String> = Vec::new();
    assert(r.deep_view() =~= Seq::empty());
    push_word(&mut r, "version");
    r
}

/// The arguments that ask `adb` for the devices it sees.
pub fn devices_arguments() -> (r: Vec<String>)
    ensures
        r.deep_view() == devices_words(),
{
    let mut r: Vec<String> = Vec::new();
    assert(r.deep_view() =~= Seq::empty());
    push_word(&mut r, "devices");
    r
}

/// The arguments that ask the device for its third-party packages.
pub fn list_arguments() -> (r: Vec<String>)
    ensures
        r.deep_view() == list_words(),
{
    let mut r: Vec<String> = Vec::new();
    assert(r.deep_view() =~= Seq::empty());
    push_word(&mut r, "shell");
    push_word(&mut r, "pm");
    push_word(&mut r, "list");
    push_word(&mut r, "packages");
    push_word(&mut r, "-3");
    r
}

/// The arguments that ask the device for the files of `package`.
pub fn path_arguments(package: &str) -> (r: Vec<String>)
    ensures
        r.deep_view() == path_words(package@),
{
    let mut r: Vec<String> = Vec::new();
    assert(r.deep_view() =~= Seq::empty());
    push_word(&mut r, "shell");
    push_word(&mut r, "pm");
    push_word(&mut r, "path");
    push_word(&mut r, package);
    r
}

/// The arguments that copy the device file `remote` to `local`.
pub fn pull_arguments(remote: &str, local: &str) -> (r: Vec<String>)
    ensures
        r.deep_view() == pull_words(remote@, local@),
{
    let mut r: Vec<String> = Vec::new();
    assert(r.deep_view() =~= Seq::empty());
    push_word(&mut r, "pull");
    push_word(&mut r, remote);
    push_word(&mut r, local);
    r
}

/// The arguments that install `files` as one package.
pub fn install_arguments(files: &Vec<String>) -> (r: Vec<String>)
    ensures
        r.deep_view() == install_words(files.deep_view()),
{
    let mut r: Vec<String> = Vec::new();
    assert(r.deep_view() =~= Seq::empty());
    if files.len() == 1 {
        push_word(&mut r, "install");
    } else {
        push_word(&mut r, "install-multiple");
    }
    let ghost head = r.deep_view();
    let mut i: usize = 0;
    while i < files.len()
        invariant
            i <= files.len(),
            r.deep_view() == head + files.deep_view().take(i as int),
        decreases files.len() - i,
    {
        push_word(&mut r, files[i].as_str());
        assert(files.deep_view().take(i + 1) == files.deep_view().take(i as int).push(
            files.deep_view()[i as int],
        ));
        i += 1;
    }
    assert(files.deep_view().take(files.len() as int) == files.deep_view());
    r
}

/// The mark of a device that is ready, in the list of devices.
pub open spec fn device_mark() -> Seq<char> {
    "\tdevice"@
}

/// The list of devices `text` shows a device that is ready: it has more
/// than one line, and the mark stands in one of them.
pub open spec fn lists_device(text: Seq<char>) -> bool {
    let ls = lines_of(text);
    ls.len() > 1 && exists|i: int| 0 <= i < ls.len() && occurs_in(#[trigger] ls[i], device_mark())
}

/// Tells whether the list of devices `text` shows a device that is ready.
pub fn device_listed(text: &str) -> (r: bool)
    ensures
        r == lists_device(text@),
{
    let ls = lines(text);
    if ls.len() <= 1 {
        return false;
    }
    let mut i: usize = 0;
    while i < ls.len()
        invariant
            i <= ls.len(),
            ls.len() > 1,
            ls.deep_view() == lines_of(text@),
            forall|k: int| 0 <= k < i ==> !occurs_in(#[trigger] ls.deep_view()[k], device_mark()),
        decreases ls.len() - i,
    {
        if contains(ls[i].as_str(), "\tdevice") {
            assert(occurs_in(ls.deep_view()[i as int], device_mark()));
            return true;
        }
        i += 1;
    }
    false
}

/// Tells whether a run of `adb devices` shows a device that is ready. It
/// does not where the run could not be made (`None`); how the run ended
/// does not count.
pub fn device_connected(run: Option<&Output>) -> (r: bool)
    ensures
        r == match run {
            Some(output) => lists_device(lossy_text(output.stdout@)),
            None => false,
        },
{
    match run {
        Some(output) => {
            let text = decode_lossy(&output.stdout);
            device_listed(text.as_str())
        },
        None => false,
    }
}

/// The mark of an entry, in what the package manager of the device writes.
pub open spec fn entry_mark() -> Seq<char> {
    "package:"@
}

/// What the line `line` names: where it begins with the mark, what stands
/// behind the mark, without the white space around it.
pub open spec fn entry_of(line: Seq<char>) -> Option<Seq<char>> {
    if entry_mark().is_prefix_of(line) {
        Some(trimmed(line.skip(entry_mark().len() as int)))
    } else {
        None
    }
}

/// What the lines of `text` name, in their order.
pub open spec fn entries_of(text: Seq<char>) -> Seq<Seq<char>> {
    lines_of(text).filter_map(|line: Seq<char>| entry_of(line))
}

/// What the lines of `text` name, in their order.
pub fn parse_entries(text: &str) -> (r: Vec<String>)
    ensures
        r.deep_view() == entries_of(text@),
{
    let ls = lines(text);
    let mut out: Vec<String> = Vec::new();
    let ghost all = lines_of(text@);
    let ghost f = |line: Seq<char>| entry_of(line);
    let mut i: usize = 0;
    assert(out.deep_view() =~= Seq::empty());
    assert(all.take(0) =~= Seq::empty());
    while i < ls.len()
        invariant
            i <= ls.len(),
            ls.deep_view() == all,
            all == lines_of(text@),
            f == |line: Seq<char>| entry_of(line),
            out.deep_view() == all.take(i as int).filter_map(f),
        decreases ls.len() - i,
    {
        let line = ls[i].as_str();
        assert(all.take(i + 1).drop_last() == all.take(i as int));
        assert(all.take(i + 1).last() == line@);
        if starts_with(line, "package:") {
            let behind = line.substring_char("package:".unicode_len(), line.unicode_len());
            let name = trim(behind);
            push_word(&mut out, name);
            assert(entry_of(line@) == Some(name@));
        }
        i += 1;
    }
    assert(all.take(ls.len() as int) == all);
    out
}

/// What a run that listed the packages of the device says.
pub open spec fn packages_of(output: OutputView) -> Result<
    Seq<Seq<char>>,
    (FailureKind, Seq<char>),
> {
    if !output.success {
        Err((FailureKind::ListingFailed, lossy_text(output.stderr)))
    } else if !valid_utf8(output.stdout) {
        Err((FailureKind::UnreadableOutput, fault_text(output.stdout)))
    } else {
        Ok(entries_of(decode_utf8(output.stdout)))
    }
}

/// What a run that asked for the files of a package says.
pub open spec fn paths_of(output: OutputView) -> Result<Seq<Seq<char>>, (FailureKind, Seq<char>)> {
    if !output.success {
        Err((FailureKind::PathQueryFailed, lossy_text(output.stderr)))
    } else if !valid_utf8(output.stdout) {
        Err((FailureKind::UnreadableOutput, fault_text(output.stdout)))
    } else if entries_of(decode_utf8(output.stdout)).len() == 0 {
        Err((FailureKind::PathNotFound, Seq::empty()))
    } else {
        Ok(entries_of(decode_utf8(output.stdout)))
    }
}

/// The view of a list of names, or of a failure.
pub open spec fn listing_view(r: Result<Vec<String>, Failure>) -> Result<
    Seq<Seq<char>>,
    (FailureKind, Seq<char>),
> {
    match r {
        Ok(names) => Ok(names.deep_view()),
        Err(failure) => Err(failure@),
    }
}

/// The third-party packages that a run of the listing command names: the
/// run must have ended well and written UTF-8. A failure holds what the
/// bridge wrote to its standard error, or the words of the decoding error.
pub fn third_party_packages(output: Output) -> (r: Result<Vec<String>, Failure>)
    ensures
        listing_view(r) == packages_of(output@),
{
    if !output.success {
        return Err(Failure::with(FailureKind::ListingFailed, decode_lossy(&output.stderr)));
    }
    match decode_strict(output.stdout) {
        Ok(text) => Ok(parse_entries(text.as_str())),
        Err(words) => Err(Failure::with(FailureKind::UnreadableOutput, words)),
    }
}

/// The device files of a package that a run of the path command names: the
/// run must have ended well, written UTF-8 and named a file.
pub fn package_paths(output: Output) -> (r: Result<Vec<String>, Failure>)
    ensures
        listing_view(r) == paths_of(output@),
{
    if !output.success {
        return Err(Failure::with(FailureKind::PathQueryFailed, decode_lossy(&output.stderr)));
    }
    match decode_strict(output.stdout) {
        Ok(text) => {
            let paths = parse_entries(text.as_str());
            if paths.len() == 0 {
                Err(Failure::of(FailureKind::PathNotFound))
            } else {
                Ok(paths)
            }
        },
        Err(words) => Err(Failure::with(FailureKind::UnreadableOutput, words)),
    }
}

} // verus!
