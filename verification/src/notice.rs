//! What the user is told: the notices, and the words of each.

use crate::decimal::{decimal, decimal_text};
use crate::decode::{decode_lossy, lossy_text, quote, quoted_text};
use crate::text::{trim, trimmed};
use vstd::prelude::*;

verus! {

/// Where a notice goes.
#[derive(Clone, Copy, Debug, PartialEq, Eq, Structural)]
pub enum Stream {
    /// The standard output.
    Output,
    /// The standard error.
    Error,
}

/// A line for the user.
#[derive(Clone, Debug, PartialEq, Eq)]
pub struct Notice {
    pub stream: Stream,
    pub text: String,
}

/// A `Notice` as a value of specifications.
pub struct NoticeView {
    pub stream: Stream,
    pub text: Seq<char>,
}

impl View for Notice {
    type V = NoticeView;

    open spec fn view(&self) -> NoticeView {
        NoticeView { stream: self.stream, text: self.text@ }
    }
}

impl DeepView for Notice {
    type V = NoticeView;

    open spec fn deep_view(&self) -> NoticeView {
        NoticeView { stream: self.stream, text: self.text@ }
    }
}

/// The line `text` on the standard output.
pub open spec fn said(text: Seq<char>) -> NoticeView {
    NoticeView { stream: Stream::Output, text }
}

/// The line `text` on the standard error.
pub open spec fn warned(text: Seq<char>) -> NoticeView {
    NoticeView { stream: Stream::Error, text }
}

/// The line `text` on the standard output.
pub fn say(text: String) -> (r: Notice)
    ensures
        r@ == said(text@),
{
    Notice { stream: Stream::Output, text }
}

/// The line `text` on the standard error.
pub fn warn(text: String) -> (r: Notice)
    ensures
        r@ == warned(text@),
{
    Notice { stream: Stream::Error, text }
}

/// No notices.
pub fn silence() -> (r: Vec<Notice>)
    ensures
        r.deep_view() == Seq::<NoticeView>::empty(),
{
    let r: Vec<Notice> = Vec::new();
    assert(r.deep_view() =~= Seq::empty());
    r
}

/// The notice `notice` alone.
pub fn only(notice: Notice) -> (r: Vec<Notice>)
    ensures
        r.deep_view() == seq![notice@],
{
    let mut r = silence();
    let ghost added = notice@;
    note(&mut r, notice);
    assert(r.deep_view() =~= seq![added]);
    r
}

/// Puts `notice` at the end of `notices`.
pub fn note(notices: &mut Vec<Notice>, notice: Notice)
    ensures
        final(notices).deep_view() == old(notices).deep_view().push(notice@),
{
    let ghost before = notices.deep_view();
    let ghost added = notice@;
    notices.push(notice);
    assert(notices.deep_view() =~= before.push(added));
}

/// The entries `names` as the lines of a list numbered from one.
pub open spec fn list_of(names: Seq<Seq<char>>) -> Seq<NoticeView> {
    Seq::new(names.len(), |i: int| said(item_text((i + 1) as nat, names[i])))
}

/// Puts the entries `names`, as the lines of a list numbered from one, at
/// the end of `notices`.
pub fn note_list(notices: &mut Vec<Notice>, names: &Vec<String>)
    ensures
        final(notices).deep_view() == old(notices).deep_view() + list_of(names.deep_view()),
{
    let ghost before = notices.deep_view();
    let ghost all = list_of(names.deep_view());
    let mut i: usize = 0;
    assert(all.take(0) =~= Seq::empty());
    while i < names.len()
        invariant
            i <= names.len(),
            all == list_of(names.deep_view()),
            notices.deep_view() == before + all.take(i as int),
        decreases names.len() - i,
    {
        note(notices, say(item(i + 1, names[i].as_str())));
        assert(all.take(i + 1) =~= all.take(i as int).push(all[i as int]));
        i += 1;
    }
    assert(all.take(names.len() as int) =~= all);
}

/// The bridge executable could not be run.
pub const BRIDGE_MISSING: &'static str = "Error: ADB command not found.";

/// No device is ready.
pub const DISCONNECTED: &'static str =
    "Error : Device is disconnected. Please check device connection.";

/// The backup directory holds no backup.
pub const NO_BACKUPS: &'static str = "No backups found.";

/// The heading of the backups to install from.
pub const CHOOSE_INSTALL: &'static str = "Select backup to install:";

/// The heading of the backups to build on.
pub const CHOOSE_BASE: &'static str = "Select base backup:";

/// The prompt for an entry of a numbered list.
pub const ENTER_NUMBER: &'static str = "Enter number: ";

/// The answer picks no backup; the question comes again.
pub const INVALID_PICK: &'static str = "Invalid selection. Please enter a valid number.";

/// The answer picks no base backup.
pub const INVALID_BASE: &'static str = "Invalid selection.";

/// The heading of the two kinds of backup.
pub const MENU_HEAD: &'static str = "Select backup mode:";

/// The first kind of backup.
pub const MENU_NEW: &'static str = "1. New Backup";

/// The second kind of backup.
pub const MENU_DIFFERENTIAL: &'static str = "2. Differential Backup";

/// The prompt for the kind of backup.
pub const MENU_PROMPT: &'static str = ": ";

/// The answer picks no kind of backup.
pub const INVALID_MODE: &'static str = "Invalid choice. Please enter 1 or 2.";

/// The question for the name of a new backup.
pub const NAME_HEAD: &'static str = "Enter backup name (or leave empty for timestamp):";

/// The prompt for the name of a new backup.
pub const NAME_PROMPT: &'static str = "> ";

/// The name of the new backup is taken.
pub const FOLDER_EXISTS: &'static str = "Folder already exists. Try another name.";

/// The host gave no time that a backup could be named by.
pub const NO_TIME: &'static str = "There is no time to name the backup by.";

/// There is nothing to back up.
pub const NO_DIFFERENCES: &'static str = "No package differences found for device.";

/// A package was dealt with.
pub const SUCCESSFUL: &'static str = "  ✓ Successful";

/// How the program `program` is called.
pub open spec fn usage_text(program: Seq<char>) -> Seq<char> {
    "Usage: "@ + program + " <backup|install>"@
}

/// How the program `program` is called.
pub fn usage(program: &str) -> (r: String)
    ensures
        r@ == usage_text(program@),
{
    let mut r = "Usage: ".to_string();
    r.append(program);
    r.append(" <backup|install>");
    r
}

/// The argument `argument` asks for nothing that the program does.
pub open spec fn invalid_argument_text(argument: Seq<char>) -> Seq<char> {
    "Invalid argument: "@ + argument
}

/// The argument `argument` asks for nothing that the program does.
pub fn invalid_argument(argument: &str) -> (r: String)
    ensures
        r@ == invalid_argument_text(argument@),
{
    let mut r = "Invalid argument: ".to_string();
    r.append(argument);
    r
}

/// The entry `name` of a list, numbered `number`.
pub open spec fn item_text(number: nat, name: Seq<char>) -> Seq<char> {
    decimal_text(number) + ": "@ + name
}

/// The entry `name` of a list, numbered `number`.
pub fn item(number: usize, name: &str) -> (r: String)
    ensures
        r@ == item_text(number as nat, name@),
{
    let mut r = decimal(number);
    r.append(": ");
    r.append(name);
    r
}

/// The folder `path` holds no installer file; the path is written as
/// `{:?}` writes it.
pub open spec fn no_apks_text(path: Seq<char>) -> Seq<char> {
    "No APKs found in "@ + quoted_text(path)
}

/// The folder `path` holds no installer file; the path is written as
/// `{:?}` writes it.
pub fn no_apks(path: &str) -> (r: String)
    ensures
        r@ == no_apks_text(path@),
{
    let mut r = "No APKs found in ".to_string();
    r.append(quote(path).as_str());
    r
}

/// The package in the folder `name` was installed; the name is written as
/// `{:?}` writes it.
pub open spec fn installed_text(name: Seq<char>) -> Seq<char> {
    "✓ Installed package from "@ + quoted_text(name)
}

/// The package in the folder `name` was installed; the name is written as
/// `{:?}` writes it.
pub fn installed(name: &str) -> (r: String)
    ensures
        r@ == installed_text(name@),
{
    let mut r = "✓ Installed package from ".to_string();
    r.append(quote(name).as_str());
    r
}

/// Installing the package in the folder `name` ended in failure; `stdout`
/// and `stderr` are what the bridge wrote, given without the white space
/// around them.
pub open spec fn install_failed_text(name: Seq<char>, stdout: Seq<u8>, stderr: Seq<u8>) -> Seq<
    char,
> {
    "✗ Failed to install from "@ + quoted_text(name) + "\nstdout: "@ + trimmed(
        lossy_text(stdout),
    ) + "\nstderr: "@ + trimmed(lossy_text(stderr))
}

/// Installing the package in the folder `name` ended in failure; `stdout`
/// and `stderr` are what the bridge wrote, given without the white space
/// around them.
pub fn install_failed(name: &str, stdout: &Vec<u8>, stderr: &Vec<u8>) -> (r: String)
    ensures
        r@ == install_failed_text(name@, stdout@, stderr@),
{
    let mut r = "✗ Failed to install from ".to_string();
    r.append(quote(name).as_str());
    r.append("\nstdout: ");
    r.append(trim(decode_lossy(stdout).as_str()));
    r.append("\nstderr: ");
    r.append(trim(decode_lossy(stderr).as_str()));
    r
}

/// The bridge could not be run to install a package, for the reason
/// `reason`.
pub open spec fn install_not_run_text(reason: Seq<char>) -> Seq<char> {
    "✗ Failed to execute adb install: "@ + reason
}

/// The bridge could not be run to install a package, for the reason
/// `reason`.
pub fn install_not_run(reason: &str) -> (r: String)
    ensures
        r@ == install_not_run_text(reason@),
{
    let mut r = "✗ Failed to execute adb install: ".to_string();
    r.append(reason);
    r
}

/// Package `number` of `count`, called `package`, is next.
pub open spec fn backing_up_text(number: nat, count: nat, package: Seq<char>) -> Seq<char> {
    "Backing up "@ + decimal_text(number) + " of "@ + decimal_text(count) + " ("@ + package + ")"@
}

/// Package `number` of `count`, called `package`, is next.
pub fn backing_up(number: usize, count: usize, package: &str) -> (r: String)
    ensures
        r@ == backing_up_text(number as nat, count as nat, package@),
{
    let mut r = "Backing up ".to_string();
    r.append(decimal(number).as_str());
    r.append(" of ");
    r.append(decimal(count).as_str());
    r.append(" (");
    r.append(package);
    r.append(")");
    r
}

/// A package could not be dealt with; `message` says why.
pub open spec fn failed_text(message: Seq<char>) -> Seq<char> {
    "  ✗ Failed: "@ + message
}

/// A package could not be dealt with; `message` says why.
pub fn failed(message: &str) -> (r: String)
    ensures
        r@ == failed_text(message@),
{
    let mut r = "  ✗ Failed: ".to_string();
    r.append(message);
    r
}

/// The package has `count` installer files.
pub open spec fn extracting_text(count: nat) -> Seq<char> {
    "    Extracting "@ + decimal_text(count) + " APK file..."@
}

/// The package has `count` installer files.
pub fn extracting(count: usize) -> (r: String)
    ensures
        r@ == extracting_text(count as nat),
{
    let mut r = "    Extracting ".to_string();
    r.append(decimal(count).as_str());
    r.append(" APK file...");
    r
}

/// The file `name` could not be copied; `stderr` is what the bridge wrote.
pub open spec fn not_extracted_text(name: Seq<char>, stderr: Seq<u8>) -> Seq<char> {
    "    Warning: Failed to extract "@ + name + " : "@ + lossy_text(stderr)
}

/// The file `name` could not be copied; `stderr` is what the bridge wrote.
pub fn not_extracted(name: &str, stderr: &Vec<u8>) -> (r: String)
    ensures
        r@ == not_extracted_text(name@, stderr@),
{
    let mut r = "    Warning: Failed to extract ".to_string();
    r.append(name);
    r.append(" : ");
    r.append(decode_lossy(stderr).as_str());
    r
}

/// The bridge reported success for the file `name`, yet the copy is not
/// there.
pub open spec fn not_created_text(name: Seq<char>) -> Seq<char> {
    "    Warning: "@ + name + " was not created"@
}

/// The bridge reported success for the file `name`, yet the copy is not
/// there.
pub fn not_created(name: &str) -> (r: String)
    ensures
        r@ == not_created_text(name@),
{
    let mut r = "    Warning: ".to_string();
    r.append(name);
    r.append(" was not created");
    r
}

/// File `number` of `count`, called `name`, was copied.
pub open spec fn extracted_text(number: nat, count: nat, name: Seq<char>) -> Seq<char> {
    "      ["@ + decimal_text(number) + "/"@ + decimal_text(count) + "] "@ + name
}

/// File `number` of `count`, called `name`, was copied.
pub fn extracted(number: usize, count: usize, name: &str) -> (r: String)
    ensures
        r@ == extracted_text(number as nat, count as nat, name@),
{
    let mut r = "      [".to_string();
    r.append(decimal(number).as_str());
    r.append("/");
    r.append(decimal(count).as_str());
    r.append("] ");
    r.append(name);
    r
}

} // verus!
