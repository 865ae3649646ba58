//! What the machine decides, as mathematics: `started` for the command
//! line, `next` for every state and every reply.

use crate::bridge::{
    devices_words, install_words, list_words, lists_device, packages_of, path_words, paths_of,
    pull_words, version_words, OutputView,
};
use crate::choice::{backup_mode_of, invocation_of, selection_of, BackupMode, Invocation};
use crate::decode::lossy_text;
use crate::failure::{message_of, FailureKind};
use crate::names::{
    apk_paths_of, available_of, file_name_of, joined, lemma_available_is_first,
    lemma_available_is_plain, lemma_file_name_is_plain, plain, within,
};
use crate::notice::{
    backing_up_text, extracted_text, extracting_text, failed_text, install_failed_text,
    install_not_run_text, installed_text, invalid_argument_text, list_of, no_apks_text,
    not_created_text, not_extracted_text, said, usage_text, warned, NoticeView, BRIDGE_MISSING,
    CHOOSE_BASE, CHOOSE_INSTALL, DISCONNECTED, ENTER_NUMBER, FOLDER_EXISTS, INVALID_BASE,
    INVALID_MODE, INVALID_PICK, MENU_DIFFERENTIAL, MENU_HEAD, MENU_NEW, MENU_PROMPT, NAME_HEAD,
    NAME_PROMPT, NO_BACKUPS, NO_DIFFERENCES, NO_TIME, SUCCESSFUL,
};
use crate::plan::{folder_of, missing_from, names_folder};
use crate::protocol::{ReplyView, RequestView, StepView};
use vstd::prelude::*;

verus! {

/// The directory that holds the backups.
pub const ROOT: &'static str = "backup";

/// The request that the machine is waiting on.
#[derive(Clone, Copy, Debug, PartialEq, Eq, Structural)]
pub enum Phase {
    /// The bridge was run for its version.
    Probe,
    /// The bridge was run for the devices it sees.
    Devices,
    /// Is there a backup directory?
    RootCheck,
    /// The backup directory was to be made.
    RootMake,
    /// The user was asked for the kind of backup.
    Mode,
    /// The user was asked for the name of the backup.
    Name,
    /// Is the name of the backup taken?
    NameCheck,
    /// The backups were to be listed, for one to build on.
    BaseList,
    /// The user was asked for the backup to build on.
    BaseSelect,
    /// The folder of the backup was to be made.
    TargetMake,
    /// The bridge was run for the packages of the device.
    DeviceList,
    /// The packages of the base backup were to be listed.
    BaseNames,
    /// The bridge was run for the files of a package.
    Paths,
    /// Is there a folder for the package?
    FolderCheck,
    /// The folder of the package was to be made.
    FolderMake,
    /// The files in the folder of the package were to be listed.
    Taken,
    /// The bridge was run to copy a file.
    Pull,
    /// Is the copy there?
    Pulled,
    /// The backups were to be listed, for one to install.
    Backups,
    /// The user was asked for the backup to install.
    Pick,
    /// The packages of the backup were to be listed.
    Folders,
    /// The files of a package of the backup were to be listed.
    Apks,
    /// The bridge was run to install a package.
    Installing,
    /// The run has ended.
    Stopped,
}

/// The state of the machine as a value of specifications.
pub struct SessionView {
    /// The request that the machine is waiting on.
    pub phase: Phase,
    /// The run installs; it backs up otherwise.
    pub install: bool,
    /// The backup builds on an earlier one.
    pub differential: bool,
    /// The time at which the naming of the backup began.
    pub stamp: Seq<char>,
    /// The backups that the user chooses from.
    pub backups: Seq<Seq<char>>,
    /// The folder of the backup that a differential backup builds on, below
    /// the backup directory. It is read, never written.
    pub base: Seq<char>,
    /// The folder of the backup that is made or installed, below the backup
    /// directory.
    pub folder: Seq<char>,
    /// The packages to deal with.
    pub packages: Seq<Seq<char>>,
    /// The index of the package that is dealt with.
    pub package: nat,
    /// The files of that package: on the device for a backup, in the backup
    /// for an installation.
    pub files: Seq<Seq<char>>,
    /// The index of the file that is copied.
    pub file: nat,
    /// The names that are taken in the folder of the package.
    pub taken: Seq<Seq<char>>,
    /// The name of the file that is copied.
    pub name: Seq<char>,
    /// The name that its copy gets.
    pub local: Seq<char>,
}

/// The phase belongs to a backup alone.
pub open spec fn saves(phase: Phase) -> bool {
    ||| phase == Phase::RootMake
    ||| phase == Phase::Mode
    ||| phase == Phase::Name
    ||| phase == Phase::NameCheck
    ||| phase == Phase::BaseList
    ||| phase == Phase::BaseSelect
    ||| phase == Phase::TargetMake
    ||| phase == Phase::DeviceList
    ||| phase == Phase::BaseNames
    ||| saves_package(phase)
}

/// The phase comes after the folder of the backup was settled.
pub open spec fn settled(phase: Phase) -> bool {
    ||| phase == Phase::NameCheck
    ||| phase == Phase::TargetMake
    ||| phase == Phase::DeviceList
    ||| phase == Phase::BaseNames
    ||| saves_package(phase)
}

/// The phase belongs to the saving of one package.
pub open spec fn saves_package(phase: Phase) -> bool {
    ||| phase == Phase::Paths
    ||| phase == Phase::FolderCheck
    ||| phase == Phase::FolderMake
    ||| phase == Phase::Taken
    ||| copies_file(phase)
}

/// The phase belongs to the copying of one file.
pub open spec fn copies_file(phase: Phase) -> bool {
    phase == Phase::Pull || phase == Phase::Pulled
}

/// The phase belongs to an installation alone.
pub open spec fn installs(phase: Phase) -> bool {
    ||| phase == Phase::Backups
    ||| phase == Phase::Pick
    ||| phase == Phase::Folders
    ||| installs_package(phase)
}

/// The phase belongs to the installing of one package.
pub open spec fn installs_package(phase: Phase) -> bool {
    phase == Phase::Apks || phase == Phase::Installing
}

impl SessionView {
    /// The phase fits the kind of run, the folder of a differential backup
    /// is not its base, and the indices point into their lists wherever the
    /// phase reads them.
    pub open spec fn sound(self) -> bool {
        &&& saves(self.phase) ==> !self.install
        &&& settled(self.phase) ==> !self.touches_base(self.target())
        &&& installs(self.phase) ==> self.install
        &&& saves_package(self.phase) || installs_package(self.phase) ==> self.package
            < self.packages.len()
        &&& copies_file(self.phase) ==> self.file < self.files.len()
    }

    /// The folder of the backup.
    pub open spec fn target(self) -> Seq<char> {
        joined(ROOT@, self.folder)
    }

    /// The folder of the backup that a differential backup builds on.
    pub open spec fn base_folder(self) -> Seq<char> {
        joined(ROOT@, self.base)
    }

    /// To write at the path `path` would change the base of a differential
    /// backup: the path is the folder of the base or lies below it. Paths
    /// are compared as they are written; a `..` in one is not followed.
    pub open spec fn touches_base(self, path: Seq<char>) -> bool {
        self.differential && within(path, self.base_folder())
    }

    /// The folder of the package that is dealt with.
    pub open spec fn package_folder(self) -> Seq<char> {
        joined(self.target(), self.packages[self.package as int])
    }
}

/// The state before anything was decided.
pub open spec fn blank() -> SessionView {
    SessionView {
        phase: Phase::Stopped,
        install: false,
        differential: false,
        stamp: Seq::empty(),
        backups: Seq::empty(),
        base: Seq::empty(),
        folder: Seq::empty(),
        packages: Seq::empty(),
        package: 0,
        files: Seq::empty(),
        file: 0,
        taken: Seq::empty(),
        name: Seq::empty(),
        local: Seq::empty(),
    }
}

/// The run ends, in failure if one is given.
pub open spec fn halted(
    s: SessionView,
    notices: Seq<NoticeView>,
    failure: Option<(FailureKind, Seq<char>)>,
) -> (SessionView, StepView) {
    (
        SessionView { phase: Phase::Stopped, ..s },
        StepView { notices, request: RequestView::Stop { failure } },
    )
}

/// The machine makes a request and waits on it in the phase `phase`.
pub open spec fn asked(
    s: SessionView,
    phase: Phase,
    notices: Seq<NoticeView>,
    request: RequestView,
) -> (SessionView, StepView) {
    (SessionView { phase, ..s }, StepView { notices, request })
}

/// The reply is of a kind that the request does not call for.
pub open spec fn confused(s: SessionView) -> (SessionView, StepView) {
    halted(s, Seq::empty(), Some((FailureKind::Unexpected, Seq::empty())))
}

/// The host could not do what the run cannot go on without.
pub open spec fn let_down(s: SessionView, reason: Seq<char>) -> (SessionView, StepView) {
    halted(s, Seq::empty(), Some((FailureKind::Host, reason)))
}

/// What the machine decides first, from the command line `args`.
pub open spec fn started(args: Seq<Seq<char>>) -> (SessionView, StepView) {
    let program = if args.len() > 0 {
        args[0]
    } else {
        Seq::empty()
    };
    match invocation_of(args) {
        Invocation::Missing => halted(blank(), seq![warned(usage_text(program))], None),
        Invocation::Unknown => halted(
            blank(),
            seq![warned(invalid_argument_text(args[1])), warned(usage_text(program))],
            None,
        ),
        Invocation::Backup => asked(
            SessionView { install: false, ..blank() },
            Phase::Probe,
            Seq::empty(),
            RequestView::Run { arguments: version_words() },
        ),
        Invocation::Install => asked(
            SessionView { install: true, ..blank() },
            Phase::Probe,
            Seq::empty(),
            RequestView::Run { arguments: version_words() },
        ),
    }
}

/// The user is asked for the kind of backup, after the notices `before`.
pub open spec fn menu(s: SessionView, before: Seq<NoticeView>) -> (SessionView, StepView) {
    asked(
        s,
        Phase::Mode,
        before + seq![said(MENU_HEAD@), said(MENU_NEW@), said(MENU_DIFFERENTIAL@)],
        RequestView::Ask { prompt: MENU_PROMPT@ },
    )
}

/// The package with the index `k` is next, or the run ends where there is
/// none.
pub open spec fn begin_package(s: SessionView, notices: Seq<NoticeView>, k: nat) -> (
    SessionView,
    StepView,
) {
    if k < s.packages.len() {
        asked(
            SessionView { package: k, ..s },
            Phase::Paths,
            notices.push(said(backing_up_text(k + 1, s.packages.len(), s.packages[k as int]))),
            RequestView::Run { arguments: path_words(s.packages[k as int]) },
        )
    } else {
        halted(s, notices, None)
    }
}

/// The package that is dealt with cannot be saved; the next one is due.
pub open spec fn give_up(
    s: SessionView,
    notices: Seq<NoticeView>,
    failure: (FailureKind, Seq<char>),
) -> (SessionView, StepView) {
    begin_package(
        s,
        notices.push(warned(failed_text(message_of(failure.0, failure.1)))),
        s.package + 1,
    )
}

/// The packages to save are known.
pub open spec fn planned(s: SessionView) -> (SessionView, StepView) {
    if s.packages.len() == 0 {
        halted(s, seq![said(NO_DIFFERENCES@)], None)
    } else {
        begin_package(s, Seq::empty(), 0)
    }
}

/// The file with the index `j` of the package is next, or the package is
/// done where there is none. The package is given up where the file has no
/// name, where no name is free for the copy, or where the copy would change
/// the base.
pub open spec fn begin_file(s: SessionView, notices: Seq<NoticeView>, j: nat) -> (
    SessionView,
    StepView,
) {
    if j < s.files.len() {
        match file_name_of(s.files[j as int]) {
            None => give_up(s, notices, (FailureKind::NoFileName, Seq::empty())),
            Some(name) => match available_of(name, j + 1, s.taken) {
                None => give_up(s, notices, (FailureKind::NoFreeName, Seq::empty())),
                Some(local) => if s.touches_base(joined(s.package_folder(), local)) {
                    give_up(s, notices, (FailureKind::InsideBase, Seq::empty()))
                } else {
                    asked(
                        SessionView { file: j, name, local, ..s },
                        Phase::Pull,
                        notices,
                        RequestView::Run {
                            arguments: pull_words(
                                s.files[j as int],
                                joined(s.package_folder(), local),
                            ),
                        },
                    )
                },
            },
        }
    } else {
        begin_package(s, notices.push(said(SUCCESSFUL@)), s.package + 1)
    }
}

/// The package of the backup with the index `k` is next, or the run ends
/// where there is none.
pub open spec fn begin_install(s: SessionView, notices: Seq<NoticeView>, k: nat) -> (
    SessionView,
    StepView,
) {
    if k < s.packages.len() {
        asked(
            SessionView { package: k, ..s },
            Phase::Apks,
            notices,
            RequestView::List { path: joined(s.target(), s.packages[k as int]), folders: false },
        )
    } else {
        halted(s, notices, None)
    }
}

/// What the machine decides in the state `s` on the reply `reply`. `time`
/// is the time of the decision as a text, if the host gave one; only a
/// decision that leads to the naming of a backup keeps it, and cannot be
/// made without.
pub open spec fn next(s: SessionView, reply: ReplyView, time: Option<Seq<char>>) -> (
    SessionView,
    StepView,
) {
    match s.phase {
        Phase::Probe => after_probe(s, reply),
        Phase::Devices => after_devices(s, reply),
        Phase::RootCheck => after_root_check(s, reply),
        Phase::RootMake => after_root_make(s, reply),
        Phase::Mode => after_mode(s, reply, time),
        Phase::Name => after_name(s, reply),
        Phase::NameCheck => after_name_check(s, reply),
        Phase::BaseList => after_base_list(s, reply),
        Phase::BaseSelect => after_base_select(s, reply, time),
        Phase::TargetMake => after_target_make(s, reply),
        Phase::DeviceList => after_device_list(s, reply),
        Phase::BaseNames => after_base_names(s, reply),
        Phase::Paths => after_paths(s, reply),
        Phase::FolderCheck => after_folder_check(s, reply),
        Phase::FolderMake => after_folder_make(s, reply),
        Phase::Taken => after_taken(s, reply),
        Phase::Pull => after_pull(s, reply),
        Phase::Pulled => after_pulled(s, reply),
        Phase::Backups => after_backups(s, reply),
        Phase::Pick => after_pick(s, reply),
        Phase::Folders => after_folders(s, reply),
        Phase::Apks => after_apks(s, reply),
        Phase::Installing => after_installing(s, reply),
        Phase::Stopped => halted(s, Seq::empty(), None),
    }
}

/// The bridge is there if it could be run at all.
pub open spec fn after_probe(s: SessionView, reply: ReplyView) -> (SessionView, StepView) {
    match reply {
        ReplyView::Ran { .. } => asked(
            s,
            Phase::Devices,
            Seq::empty(),
            RequestView::Run { arguments: devices_words() },
        ),
        ReplyView::Failed { .. } => halted(s, seq![warned(BRIDGE_MISSING@)], None),
        _ => confused(s),
    }
}

/// The run goes on only if the bridge shows a device that is ready.
pub open spec fn after_devices(s: SessionView, reply: ReplyView) -> (SessionView, StepView) {
    match reply {
        ReplyView::Ran { output } => if lists_device(lossy_text(output.stdout)) {
            asked(s, Phase::RootCheck, Seq::empty(), RequestView::Exists { path: ROOT@ })
        } else {
            halted(s, seq![warned(DISCONNECTED@)], None)
        },
        ReplyView::Failed { .. } => halted(s, seq![warned(DISCONNECTED@)], None),
        _ => confused(s),
    }
}

/// An installation needs the backup directory; a backup makes it.
pub open spec fn after_root_check(s: SessionView, reply: ReplyView) -> (SessionView, StepView) {
    match reply {
        ReplyView::Found { present } => if s.install {
            if present {
                asked(
                    s,
                    Phase::Backups,
                    Seq::empty(),
                    RequestView::List { path: ROOT@, folders: true },
                )
            } else {
                halted(s, Seq::empty(), Some((FailureKind::RootMissing, Seq::empty())))
            }
        } else {
            if present {
                menu(s, Seq::empty())
            } else {
                asked(
                    s,
                    Phase::RootMake,
                    Seq::empty(),
                    RequestView::MakeDir { path: ROOT@, parents: false },
                )
            }
        },
        ReplyView::Failed { reason } => let_down(s, reason),
        _ => confused(s),
    }
}

/// With the backup directory made, the user is asked for the kind of backup.
pub open spec fn after_root_make(s: SessionView, reply: ReplyView) -> (SessionView, StepView) {
    match reply {
        ReplyView::Done => menu(s, Seq::empty()),
        ReplyView::Failed { reason } => let_down(s, reason),
        _ => confused(s),
    }
}

/// The backup is to be named: the user is asked for a name, and the time
/// is kept to name it by. Without a time the run ends.
pub open spec fn naming(s: SessionView, time: Option<Seq<char>>) -> (SessionView, StepView) {
    match time {
        Some(stamp) => asked(
            SessionView { stamp, ..s },
            Phase::Name,
            seq![said(NAME_HEAD@)],
            RequestView::Ask { prompt: NAME_PROMPT@ },
        ),
        None => let_down(s, NO_TIME@),
    }
}

/// The answer picks the kind of backup, or the question comes again.
pub open spec fn after_mode(s: SessionView, reply: ReplyView, time: Option<Seq<char>>) -> (
    SessionView,
    StepView,
) {
    match reply {
        ReplyView::Line { text } => match backup_mode_of(text) {
            Some(BackupMode::New) => naming(SessionView { differential: false, ..s }, time),
            Some(BackupMode::Differential) => asked(
                s,
                Phase::BaseList,
                Seq::empty(),
                RequestView::List { path: ROOT@, folders: true },
            ),
            None => menu(s, seq![warned(INVALID_MODE@)]),
        },
        ReplyView::Failed { reason } => let_down(s, reason),
        _ => confused(s),
    }
}

/// A name whose folder is the base of a differential backup, or lies below
/// it, is refused. Any other name that the user gave must be free; the time
/// as a name is taken as it is.
pub open spec fn after_name(s: SessionView, reply: ReplyView) -> (SessionView, StepView) {
    match reply {
        ReplyView::Line { text } => {
            let folder = folder_of(text, s.stamp);
            if s.touches_base(joined(ROOT@, folder)) {
                asked(
                    s,
                    Phase::Name,
                    seq![warned(FOLDER_EXISTS@)],
                    RequestView::Ask { prompt: NAME_PROMPT@ },
                )
            } else if names_folder(text) {
                asked(
                    SessionView { folder, ..s },
                    Phase::NameCheck,
                    Seq::empty(),
                    RequestView::Exists { path: joined(ROOT@, folder) },
                )
            } else {
                asked(
                    SessionView { folder, ..s },
                    Phase::TargetMake,
                    Seq::empty(),
                    RequestView::MakeDir { path: joined(ROOT@, folder), parents: true },
                )
            }
        },
        ReplyView::Failed { reason } => let_down(s, reason),
        _ => confused(s),
    }
}

/// A name that is taken is asked for again.
pub open spec fn after_name_check(s: SessionView, reply: ReplyView) -> (SessionView, StepView) {
    match reply {
        ReplyView::Found { present } => if present {
            asked(
                s,
                Phase::Name,
                seq![warned(FOLDER_EXISTS@)],
                RequestView::Ask { prompt: NAME_PROMPT@ },
            )
        } else {
            asked(
                s,
                Phase::TargetMake,
                Seq::empty(),
                RequestView::MakeDir { path: s.target(), parents: true },
            )
        },
        ReplyView::Failed { reason } => let_down(s, reason),
        _ => confused(s),
    }
}

/// The backups are shown, numbered, for the user to pick the base.
pub open spec fn after_base_list(s: SessionView, reply: ReplyView) -> (SessionView, StepView) {
    match reply {
        ReplyView::Names { names } => if names.len() == 0 {
            halted(s, seq![warned(NO_BACKUPS@)], None)
        } else {
            asked(
                SessionView { backups: names, ..s },
                Phase::BaseSelect,
                seq![said(CHOOSE_BASE@)] + list_of(names),
                RequestView::Ask { prompt: ENTER_NUMBER@ },
            )
        },
        ReplyView::Failed { reason } => let_down(s, reason),
        _ => confused(s),
    }
}

/// The backup that the answer picks is built on, and the backup that
/// builds on it is to be named; any other answer ends the run.
pub open spec fn after_base_select(s: SessionView, reply: ReplyView, time: Option<Seq<char>>) -> (
    SessionView,
    StepView,
) {
    match reply {
        ReplyView::Line { text } => match selection_of(text, s.backups.len()) {
            Some(i) => naming(
                SessionView { base: s.backups[i as int], differential: true, ..s },
                time,
            ),
            None => halted(s, seq![warned(INVALID_BASE@)], None),
        },
        ReplyView::Failed { reason } => let_down(s, reason),
        _ => confused(s),
    }
}

/// With the folder made, the device is asked for its packages.
pub open spec fn after_target_make(s: SessionView, reply: ReplyView) -> (SessionView, StepView) {
    match reply {
        ReplyView::Done => asked(
            s,
            Phase::DeviceList,
            Seq::empty(),
            RequestView::Run { arguments: list_words() },
        ),
        ReplyView::Failed { reason } => let_down(s, reason),
        _ => confused(s),
    }
}

/// The packages of the device are all saved, unless the backup builds on
/// another, whose packages are then asked for.
pub open spec fn after_device_list(s: SessionView, reply: ReplyView) -> (SessionView, StepView) {
    match reply {
        ReplyView::Ran { output } => match packages_of(output) {
            Ok(device) => if s.differential {
                asked(
                    SessionView { packages: device, ..s },
                    Phase::BaseNames,
                    Seq::empty(),
                    RequestView::List { path: s.base_folder(), folders: false },
                )
            } else {
                planned(SessionView { packages: device, ..s })
            },
            Err(failure) => halted(s, Seq::empty(), Some(failure)),
        },
        ReplyView::Failed { reason } => let_down(s, reason),
        _ => confused(s),
    }
}

/// Only the packages that the base backup lacks are saved.
pub open spec fn after_base_names(s: SessionView, reply: ReplyView) -> (SessionView, StepView) {
    match reply {
        ReplyView::Names { names } => planned(
            SessionView { packages: missing_from(s.packages, names), ..s },
        ),
        ReplyView::Failed { reason } => let_down(s, reason),
        _ => confused(s),
    }
}

/// The files of the package are known, or the package is given up.
pub open spec fn after_paths(s: SessionView, reply: ReplyView) -> (SessionView, StepView) {
    match reply {
        ReplyView::Ran { output } => match paths_of(output) {
            Ok(files) => asked(
                SessionView { files, ..s },
                Phase::FolderCheck,
                Seq::empty(),
                RequestView::Exists { path: s.package_folder() },
            ),
            Err(failure) => give_up(s, Seq::empty(), failure),
        },
        ReplyView::Failed { reason } => give_up(s, Seq::empty(), (FailureKind::Host, reason)),
        _ => confused(s),
    }
}

/// A folder that is there may hold files; one that is not is made, unless
/// that would change the base.
pub open spec fn after_folder_check(s: SessionView, reply: ReplyView) -> (SessionView, StepView) {
    match reply {
        ReplyView::Found { present } => if present {
            asked(
                s,
                Phase::Taken,
                Seq::empty(),
                RequestView::List { path: s.package_folder(), folders: false },
            )
        } else if s.touches_base(s.package_folder()) {
            give_up(s, Seq::empty(), (FailureKind::InsideBase, Seq::empty()))
        } else {
            asked(
                s,
                Phase::FolderMake,
                Seq::empty(),
                RequestView::MakeDir { path: s.package_folder(), parents: true },
            )
        },
        ReplyView::Failed { reason } => give_up(s, Seq::empty(), (FailureKind::Host, reason)),
        _ => confused(s),
    }
}

/// The files of the package are copied one by one.
pub open spec fn begin_files(s: SessionView) -> (SessionView, StepView) {
    begin_file(s, seq![said(extracting_text(s.files.len()))], 0)
}

/// A folder that was just made holds nothing.
pub open spec fn after_folder_make(s: SessionView, reply: ReplyView) -> (SessionView, StepView) {
    match reply {
        ReplyView::Done => begin_files(SessionView { taken: Seq::empty(), ..s }),
        ReplyView::Failed { reason } => give_up(s, Seq::empty(), (FailureKind::Host, reason)),
        _ => confused(s),
    }
}

/// What the folder holds is what no copy may be called.
pub open spec fn after_taken(s: SessionView, reply: ReplyView) -> (SessionView, StepView) {
    match reply {
        ReplyView::Names { names } => begin_files(SessionView { taken: names, ..s }),
        ReplyView::Failed { reason } => give_up(s, Seq::empty(), (FailureKind::Host, reason)),
        _ => confused(s),
    }
}

/// A copy that the bridge reports is looked for; one that it does not is
/// passed over.
pub open spec fn after_pull(s: SessionView, reply: ReplyView) -> (SessionView, StepView) {
    match reply {
        ReplyView::Ran { output } => if output.success {
            asked(
                s,
                Phase::Pulled,
                Seq::empty(),
                RequestView::Exists { path: joined(s.package_folder(), s.local) },
            )
        } else {
            begin_file(s, seq![warned(not_extracted_text(s.name, output.stderr))], s.file + 1)
        },
        ReplyView::Failed { reason } => give_up(s, Seq::empty(), (FailureKind::Host, reason)),
        _ => confused(s),
    }
}

/// A copy that is there takes its name.
pub open spec fn after_pulled(s: SessionView, reply: ReplyView) -> (SessionView, StepView) {
    match reply {
        ReplyView::Found { present } => if present {
            begin_file(
                SessionView { taken: s.taken.push(s.local), ..s },
                seq![said(extracted_text(s.file + 1, s.files.len(), s.name))],
                s.file + 1,
            )
        } else {
            begin_file(s, seq![warned(not_created_text(s.name))], s.file + 1)
        },
        ReplyView::Failed { reason } => give_up(s, Seq::empty(), (FailureKind::Host, reason)),
        _ => confused(s),
    }
}

/// The backups are shown, numbered, for the user to pick one to install.
pub open spec fn after_backups(s: SessionView, reply: ReplyView) -> (SessionView, StepView) {
    match reply {
        ReplyView::Names { names } => if names.len() == 0 {
            halted(s, seq![warned(NO_BACKUPS@)], None)
        } else {
            asked(
                SessionView { backups: names, ..s },
                Phase::Pick,
                seq![said(CHOOSE_INSTALL@)] + list_of(names),
                RequestView::Ask { prompt: ENTER_NUMBER@ },
            )
        },
        ReplyView::Failed { reason } => let_down(s, reason),
        _ => confused(s),
    }
}

/// The backup that the answer picks is installed; on any other answer the
/// question comes again.
pub open spec fn after_pick(s: SessionView, reply: ReplyView) -> (SessionView, StepView) {
    match reply {
        ReplyView::Line { text } => match selection_of(text, s.backups.len()) {
            Some(i) => asked(
                SessionView { folder: s.backups[i as int], ..s },
                Phase::Folders,
                Seq::empty(),
                RequestView::List { path: joined(ROOT@, s.backups[i as int]), folders: true },
            ),
            None => asked(
                s,
                Phase::Pick,
                seq![warned(INVALID_PICK@)],
                RequestView::Ask { prompt: ENTER_NUMBER@ },
            ),
        },
        ReplyView::Failed { reason } => let_down(s, reason),
        _ => confused(s),
    }
}

/// Each folder of the backup is a package to install.
pub open spec fn after_folders(s: SessionView, reply: ReplyView) -> (SessionView, StepView) {
    match reply {
        ReplyView::Names { names } => begin_install(
            SessionView { packages: names, ..s },
            Seq::empty(),
            0,
        ),
        ReplyView::Failed { reason } => let_down(s, reason),
        _ => confused(s),
    }
}

/// The installer files of the package are installed together; a package
/// without any is passed over.
pub open spec fn after_apks(s: SessionView, reply: ReplyView) -> (SessionView, StepView) {
    match reply {
        ReplyView::Names { names } => {
            let files = apk_paths_of(s.package_folder(), names);
            if files.len() == 0 {
                begin_install(s, seq![warned(no_apks_text(s.package_folder()))], s.package + 1)
            } else {
                asked(
                    SessionView { files, ..s },
                    Phase::Installing,
                    Seq::empty(),
                    RequestView::Run { arguments: install_words(files) },
                )
            }
        },
        ReplyView::Failed { reason } => let_down(s, reason),
        _ => confused(s),
    }
}

/// However the installation went, the next package is due.
pub open spec fn after_installing(s: SessionView, reply: ReplyView) -> (SessionView, StepView) {
    let package = s.packages[s.package as int];
    match reply {
        ReplyView::Ran { output } => if output.success {
            begin_install(s, seq![said(installed_text(package))], s.package + 1)
        } else {
            begin_install(
                s,
                seq![warned(install_failed_text(package, output.stdout, output.stderr))],
                s.package + 1,
            )
        },
        ReplyView::Failed { reason } => begin_install(
            s,
            seq![warned(install_not_run_text(reason))],
            s.package + 1,
        ),
        _ => confused(s),
    }
}

/// The decision keeps the time: the user has just asked for a new backup,
/// or picked the base of a differential one.
pub open spec fn keeps_time(s: SessionView, reply: ReplyView) -> bool {
    &&& reply matches ReplyView::Line { text }
    &&& (s.phase == Phase::Mode && backup_mode_of(text) == Some(BackupMode::New) || s.phase
        == Phase::BaseSelect && selection_of(text, s.backups.len()) is Some)
}

/// Only a decision that keeps the time depends on it.
pub proof fn lemma_time_counts_once(
    s: SessionView,
    reply: ReplyView,
    a: Option<Seq<char>>,
    b: Option<Seq<char>>,
)
    requires
        !keeps_time(s, reply),
    ensures
        next(s, reply, a) == next(s, reply, b),
{
}

/// A decision that keeps the time ends the run, in a failure of the host,
/// where the host gave none.
pub proof fn lemma_no_time_ends_the_run(s: SessionView, reply: ReplyView)
    requires
        keeps_time(s, reply),
    ensures
        next(s, reply, None).0.phase == Phase::Stopped,
        next(s, reply, None).1 == let_down(s, NO_TIME@).1,
{
}

/// The first state is sound.
pub proof fn lemma_started_sound(args: Seq<Seq<char>>)
    ensures
        started(args).0.sound(),
{
}

/// In a backup, turning to a package, or ending the run for want of one,
/// leaves a sound state.
proof fn lemma_begin_package_sound(s: SessionView)
    requires
        !s.install,
        !s.touches_base(s.target()),
    ensures
        forall|notices: Seq<NoticeView>, k: nat|
            (#[trigger] begin_package(s, notices, k)).0.sound(),
        forall|notices: Seq<NoticeView>, failure: (FailureKind, Seq<char>)|
            (#[trigger] give_up(s, notices, failure)).0.sound(),
        planned(s).0.sound(),
{
}

/// In a backup, turning to a file of a package leaves a sound state.
proof fn lemma_begin_file_sound(s: SessionView)
    requires
        !s.install,
        !s.touches_base(s.target()),
        s.package < s.packages.len(),
    ensures
        forall|notices: Seq<NoticeView>, j: nat| (#[trigger] begin_file(s, notices, j)).0.sound(),
{
    lemma_begin_package_sound(s);
}

/// In an installation, turning to a package, or ending the run for want of
/// one, leaves a sound state.
proof fn lemma_begin_install_sound(s: SessionView)
    requires
        s.install,
    ensures
        forall|notices: Seq<NoticeView>, k: nat|
            (#[trigger] begin_install(s, notices, k)).0.sound(),
{
}

/// Every decision leads from a sound state to a sound state.
pub proof fn lemma_next_sound(s: SessionView, reply: ReplyView, time: Option<Seq<char>>)
    requires
        s.sound(),
    ensures
        next(s, reply, time).0.sound(),
{
    match s.phase {
        Phase::DeviceList => {
            if let ReplyView::Ran { output } = reply {
                if let Ok(device) = packages_of(output) {
                    lemma_begin_package_sound(SessionView { packages: device, ..s });
                }
            }
        },
        Phase::BaseNames => {
            if let ReplyView::Names { names } = reply {
                lemma_begin_package_sound(
                    SessionView { packages: missing_from(s.packages, names), ..s },
                );
            }
        },
        Phase::Paths | Phase::FolderCheck => {
            lemma_begin_package_sound(s);
        },
        Phase::FolderMake => {
            lemma_begin_package_sound(s);
            lemma_begin_file_sound(SessionView { taken: Seq::empty(), ..s });
        },
        Phase::Taken => {
            lemma_begin_package_sound(s);
            if let ReplyView::Names { names } = reply {
                lemma_begin_file_sound(SessionView { taken: names, ..s });
            }
        },
        Phase::Pull => {
            lemma_begin_package_sound(s);
            lemma_begin_file_sound(s);
        },
        Phase::Pulled => {
            lemma_begin_package_sound(s);
            lemma_begin_file_sound(s);
            lemma_begin_file_sound(SessionView { taken: s.taken.push(s.local), ..s });
        },
        Phase::Folders => {
            if let ReplyView::Names { names } = reply {
                lemma_begin_install_sound(SessionView { packages: names, ..s });
            }
        },
        Phase::Apks | Phase::Installing => {
            lemma_begin_install_sound(s);
        },
        _ => {},
    }
}

/// Once the run has ended, it stays ended and says no more.
pub proof fn lemma_stopped_stays(s: SessionView, reply: ReplyView, time: Option<Seq<char>>)
    requires
        s.phase == Phase::Stopped,
    ensures
        next(s, reply, time) == halted(s, Seq::empty(), None),
{
}

/// The request has the bridge install something on the device.
pub open spec fn asks_to_install(request: RequestView) -> bool {
    &&& request matches RequestView::Run { arguments }
    &&& arguments.len() > 0
    &&& (arguments[0] == "install"@ || arguments[0] == "install-multiple"@)
}

/// The request has the bridge copy a file from the device.
pub open spec fn asks_to_copy(request: RequestView) -> bool {
    &&& request matches RequestView::Run { arguments }
    &&& arguments.len() > 0
    &&& arguments[0] == "pull"@
}

/// The first words of the commands for the bridge are all different.
proof fn lemma_commands_differ()
    ensures
        "install"@ != "version"@,
        "install"@ != "devices"@,
        "install"@ != "shell"@,
        "install"@ != "pull"@,
        "install-multiple"@ != "version"@,
        "install-multiple"@ != "devices"@,
        "install-multiple"@ != "shell"@,
        "install-multiple"@ != "pull"@,
        "pull"@ != "version"@,
        "pull"@ != "devices"@,
        "pull"@ != "shell"@,
{
    reveal_strlit("install");
    reveal_strlit("install-multiple");
    reveal_strlit("version");
    reveal_strlit("devices");
    reveal_strlit("shell");
    reveal_strlit("pull");
    assert("install"@.len() == 7 && "install"@[0] == 'i');
    assert("install-multiple"@.len() == 16);
    assert("version"@.len() == 7 && "version"@[0] == 'v');
    assert("devices"@.len() == 7 && "devices"@[0] == 'd');
    assert("shell"@.len() == 5);
    assert("pull"@.len() == 4);
}

/// Turning to a package to save has nothing installed and nothing copied.
proof fn lemma_begin_package_asks(s: SessionView)
    ensures
        forall|notices: Seq<NoticeView>, k: nat|
            !asks_to_install((#[trigger] begin_package(s, notices, k)).1.request) && !asks_to_copy(
                begin_package(s, notices, k).1.request,
            ),
        forall|notices: Seq<NoticeView>, failure: (FailureKind, Seq<char>)|
            !asks_to_install((#[trigger] give_up(s, notices, failure)).1.request) && !asks_to_copy(
                give_up(s, notices, failure).1.request,
            ),
        !asks_to_install(planned(s).1.request),
        !asks_to_copy(planned(s).1.request),
{
    lemma_commands_differ();
}

/// Turning to a package to install has nothing installed yet and nothing
/// copied.
proof fn lemma_begin_install_asks(s: SessionView)
    ensures
        forall|notices: Seq<NoticeView>, k: nat|
            !asks_to_install((#[trigger] begin_install(s, notices, k)).1.request) && !asks_to_copy(
                begin_install(s, notices, k).1.request,
            ),
{
}

/// A backup never has anything installed, and an installation never has
/// anything copied from the device.
pub proof fn lemma_requests_fit_the_run(s: SessionView, reply: ReplyView, time: Option<Seq<char>>)
    requires
        s.sound(),
    ensures
        asks_to_install(next(s, reply, time).1.request) ==> s.install,
        asks_to_copy(next(s, reply, time).1.request) ==> !s.install,
{
    lemma_commands_differ();
    match s.phase {
        Phase::DeviceList => {
            if let ReplyView::Ran { output } = reply {
                if let Ok(device) = packages_of(output) {
                    lemma_begin_package_asks(SessionView { packages: device, ..s });
                }
            }
        },
        Phase::BaseNames => {
            if let ReplyView::Names { names } = reply {
                lemma_begin_package_asks(
                    SessionView { packages: missing_from(s.packages, names), ..s },
                );
            }
        },
        Phase::Paths
        | Phase::FolderCheck
        | Phase::FolderMake
        | Phase::Taken
        | Phase::Pull
        | Phase::Pulled => {
            lemma_begin_package_asks(s);
        },
        Phase::Folders => {
            if let ReplyView::Names { names } = reply {
                lemma_begin_install_asks(SessionView { packages: names, ..s });
            }
        },
        Phase::Apks | Phase::Installing => {
            lemma_begin_install_asks(s);
        },
        _ => {},
    }
}

/// A folder that the user named is made only after the host has said that
/// nothing is there under that name.
pub proof fn lemma_named_folder_is_new(s: SessionView, reply: ReplyView, time: Option<Seq<char>>)
    requires
        s.phase == Phase::NameCheck,
        next(s, reply, time).1.request is MakeDir,
    ensures
        reply == (ReplyView::Found { present: false }),
        next(s, reply, time).1.request == (RequestView::MakeDir {
            path: joined(ROOT@, s.folder),
            parents: true,
        }),
{
}

/// The machine is dealing with one package: saving it, or having the
/// bridge install it.
pub open spec fn on_one_package(phase: Phase) -> bool {
    saves_package(phase) || phase == Phase::Installing
}

/// The request ends the run in a failure of the host or of the bridge.
pub open spec fn breaks_off(request: RequestView) -> bool {
    request matches RequestView::Stop { failure: Some(failure) } && failure.0
        != FailureKind::Unexpected
}

/// Nothing that goes wrong with one package ends the run in failure: the
/// machine turns to the next package, or ends the run in success after
/// the last.
pub proof fn lemma_one_package_cannot_break_off(
    s: SessionView,
    reply: ReplyView,
    time: Option<Seq<char>>,
)
    requires
        on_one_package(s.phase),
    ensures
        !breaks_off(next(s, reply, time).1.request),
{
}

/// Turning to a file of a package picks a name for the copy that is not
/// taken.
proof fn lemma_begin_file_free(s: SessionView)
    ensures
        forall|notices: Seq<NoticeView>, j: nat|
            (#[trigger] begin_file(s, notices, j)).0.phase == Phase::Pull ==> !begin_file(
                s,
                notices,
                j,
            ).0.taken.contains(begin_file(s, notices, j).0.local),
{
    assert forall|notices: Seq<NoticeView>, j: nat|
        (#[trigger] begin_file(s, notices, j)).0.phase == Phase::Pull implies !begin_file(
        s,
        notices,
        j,
    ).0.taken.contains(begin_file(s, notices, j).0.local) by {
        if j < s.files.len() {
            if let Some(name) = file_name_of(s.files[j as int]) {
                lemma_available_is_first(name, j + 1, s.taken);
            }
        }
    }
}

/// Whenever the machine asks for a file to be copied, the name that the
/// copy gets is not among the names that are taken.
pub proof fn lemma_copy_is_free(s: SessionView, reply: ReplyView, time: Option<Seq<char>>)
    requires
        next(s, reply, time).0.phase == Phase::Pull,
    ensures
        !next(s, reply, time).0.taken.contains(next(s, reply, time).0.local),
{
    match s.phase {
        Phase::FolderMake => {
            lemma_begin_file_free(SessionView { taken: Seq::empty(), ..s });
        },
        Phase::Taken => {
            if let ReplyView::Names { names } = reply {
                lemma_begin_file_free(SessionView { taken: names, ..s });
            }
        },
        Phase::Pull => {
            lemma_begin_file_free(s);
        },
        Phase::Pulled => {
            lemma_begin_file_free(s);
            lemma_begin_file_free(SessionView { taken: s.taken.push(s.local), ..s });
        },
        _ => {},
    }
}

/// Turning to a file of a package picks a name for the copy that is not
/// empty and holds no `/`.
proof fn lemma_begin_file_plain(s: SessionView)
    ensures
        forall|notices: Seq<NoticeView>, j: nat|
            (#[trigger] begin_file(s, notices, j)).0.phase == Phase::Pull ==> lands_in_the_folder(
                begin_file(s, notices, j),
            ),
{
    assert forall|notices: Seq<NoticeView>, j: nat|
        (#[trigger] begin_file(s, notices, j)).0.phase
            == Phase::Pull implies lands_in_the_folder(begin_file(s, notices, j)) by {
        if j < s.files.len() {
            lemma_file_name_is_plain(s.files[j as int]);
            if let Some(name) = file_name_of(s.files[j as int]) {
                lemma_available_is_plain(name, j + 1, s.taken);
            }
        }
    }
}

/// The decision has a file copied to a path that is the folder of the
/// package with one name behind it, a name that is not empty and holds no
/// `/`.
pub open spec fn lands_in_the_folder(decision: (SessionView, StepView)) -> bool {
    let s = decision.0;
    &&& s.local.len() > 0
    &&& plain(s.local)
    &&& decision.1.request == (RequestView::Run {
        arguments: pull_words(s.files[s.file as int], joined(s.package_folder(), s.local)),
    })
}

/// Whenever the machine asks for a file to be copied, the copy lands
/// directly in the folder of the package: the name that it gets is not
/// empty and holds no `/`.
pub proof fn lemma_copy_lands_in_the_folder(
    s: SessionView,
    reply: ReplyView,
    time: Option<Seq<char>>,
)
    requires
        next(s, reply, time).0.phase == Phase::Pull,
    ensures
        lands_in_the_folder(next(s, reply, time)),
{
    match s.phase {
        Phase::FolderMake => {
            lemma_begin_file_plain(SessionView { taken: Seq::empty(), ..s });
        },
        Phase::Taken => {
            if let ReplyView::Names { names } = reply {
                lemma_begin_file_plain(SessionView { taken: names, ..s });
            }
        },
        Phase::Pull => {
            lemma_begin_file_plain(s);
        },
        Phase::Pulled => {
            lemma_begin_file_plain(s);
            lemma_begin_file_plain(SessionView { taken: s.taken.push(s.local), ..s });
        },
        _ => {},
    }
}

/// Once the folder of a differential backup is settled, it is neither the
/// folder of its base nor below it.
pub proof fn lemma_base_is_kept_apart(s: SessionView)
    requires
        s.sound(),
        s.differential,
        settled(s.phase),
    ensures
        s.folder != s.base,
        !within(s.target(), s.base_folder()),
{
}

/// The request has something written at the path `path`: a directory made,
/// or a file copied from the device.
pub open spec fn writes_at(request: RequestView, path: Seq<char>) -> bool {
    match request {
        RequestView::MakeDir { path: made, .. } => made == path,
        RequestView::Run { arguments } => asks_to_copy(request) && arguments.len() == 3
            && arguments[2] == path,
        _ => false,
    }
}

/// A differential backup leaves its base as it is: once the base is
/// picked, the machine never asks for anything to be written at the folder
/// of the base or below it.
pub proof fn lemma_base_is_never_written(
    s: SessionView,
    reply: ReplyView,
    time: Option<Seq<char>>,
    path: Seq<char>,
)
    requires
        s.sound(),
        s.differential,
        s.phase == Phase::Name || settled(s.phase),
        writes_at(next(s, reply, time).1.request, path),
    ensures
        !within(path, s.base_folder()),
        next(s, reply, time).0.base == s.base,
{
    lemma_commands_differ();
    match s.phase {
        Phase::DeviceList => {
            if let ReplyView::Ran { output } = reply {
                if let Ok(device) = packages_of(output) {
                    lemma_begin_package_asks(SessionView { packages: device, ..s });
                }
            }
        },
        Phase::BaseNames => {
            if let ReplyView::Names { names } = reply {
                lemma_begin_package_asks(
                    SessionView { packages: missing_from(s.packages, names), ..s },
                );
            }
        },
        Phase::Paths | Phase::FolderCheck => {
            lemma_begin_package_asks(s);
        },
        Phase::FolderMake => {
            lemma_begin_file_writes(SessionView { taken: Seq::empty(), ..s });
        },
        Phase::Taken => {
            lemma_begin_package_asks(s);
            if let ReplyView::Names { names } = reply {
                lemma_begin_file_writes(SessionView { taken: names, ..s });
            }
        },
        Phase::Pull => {
            lemma_begin_package_asks(s);
            lemma_begin_file_writes(s);
        },
        Phase::Pulled => {
            lemma_begin_package_asks(s);
            lemma_begin_file_writes(s);
            lemma_begin_file_writes(SessionView { taken: s.taken.push(s.local), ..s });
        },
        _ => {},
    }
}

/// Turning to a file of a package has nothing written at the folder of the
/// base or below it, and leaves the base what it was.
proof fn lemma_begin_file_writes(s: SessionView)
    requires
        s.differential,
    ensures
        forall|notices: Seq<NoticeView>, j: nat, path: Seq<char>|
            writes_at((#[trigger] begin_file(s, notices, j)).1.request, path) ==> !#[trigger] within(
                path,
                s.base_folder(),
            ),
        forall|notices: Seq<NoticeView>, j: nat|
            (#[trigger] begin_file(s, notices, j)).0.base == s.base,
{
    lemma_commands_differ();
    lemma_begin_package_asks(s);
}

/// The folder that a differential backup has made for itself is neither
/// the folder of its base nor below it, and the base stays what it was.
pub proof fn lemma_differential_makes_its_own_folder(
    s: SessionView,
    reply: ReplyView,
    time: Option<Seq<char>>,
)
    requires
        s.sound(),
        s.differential,
        next(s, reply, time).0.phase == Phase::TargetMake,
    ensures
        next(s, reply, time).1.request == (RequestView::MakeDir {
            path: next(s, reply, time).0.target(),
            parents: true,
        }),
        next(s, reply, time).0.base == s.base,
        !within(next(s, reply, time).0.target(), s.base_folder()),
{
    lemma_next_sound(s, reply, time);
}

/// A differential backup lists the folder of its base for the packages that
/// the base holds, and saves those packages of the device that the base
/// lacks.
pub proof fn lemma_differential_saves_what_the_base_lacks(
    s: SessionView,
    output: OutputView,
    device: Seq<Seq<char>>,
    names: Seq<Seq<char>>,
    time: Option<Seq<char>>,
)
    requires
        s.sound(),
        s.differential,
        s.phase == Phase::DeviceList,
        packages_of(output) matches Ok(found) && found == device,
    ensures
        ({
            let listed = next(s, ReplyView::Ran { output }, time);
            let planned = next(listed.0, ReplyView::Names { names }, time);
            &&& listed.1.request == (RequestView::List { path: s.base_folder(), folders: false })
            &&& planned.0.packages == missing_from(device, names)
            &&& planned.0.folder == s.folder
            &&& planned.0.base == s.base
        }),
{
}

} // verus!
