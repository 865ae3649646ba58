//! A run of the program as a machine that does no input or output itself.
//!
//! The machine hands its host a request; the host carries it out and hands
//! back a reply; the machine decides what comes next, as `model::next` says.

use crate::bridge::{
    device_connected, devices_arguments, install_arguments, list_arguments, package_paths,
    path_arguments, pull_arguments, third_party_packages, version_arguments,
};
use crate::choice::{backup_mode, invocation, selection, BackupMode, Invocation};
use crate::failure::{Failure, FailureKind};
use crate::model::{
    after_apks, after_backups, after_base_list, after_base_names, after_base_select,
    after_device_list, after_devices, after_folder_check, after_folder_make, after_folders,
    after_installing, after_mode, after_name, after_name_check, after_paths, after_pick,
    after_probe, after_pull, after_pulled, after_root_check, after_root_make, after_taken,
    after_target_make, asked, begin_file, begin_files, begin_install, begin_package, blank,
    confused, give_up, halted, keeps_time, let_down, menu, naming, next, planned, started,
    Phase, SessionView, ROOT,
};
use crate::names::{apk_paths, available_name, file_name, is_within, join};
use crate::notice::{
    backing_up, extracted, extracting, failed, install_failed, install_not_run, installed,
    invalid_argument, invalid_argument_text, list_of, no_apks, not_created, not_extracted, note,
    note_list, only, said, say, silence, usage, usage_text, warn, warned, Notice, BRIDGE_MISSING,
    CHOOSE_BASE, CHOOSE_INSTALL, DISCONNECTED, ENTER_NUMBER, FOLDER_EXISTS, INVALID_BASE,
    INVALID_MODE, INVALID_PICK, MENU_DIFFERENTIAL, MENU_HEAD, MENU_NEW, MENU_PROMPT, NAME_HEAD,
    NAME_PROMPT, NO_BACKUPS, NO_DIFFERENCES, NO_TIME, SUCCESSFUL,
};
use crate::plan::{folder_name, packages_to_backup};
use crate::protocol::{Reply, Request, RequestView, Step};
use vstd::prelude::*;

verus! {

/// A run of the program: what it has decided so far.
pub struct Session {
    phase: Phase,
    install: bool,
    differential: bool,
    stamp: String,
    backups: Vec<String>,
    base: String,
    folder: String,
    packages: Vec<String>,
    package: usize,
    files: Vec<String>,
    file: usize,
    taken: Vec<String>,
    name: String,
    local: String,
}

impl View for Session {
    type V = SessionView;

    closed spec fn view(&self) -> SessionView {
        SessionView {
            phase: self.phase,
            install: self.install,
            differential: self.differential,
            stamp: self.stamp@,
            backups: self.backups.deep_view(),
            base: self.base@,
            folder: self.folder@,
            packages: self.packages.deep_view(),
            package: self.package as nat,
            files: self.files.deep_view(),
            file: self.file as nat,
            taken: self.taken.deep_view(),
            name: self.name@,
            local: self.local@,
        }
    }
}

/// A notice on the standard output with the words `text`.
fn tell(text: &str) -> (r: Notice)
    ensures
        r@ == said(text@),
{
    say(text.to_string())
}

/// A notice on the standard error with the words `text`.
fn alert(text: &str) -> (r: Notice)
    ensures
        r@ == warned(text@),
{
    warn(text.to_string())
}

impl Session {
    #[verifier::type_invariant]
    spec fn sound(&self) -> bool {
        self@.sound()
    }

    /// The state before anything was decided.
    fn blank(install: bool) -> (r: Session)
        ensures
            r@ == (SessionView { install, ..blank() }),
    {
        let r = Session {
            phase: Phase::Stopped,
            install,
            differential: false,
            stamp: String::new(),
            backups: Vec::new(),
            base: String::new(),
            folder: String::new(),
            packages: Vec::new(),
            package: 0,
            files: Vec::new(),
            file: 0,
            taken: Vec::new(),
            name: String::new(),
            local: String::new(),
        };
        assert(r.backups.deep_view() =~= Seq::empty());
        assert(r.packages.deep_view() =~= Seq::empty());
        assert(r.files.deep_view() =~= Seq::empty());
        assert(r.taken.deep_view() =~= Seq::empty());
        r
    }

    /// The request that the machine is waiting on.
    pub fn phase(&self) -> (r: Phase)
        ensures
            r == self@.phase,
    {
        self.phase
    }

    /// Decides as `halted` of the model says.
    fn halt(self, notices: Vec<Notice>, failure: Option<Failure>) -> (r: (Session, Step))
        ensures
            (r.0@, r.1@) == halted(self@, notices.deep_view(), failure.deep_view()),
    {
        (
            Session { phase: Phase::Stopped, ..self },
            Step { notices, request: Request::Stop { failure } },
        )
    }

    /// Decides as `asked` of the model says.
    fn ask(self, phase: Phase, notices: Vec<Notice>, request: Request) -> (r: (Session, Step))
        requires
            (SessionView { phase, ..self@ }).sound(),
        ensures
            (r.0@, r.1@) == asked(self@, phase, notices.deep_view(), request@),
    {
        (Session { phase, ..self }, Step { notices, request })
    }

    /// Decides as `confused` of the model says.
    fn confuse(self) -> (r: (Session, Step))
        ensures
            (r.0@, r.1@) == confused(self@),
    {
        self.halt(silence(), Some(Failure::of(FailureKind::Unexpected)))
    }

    /// Decides as `let_down` of the model says.
    fn let_down(self, reason: String) -> (r: (Session, Step))
        ensures
            (r.0@, r.1@) == let_down(self@, reason@),
    {
        self.halt(silence(), Some(Failure::with(FailureKind::Host, reason)))
    }

    /// What the machine decides first, from the command line `args`, whose
    /// first entry is the name of the program.
    pub fn start(args: &Vec<String>) -> (r: (Session, Step))
        ensures
            (r.0@, r.1@) == started(args.deep_view()),
    {
        let program = if args.len() > 0 {
            args[0].as_str()
        } else {
            ""
        };
        proof {
            reveal_strlit("");
            assert(""@ =~= Seq::<char>::empty());
        }
        match invocation(args) {
            Invocation::Missing => Session::blank(false).halt(only(warn(usage(program))), None),
            Invocation::Unknown => {
                let mut notices = only(warn(invalid_argument(args[1].as_str())));
                note(&mut notices, warn(usage(program)));
                assert(notices.deep_view() =~= seq![
                    warned(invalid_argument_text(args.deep_view()[1])),
                    warned(usage_text(program@)),
                ]);
                Session::blank(false).halt(notices, None)
            },
            Invocation::Backup => Session::blank(false).ask(
                Phase::Probe,
                silence(),
                Request::Run { arguments: version_arguments() },
            ),
            Invocation::Install => Session::blank(true).ask(
                Phase::Probe,
                silence(),
                Request::Run { arguments: version_arguments() },
            ),
        }
    }

    /// Decides as `menu` of the model says.
    fn menu(self, before: Vec<Notice>) -> (r: (Session, Step))
        requires
            !self@.install,
        ensures
            (r.0@, r.1@) == menu(self@, before.deep_view()),
    {
        let mut notices = before;
        note(&mut notices, tell(MENU_HEAD));
        note(&mut notices, tell(MENU_NEW));
        note(&mut notices, tell(MENU_DIFFERENTIAL));
        assert(notices.deep_view() =~= before.deep_view() + seq![
            said(MENU_HEAD@),
            said(MENU_NEW@),
            said(MENU_DIFFERENTIAL@),
        ]);
        self.ask(Phase::Mode, notices, Request::Ask { prompt: MENU_PROMPT.to_string() })
    }

    /// Decides as `begin_package` of the model says.
    fn begin_package(self, notices: Vec<Notice>, k: usize) -> (r: (Session, Step))
        requires
            !self@.install,
            !self@.touches_base(self@.target()),
        ensures
            (r.0@, r.1@) == begin_package(self@, notices.deep_view(), k as nat),
    {
        if k < self.packages.len() {
            let mut notices = notices;
            let package = self.packages[k].as_str();
            assert(package@ == self@.packages[k as int]);
            note(&mut notices, say(backing_up(k + 1, self.packages.len(), package)));
            let request = Request::Run { arguments: path_arguments(package) };
            (Session { phase: Phase::Paths, package: k, ..self }, Step { notices, request })
        } else {
            self.halt(notices, None)
        }
    }

    /// Decides as `give_up` of the model says.
    fn give_up(self, notices: Vec<Notice>, failure: Failure) -> (r: (Session, Step))
        requires
            !self@.install,
            !self@.touches_base(self@.target()),
            self@.package < self@.packages.len(),
        ensures
            (r.0@, r.1@) == give_up(self@, notices.deep_view(), failure@),
    {
        let mut notices = notices;
        note(&mut notices, warn(failed(failure.message().as_str())));
        assert(self.packages.deep_view().len() == self.packages.len());
        let k = self.package + 1;
        self.begin_package(notices, k)
    }

    /// Decides as `planned` of the model says.
    fn planned(self) -> (r: (Session, Step))
        requires
            !self@.install,
            !self@.touches_base(self@.target()),
        ensures
            (r.0@, r.1@) == planned(self@),
    {
        if self.packages.len() == 0 {
            self.halt(only(tell(NO_DIFFERENCES)), None)
        } else {
            self.begin_package(silence(), 0)
        }
    }

    /// Tells whether to write at the path `path` would change the base of a
    /// differential backup.
    fn touches_base(&self, path: &str) -> (r: bool)
        ensures
            r == self@.touches_base(path@),
    {
        if self.differential {
            let base = join(ROOT, self.base.as_str());
            is_within(path, base.as_str())
        } else {
            false
        }
    }

    /// The folder of the package that is dealt with.
    fn package_folder(&self) -> (r: String)
        requires
            self@.package < self@.packages.len(),
        ensures
            r@ == self@.package_folder(),
    {
        let target = join(ROOT, self.folder.as_str());
        join(target.as_str(), self.packages[self.package].as_str())
    }

    /// Decides as `begin_file` of the model says.
    fn begin_file(self, notices: Vec<Notice>, j: usize) -> (r: (Session, Step))
        requires
            !self@.install,
            !self@.touches_base(self@.target()),
            self@.package < self@.packages.len(),
        ensures
            (r.0@, r.1@) == begin_file(self@, notices.deep_view(), j as nat),
    {
        if j < self.files.len() {
            let remote = self.files[j].as_str();
            assert(remote@ == self@.files[j as int]);
            match file_name(remote) {
                None => self.give_up(notices, Failure::of(FailureKind::NoFileName)),
                Some(name) => match available_name(name.as_str(), j + 1, &self.taken) {
                    None => self.give_up(notices, Failure::of(FailureKind::NoFreeName)),
                    Some(local) => {
                        let folder = self.package_folder();
                        let path = join(folder.as_str(), local.as_str());
                        if self.touches_base(path.as_str()) {
                            self.give_up(notices, Failure::of(FailureKind::InsideBase))
                        } else {
                            let request = Request::Run {
                                arguments: pull_arguments(remote, path.as_str()),
                            };
                            (
                                Session { phase: Phase::Pull, file: j, name, local, ..self },
                                Step { notices, request },
                            )
                        }
                    },
                },
            }
        } else {
            let mut notices = notices;
            note(&mut notices, tell(SUCCESSFUL));
            assert(self.packages.deep_view().len() == self.packages.len());
            let k = self.package + 1;
            self.begin_package(notices, k)
        }
    }

    /// Decides as `begin_files` of the model says.
    fn begin_files(self) -> (r: (Session, Step))
        requires
            !self@.install,
            !self@.touches_base(self@.target()),
            self@.package < self@.packages.len(),
        ensures
            (r.0@, r.1@) == begin_files(self@),
    {
        let notices = only(say(extracting(self.files.len())));
        self.begin_file(notices, 0)
    }

    /// Decides as `begin_install` of the model says.
    fn begin_install(self, notices: Vec<Notice>, k: usize) -> (r: (Session, Step))
        requires
            self@.install,
        ensures
            (r.0@, r.1@) == begin_install(self@, notices.deep_view(), k as nat),
    {
        if k < self.packages.len() {
            let target = join(ROOT, self.folder.as_str());
            let path = join(target.as_str(), self.packages[k].as_str());
            assert(self.packages[k as int]@ == self@.packages[k as int]);
            (
                Session { phase: Phase::Apks, package: k, ..self },
                Step { notices, request: Request::List { path, folders: false } },
            )
        } else {
            self.halt(notices, None)
        }
    }

    /// Decides as `after_probe` of the model says.
    fn after_probe(self, reply: Reply) -> (r: (Session, Step))
        requires
            self@.sound(),
            self@.phase == Phase::Probe,
        ensures
            (r.0@, r.1@) == after_probe(self@, reply@),
    {
        match reply {
            Reply::Ran { .. } => self.ask(
                Phase::Devices,
                silence(),
                Request::Run { arguments: devices_arguments() },
            ),
            Reply::Failed { .. } => self.halt(only(alert(BRIDGE_MISSING)), None),
            _ => self.confuse(),
        }
    }

    /// Decides as `after_devices` of the model says.
    fn after_devices(self, reply: Reply) -> (r: (Session, Step))
        requires
            self@.sound(),
            self@.phase == Phase::Devices,
        ensures
            (r.0@, r.1@) == after_devices(self@, reply@),
    {
        match reply {
            Reply::Ran { output } => if device_connected(Some(&output)) {
                self.ask(Phase::RootCheck, silence(), Request::Exists { path: ROOT.to_string() })
            } else {
                self.halt(only(alert(DISCONNECTED)), None)
            },
            Reply::Failed { .. } => self.halt(only(alert(DISCONNECTED)), None),
            _ => self.confuse(),
        }
    }

    /// Decides as `after_root_check` of the model says.
    fn after_root_check(self, reply: Reply) -> (r: (Session, Step))
        requires
            self@.sound(),
            self@.phase == Phase::RootCheck,
        ensures
            (r.0@, r.1@) == after_root_check(self@, reply@),
    {
        match reply {
            Reply::Found { present } => if self.install {
                if present {
                    self.ask(
                        Phase::Backups,
                        silence(),
                        Request::List { path: ROOT.to_string(), folders: true },
                    )
                } else {
                    self.halt(silence(), Some(Failure::of(FailureKind::RootMissing)))
                }
            } else {
                if present {
                    self.menu(silence())
                } else {
                    self.ask(
                        Phase::RootMake,
                        silence(),
                        Request::MakeDir { path: ROOT.to_string(), parents: false },
                    )
                }
            },
            Reply::Failed { reason } => self.let_down(reason),
            _ => self.confuse(),
        }
    }

    /// Decides as `after_root_make` of the model says.
    fn after_root_make(self, reply: Reply) -> (r: (Session, Step))
        requires
            self@.sound(),
            self@.phase == Phase::RootMake,
        ensures
            (r.0@, r.1@) == after_root_make(self@, reply@),
    {
        match reply {
            Reply::Done => self.menu(silence()),
            Reply::Failed { reason } => self.let_down(reason),
            _ => self.confuse(),
        }
    }

    /// Decides as `naming` of the model says.
    fn naming(self, time: Option<&str>) -> (r: (Session, Step))
        requires
            !self@.install,
        ensures
            (r.0@, r.1@) == naming(self@, time.deep_view()),
    {
        match time {
            Some(stamp) => (
                Session { phase: Phase::Name, stamp: stamp.to_string(), ..self },
                Step {
                    notices: only(tell(NAME_HEAD)),
                    request: Request::Ask { prompt: NAME_PROMPT.to_string() },
                },
            ),
            None => self.let_down(NO_TIME.to_string()),
        }
    }

    /// Decides as `after_mode` of the model says.
    fn after_mode(self, reply: Reply, time: Option<&str>) -> (r: (Session, Step))
        requires
            self@.sound(),
            self@.phase == Phase::Mode,
        ensures
            (r.0@, r.1@) == after_mode(self@, reply@, time.deep_view()),
    {
        match reply {
            Reply::Line { text } => match backup_mode(text.as_str()) {
                Some(BackupMode::New) => (Session { differential: false, ..self }).naming(time),
                Some(BackupMode::Differential) => self.ask(
                    Phase::BaseList,
                    silence(),
                    Request::List { path: ROOT.to_string(), folders: true },
                ),
                None => self.menu(only(alert(INVALID_MODE))),
            },
            Reply::Failed { reason } => self.let_down(reason),
            _ => self.confuse(),
        }
    }

    /// Decides as `after_name` of the model says.
    fn after_name(self, reply: Reply) -> (r: (Session, Step))
        requires
            self@.sound(),
            self@.phase == Phase::Name,
        ensures
            (r.0@, r.1@) == after_name(self@, reply@),
    {
        match reply {
            Reply::Line { text } => {
                let (folder, named) = folder_name(text.as_str(), self.stamp.as_str());
                let path = join(ROOT, folder.as_str());
                if self.touches_base(path.as_str()) {
                    self.ask(
                        Phase::Name,
                        only(alert(FOLDER_EXISTS)),
                        Request::Ask { prompt: NAME_PROMPT.to_string() },
                    )
                } else if named {
                    (
                        Session { phase: Phase::NameCheck, folder, ..self },
                        Step { notices: silence(), request: Request::Exists { path } },
                    )
                } else {
                    (
                        Session { phase: Phase::TargetMake, folder, ..self },
                        Step {
                            notices: silence(),
                            request: Request::MakeDir { path, parents: true },
                        },
                    )
                }
            },
            Reply::Failed { reason } => self.let_down(reason),
            _ => self.confuse(),
        }
    }

    /// Decides as `after_name_check` of the model says.
    fn after_name_check(self, reply: Reply) -> (r: (Session, Step))
        requires
            self@.sound(),
            self@.phase == Phase::NameCheck,
        ensures
            (r.0@, r.1@) == after_name_check(self@, reply@),
    {
        match reply {
            Reply::Found { present } => if present {
                self.ask(
                    Phase::Name,
                    only(alert(FOLDER_EXISTS)),
                    Request::Ask { prompt: NAME_PROMPT.to_string() },
                )
            } else {
                let path = join(ROOT, self.folder.as_str());
                self.ask(Phase::TargetMake, silence(), Request::MakeDir { path, parents: true })
            },
            Reply::Failed { reason } => self.let_down(reason),
            _ => self.confuse(),
        }
    }

    /// The backups `names` under the heading `heading`, for the user to
    /// pick one; the machine then waits in the phase `phase`.
    fn offer(self, names: Vec<String>, heading: &str, phase: Phase) -> (r: (Session, Step))
        requires
            phase == Phase::BaseSelect && !self@.install || phase == Phase::Pick && self@.install,
        ensures
            (r.0@, r.1@) == if names.len() == 0 {
                halted(self@, seq![warned(NO_BACKUPS@)], None)
            } else {
                asked(
                    SessionView { backups: names.deep_view(), ..self@ },
                    phase,
                    seq![said(heading@)] + list_of(names.deep_view()),
                    RequestView::Ask { prompt: ENTER_NUMBER@ },
                )
            },
    {
        if names.len() == 0 {
            self.halt(only(alert(NO_BACKUPS)), None)
        } else {
            let mut notices = only(tell(heading));
            note_list(&mut notices, &names);
            (
                Session { phase, backups: names, ..self },
                Step { notices, request: Request::Ask { prompt: ENTER_NUMBER.to_string() } },
            )
        }
    }

    /// Decides as `after_base_list` of the model says.
    fn after_base_list(self, reply: Reply) -> (r: (Session, Step))
        requires
            self@.sound(),
            self@.phase == Phase::BaseList,
        ensures
            (r.0@, r.1@) == after_base_list(self@, reply@),
    {
        match reply {
            Reply::Names { names } => self.offer(names, CHOOSE_BASE, Phase::BaseSelect),
            Reply::Failed { reason } => self.let_down(reason),
            _ => self.confuse(),
        }
    }

    /// Decides as `after_base_select` of the model says.
    fn after_base_select(self, reply: Reply, time: Option<&str>) -> (r: (Session, Step))
        requires
            self@.sound(),
            self@.phase == Phase::BaseSelect,
        ensures
            (r.0@, r.1@) == after_base_select(self@, reply@, time.deep_view()),
    {
        match reply {
            Reply::Line { text } => match selection(text.as_str(), self.backups.len()) {
                Some(i) => {
                    let base = self.backups[i].clone();
                    assert(base@ == self@.backups[i as int]);
                    (Session { base, differential: true, ..self }).naming(time)
                },
                None => self.halt(only(alert(INVALID_BASE)), None),
            },
            Reply::Failed { reason } => self.let_down(reason),
            _ => self.confuse(),
        }
    }

    /// Decides as `after_target_make` of the model says.
    fn after_target_make(self, reply: Reply) -> (r: (Session, Step))
        requires
            self@.sound(),
            self@.phase == Phase::TargetMake,
        ensures
            (r.0@, r.1@) == after_target_make(self@, reply@),
    {
        match reply {
            Reply::Done => self.ask(
                Phase::DeviceList,
                silence(),
                Request::Run { arguments: list_arguments() },
            ),
            Reply::Failed { reason } => self.let_down(reason),
            _ => self.confuse(),
        }
    }

    /// Decides as `after_device_list` of the model says.
    fn after_device_list(self, reply: Reply) -> (r: (Session, Step))
        requires
            self@.sound(),
            self@.phase == Phase::DeviceList,
        ensures
            (r.0@, r.1@) == after_device_list(self@, reply@),
    {
        match reply {
            Reply::Ran { output } => match third_party_packages(output) {
                Ok(device) => if self.differential {
                    let path = join(ROOT, self.base.as_str());
                    (
                        Session { phase: Phase::BaseNames, packages: device, ..self },
                        Step {
                            notices: silence(),
                            request: Request::List { path, folders: false },
                        },
                    )
                } else {
                    (Session { phase: Phase::Stopped, packages: device, ..self }).planned()
                },
                Err(failure) => self.halt(silence(), Some(failure)),
            },
            Reply::Failed { reason } => self.let_down(reason),
            _ => self.confuse(),
        }
    }

    /// Decides as `after_base_names` of the model says.
    fn after_base_names(self, reply: Reply) -> (r: (Session, Step))
        requires
            self@.sound(),
            self@.phase == Phase::BaseNames,
        ensures
            (r.0@, r.1@) == after_base_names(self@, reply@),
    {
        match reply {
            Reply::Names { names } => {
                let packages = packages_to_backup(&self.packages, &names);
                (Session { phase: Phase::Stopped, packages, ..self }).planned()
            },
            Reply::Failed { reason } => self.let_down(reason),
            _ => self.confuse(),
        }
    }

    /// Decides as `after_paths` of the model says.
    fn after_paths(self, reply: Reply) -> (r: (Session, Step))
        requires
            self@.sound(),
            self@.phase == Phase::Paths,
        ensures
            (r.0@, r.1@) == after_paths(self@, reply@),
    {
        match reply {
            Reply::Ran { output } => match package_paths(output) {
                Ok(files) => {
                    let path = self.package_folder();
                    (
                        Session { phase: Phase::FolderCheck, files, ..self },
                        Step { notices: silence(), request: Request::Exists { path } },
                    )
                },
                Err(failure) => self.give_up(silence(), failure),
            },
            Reply::Failed { reason } => self.give_up(
                silence(),
                Failure::with(FailureKind::Host, reason),
            ),
            _ => self.confuse(),
        }
    }

    /// Decides as `after_folder_check` of the model says.
    fn after_folder_check(self, reply: Reply) -> (r: (Session, Step))
        requires
            self@.sound(),
            self@.phase == Phase::FolderCheck,
        ensures
            (r.0@, r.1@) == after_folder_check(self@, reply@),
    {
        match reply {
            Reply::Found { present } => {
                let path = self.package_folder();
                if present {
                    self.ask(Phase::Taken, silence(), Request::List { path, folders: false })
                } else if self.touches_base(path.as_str()) {
                    self.give_up(silence(), Failure::of(FailureKind::InsideBase))
                } else {
                    self.ask(Phase::FolderMake, silence(), Request::MakeDir { path, parents: true })
                }
            },
            Reply::Failed { reason } => self.give_up(
                silence(),
                Failure::with(FailureKind::Host, reason),
            ),
            _ => self.confuse(),
        }
    }

    /// Decides as `after_folder_make` of the model says.
    fn after_folder_make(self, reply: Reply) -> (r: (Session, Step))
        requires
            self@.sound(),
            self@.phase == Phase::FolderMake,
        ensures
            (r.0@, r.1@) == after_folder_make(self@, reply@),
    {
        match reply {
            Reply::Done => {
                let taken: Vec<String> = Vec::new();
                assert(taken.deep_view() =~= Seq::empty());
                (Session { taken, ..self }).begin_files()
            },
            Reply::Failed { reason } => self.give_up(
                silence(),
                Failure::with(FailureKind::Host, reason),
            ),
            _ => self.confuse(),
        }
    }

    /// Decides as `after_taken` of the model says.
    fn after_taken(self, reply: Reply) -> (r: (Session, Step))
        requires
            self@.sound(),
            self@.phase == Phase::Taken,
        ensures
            (r.0@, r.1@) == after_taken(self@, reply@),
    {
        match reply {
            Reply::Names { names } => (Session { taken: names, ..self }).begin_files(),
            Reply::Failed { reason } => self.give_up(
                silence(),
                Failure::with(FailureKind::Host, reason),
            ),
            _ => self.confuse(),
        }
    }

    /// Decides as `after_pull` of the model says.
    fn after_pull(self, reply: Reply) -> (r: (Session, Step))
        requires
            self@.sound(),
            self@.phase == Phase::Pull,
        ensures
            (r.0@, r.1@) == after_pull(self@, reply@),
    {
        match reply {
            Reply::Ran { output } => if output.success {
                let folder = self.package_folder();
                let path = join(folder.as_str(), self.local.as_str());
                self.ask(Phase::Pulled, silence(), Request::Exists { path })
            } else {
                let notices = only(warn(not_extracted(self.name.as_str(), &output.stderr)));
                assert(self.files.deep_view().len() == self.files.len());
                let j = self.file + 1;
                self.begin_file(notices, j)
            },
            Reply::Failed { reason } => self.give_up(
                silence(),
                Failure::with(FailureKind::Host, reason),
            ),
            _ => self.confuse(),
        }
    }

    /// Decides as `after_pulled` of the model says.
    fn after_pulled(self, reply: Reply) -> (r: (Session, Step))
        requires
            self@.sound(),
            self@.phase == Phase::Pulled,
        ensures
            (r.0@, r.1@) == after_pulled(self@, reply@),
    {
        assert(self.files.deep_view().len() == self.files.len());
        match reply {
            Reply::Found { present } => {
                let j = self.file + 1;
                if present {
                    let notices = only(
                        say(extracted(self.file + 1, self.files.len(), self.name.as_str())),
                    );
                    let mut taken = self.taken;
                    let ghost before = taken.deep_view();
                    taken.push(self.local.clone());
                    assert(taken.deep_view() =~= before.push(self.local@));
                    (Session { taken, ..self }).begin_file(notices, j)
                } else {
                    let notices = only(warn(not_created(self.name.as_str())));
                    self.begin_file(notices, j)
                }
            },
            Reply::Failed { reason } => self.give_up(
                silence(),
                Failure::with(FailureKind::Host, reason),
            ),
            _ => self.confuse(),
        }
    }

    /// Decides as `after_backups` of the model says.
    fn after_backups(self, reply: Reply) -> (r: (Session, Step))
        requires
            self@.sound(),
            self@.phase == Phase::Backups,
        ensures
            (r.0@, r.1@) == after_backups(self@, reply@),
    {
        match reply {
            Reply::Names { names } => self.offer(names, CHOOSE_INSTALL, Phase::Pick),
            Reply::Failed { reason } => self.let_down(reason),
            _ => self.confuse(),
        }
    }

    /// Decides as `after_pick` of the model says.
    fn after_pick(self, reply: Reply) -> (r: (Session, Step))
        requires
            self@.sound(),
            self@.phase == Phase::Pick,
        ensures
            (r.0@, r.1@) == after_pick(self@, reply@),
    {
        match reply {
            Reply::Line { text } => match selection(text.as_str(), self.backups.len()) {
                Some(i) => {
                    let folder = self.backups[i].clone();
                    assert(folder@ == self@.backups[i as int]);
                    let path = join(ROOT, folder.as_str());
                    (
                        Session { phase: Phase::Folders, folder, ..self },
                        Step { notices: silence(), request: Request::List { path, folders: true } },
                    )
                },
                None => self.ask(
                    Phase::Pick,
                    only(alert(INVALID_PICK)),
                    Request::Ask { prompt: ENTER_NUMBER.to_string() },
                ),
            },
            Reply::Failed { reason } => self.let_down(reason),
            _ => self.confuse(),
        }
    }

    /// Decides as `after_folders` of the model says.
    fn after_folders(self, reply: Reply) -> (r: (Session, Step))
        requires
            self@.sound(),
            self@.phase == Phase::Folders,
        ensures
            (r.0@, r.1@) == after_folders(self@, reply@),
    {
        match reply {
            Reply::Names { names } => (
                Session { phase: Phase::Stopped, packages: names, ..self }
            ).begin_install(silence(), 0),
            Reply::Failed { reason } => self.let_down(reason),
            _ => self.confuse(),
        }
    }

    /// Decides as `after_apks` of the model says.
    fn after_apks(self, reply: Reply) -> (r: (Session, Step))
        requires
            self@.sound(),
            self@.phase == Phase::Apks,
        ensures
            (r.0@, r.1@) == after_apks(self@, reply@),
    {
        assert(self.packages.deep_view().len() == self.packages.len());
        match reply {
            Reply::Names { names } => {
                let folder = self.package_folder();
                let files = apk_paths(folder.as_str(), &names);
                if files.len() == 0 {
                    let k = self.package + 1;
                    self.begin_install(only(warn(no_apks(folder.as_str()))), k)
                } else {
                    let request = Request::Run { arguments: install_arguments(&files) };
                    (
                        Session { phase: Phase::Installing, files, ..self },
                        Step { notices: silence(), request },
                    )
                }
            },
            Reply::Failed { reason } => self.let_down(reason),
            _ => self.confuse(),
        }
    }

    /// Decides as `after_installing` of the model says.
    fn after_installing(self, reply: Reply) -> (r: (Session, Step))
        requires
            self@.sound(),
            self@.phase == Phase::Installing,
        ensures
            (r.0@, r.1@) == after_installing(self@, reply@),
    {
        assert(self.packages.deep_view().len() == self.packages.len());
        let k = self.package + 1;
        let package = self.packages[self.package].as_str();
        assert(package@ == self@.packages[self@.package as int]);
        match reply {
            Reply::Ran { output } => {
                let notice = if output.success {
                    say(installed(package))
                } else {
                    warn(install_failed(package, &output.stdout, &output.stderr))
                };
                self.begin_install(only(notice), k)
            },
            Reply::Failed { reason } => {
                let notice = warn(install_not_run(reason.as_str()));
                self.begin_install(only(notice), k)
            },
            _ => self.confuse(),
        }
    }

    /// What the machine decides on the reply `reply`. `time` is the time of
    /// the decision as a text to name a backup by; it is needed where
    /// `wants_time` says so, and counts nowhere else.
    pub fn step_at(self, reply: Reply, time: Option<&str>) -> (r: (Session, Step))
        ensures
            (r.0@, r.1@) == next(self@, reply@, time.deep_view()),
    {
        proof {
            use_type_invariant(&self);
        }
        match self.phase {
            Phase::Probe => self.after_probe(reply),
            Phase::Devices => self.after_devices(reply),
            Phase::RootCheck => self.after_root_check(reply),
            Phase::RootMake => self.after_root_make(reply),
            Phase::Mode => self.after_mode(reply, time),
            Phase::Name => self.after_name(reply),
            Phase::NameCheck => self.after_name_check(reply),
            Phase::BaseList => self.after_base_list(reply),
            Phase::BaseSelect => self.after_base_select(reply, time),
            Phase::TargetMake => self.after_target_make(reply),
            Phase::DeviceList => self.after_device_list(reply),
            Phase::BaseNames => self.after_base_names(reply),
            Phase::Paths => self.after_paths(reply),
            Phase::FolderCheck => self.after_folder_check(reply),
            Phase::FolderMake => self.after_folder_make(reply),
            Phase::Taken => self.after_taken(reply),
            Phase::Pull => self.after_pull(reply),
            Phase::Pulled => self.after_pulled(reply),
            Phase::Backups => self.after_backups(reply),
            Phase::Pick => self.after_pick(reply),
            Phase::Folders => self.after_folders(reply),
            Phase::Apks => self.after_apks(reply),
            Phase::Installing => self.after_installing(reply),
            Phase::Stopped => self.halt(silence(), None),
        }
    }

    /// Tells whether the decision on the reply `reply` keeps the time.
    pub fn wants_time(&self, reply: &Reply) -> (r: bool)
        ensures
            r == keeps_time(self@, reply@),
    {
        match reply {
            Reply::Line { text } => match self.phase {
                Phase::Mode => match backup_mode(text.as_str()) {
                    Some(BackupMode::New) => true,
                    _ => false,
                },
                Phase::BaseSelect => selection(text.as_str(), self.backups.len()).is_some(),
                _ => false,
            },
            _ => false,
        }
    }
}

} // verus!
