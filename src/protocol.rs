//! The install / upload / sync protocol of a package system, as a state
//! machine. A driver performs each effect the machine asks for (reading a
//! list file, running a command, writing the desired-packages file) and hands
//! back what happened; the machine decides what comes next.

use vstd::prelude::*;
use vstd::utf8::{decode_utf8, valid_utf8};

use crate::command::{CommandProxy, CommandView};
use crate::error::{ErrorKind, PacError};
use crate::system::{FileContents, FileView, PackageSystem, SystemView};
use crate::text::{
    decode_text, is_name, lemma_collect, lemma_listed_sequence, lemma_words_are_names,
    law_list_file_round_trip, listed_names, listed_sequence, names_of, names_without, read_names,
    render, render_names, split_words, string_set, without, words,
};

verus! {

/// What a driver is asked to carry out on a package system.
#[derive(Clone, Copy, Debug, PartialEq, Eq, Structural)]
pub enum Operation {
    /// Install the packages of the desired-packages file.
    Install,
    /// Record the installed packages, less the excluded ones, in the
    /// desired-packages file.
    Upload,
    /// Install, then upload.
    Sync,
}

/// One of the two package lists in a package system's folder.
#[derive(Clone, Copy, Debug, PartialEq, Eq, Structural)]
pub enum ListFile {
    /// The desired-packages file.
    Packages,
    /// The excluded-packages file.
    Excluded,
}

/// How a command that inherits the terminal went.
#[derive(Clone, Copy, Debug, PartialEq, Eq, Structural)]
pub enum RunStatus {
    /// It could not be started.
    NotStarted,
    /// It ran; whether its exit status was success.
    Exited(bool),
}

/// How replacing the desired-packages file went.
#[derive(Clone, Copy, Debug, PartialEq, Eq, Structural)]
pub enum WriteStatus {
    Written,
    CreateFailed,
    WriteFailed,
}

/// What the driver reports back after an effect.
pub enum Event {
    /// What reading a list file found.
    Read(FileContents),
    /// How an interactive command went.
    Ran(RunStatus),
    /// The standard output of a captured command, or `None` where it could not
    /// be run or captured.
    Captured(Option<Vec<u8>>),
    /// How writing the desired-packages file went.
    Wrote(WriteStatus),
}

/// What an event reports, as values.
pub enum EventView {
    Read(FileView),
    Ran(RunStatus),
    Captured(Option<Seq<u8>>),
    Wrote(WriteStatus),
}

impl View for Event {
    type V = EventView;

    open spec fn view(&self) -> EventView {
        match self {
            Event::Read(f) => EventView::Read(f@),
            Event::Ran(s) => EventView::Ran(*s),
            Event::Captured(o) => EventView::Captured(
                match o {
                    Some(b) => Some(b@),
                    None => None,
                },
            ),
            Event::Wrote(w) => EventView::Wrote(*w),
        }
    }
}

/// What the machine asks the driver to do next.
pub enum Effect {
    /// Read a list file; report `Event::Read`.
    ReadFile(ListFile),
    /// Run a command with the terminal's standard streams; report `Event::Ran`.
    RunInteractive(CommandProxy),
    /// Run a command and capture its standard output; report `Event::Captured`.
    RunCaptured(CommandProxy),
    /// Replace a list file with a text; report `Event::Wrote`.
    WriteFile(ListFile, String),
    /// The operation is over, with this outcome.
    Finished(Result<(), PacError>),
}

/// What an effect asks for, as values.
pub enum EffectView {
    ReadFile(ListFile),
    RunInteractive(CommandView),
    RunCaptured(CommandView),
    WriteFile(ListFile, Seq<char>),
    Finished(Result<(), (ErrorKind, Seq<char>)>),
}

impl View for Effect {
    type V = EffectView;

    open spec fn view(&self) -> EffectView {
        match self {
            Effect::ReadFile(f) => EffectView::ReadFile(*f),
            Effect::RunInteractive(c) => EffectView::RunInteractive(c@),
            Effect::RunCaptured(c) => EffectView::RunCaptured(c@),
            Effect::WriteFile(f, t) => EffectView::WriteFile(*f, t@),
            Effect::Finished(r) => EffectView::Finished(
                match r {
                    Ok(()) => Ok(()),
                    Err(e) => Err(e@),
                },
            ),
        }
    }
}

/// Where an operation stands.
enum Stage {
    ReadingPackages,
    Installing,
    Listing,
    /// The installed packages are known.
    ReadingExcluded(Vec<String>),
    Writing,
    Done,
}

/// Where an operation stands, as values.
pub enum StageView {
    ReadingPackages,
    Installing,
    Listing,
    ReadingExcluded(Seq<Seq<char>>),
    Writing,
    Done,
}

/// An operation under way on a package system.
pub struct Session {
    operation: Operation,
    stage: Stage,
}

impl View for Session {
    type V = (Operation, StageView);

    closed spec fn view(&self) -> (Operation, StageView) {
        (
            self.operation,
            match self.stage {
                Stage::ReadingPackages => StageView::ReadingPackages,
                Stage::Installing => StageView::Installing,
                Stage::Listing => StageView::Listing,
                Stage::ReadingExcluded(ws) => StageView::ReadingExcluded(names_of(ws@)),
                Stage::Writing => StageView::Writing,
                Stage::Done => StageView::Done,
            },
        )
    }
}

/// The stage and first effect of an operation.
pub open spec fn start_of(sys: SystemView, op: Operation) -> (StageView, EffectView) {
    match op {
        Operation::Upload => (StageView::Listing, EffectView::RunCaptured(sys.manager.list)),
        _ => (StageView::ReadingPackages, EffectView::ReadFile(ListFile::Packages)),
    }
}

/// The end of an operation that failed.
pub open spec fn failed(kind: ErrorKind, subject: Seq<char>) -> (StageView, EffectView) {
    (StageView::Done, EffectView::Finished(Err((kind, subject))))
}

/// Whether `ev` reports on the effect that stage `st` asked for.
pub open spec fn expects(st: StageView, ev: EventView) -> bool {
    match (st, ev) {
        (StageView::ReadingPackages, EventView::Read(_)) => true,
        (StageView::Installing, EventView::Ran(_)) => true,
        (StageView::Listing, EventView::Captured(_)) => true,
        (StageView::ReadingExcluded(_), EventView::Read(_)) => true,
        (StageView::Writing, EventView::Wrote(_)) => true,
        _ => false,
    }
}

/// The next stage and effect of operation `op` on `sys`, at stage `st`, once
/// `ev` is reported.
pub open spec fn transition(sys: SystemView, op: Operation, st: StageView, ev: EventView) -> (
    StageView,
    EffectView,
) {
    match (st, ev) {
        (StageView::ReadingPackages, EventView::Read(FileView::Text(t))) => (
            StageView::Installing,
            EffectView::RunInteractive(
                CommandView {
                    program: sys.manager.install.program,
                    args: sys.manager.install.args + listed_sequence(t),
                },
            ),
        ),
        (StageView::ReadingPackages, _) => failed(ErrorKind::PackagesFileUnreadable, sys.folder),
        (StageView::Installing, EventView::Ran(RunStatus::Exited(true))) => if op
            == Operation::Sync {
            start_of(sys, Operation::Upload)
        } else {
            (StageView::Done, EffectView::Finished(Ok(())))
        },
        (StageView::Installing, EventView::Ran(RunStatus::Exited(false))) => failed(
            ErrorKind::CommandReturnedError,
            sys.manager.name,
        ),
        (StageView::Installing, _) => failed(ErrorKind::CommandFailedToRun, sys.manager.name),
        (StageView::Listing, EventView::Captured(Some(b))) => if valid_utf8(b) {
            (
                StageView::ReadingExcluded(words(decode_utf8(b))),
                EffectView::ReadFile(ListFile::Excluded),
            )
        } else {
            failed(ErrorKind::InvalidOutputEncoding, sys.manager.name)
        },
        (StageView::Listing, _) => failed(ErrorKind::CommandFailedToRun, sys.manager.name),
        (StageView::ReadingExcluded(ws), EventView::Read(FileView::Text(t))) => (
            StageView::Writing,
            EffectView::WriteFile(ListFile::Packages, render(names_without(ws, listed_names(t)))),
        ),
        (StageView::ReadingExcluded(_), _) => failed(ErrorKind::ExcludedFileUnreadable, sys.folder),
        (StageView::Writing, EventView::Wrote(WriteStatus::Written)) => (
            StageView::Done,
            EffectView::Finished(Ok(())),
        ),
        (StageView::Writing, EventView::Wrote(WriteStatus::CreateFailed)) => failed(
            ErrorKind::FileCreateFailed,
            sys.folder,
        ),
        (StageView::Writing, _) => failed(ErrorKind::WriteFailed, sys.folder),
        (StageView::Done, _) => (StageView::Done, EffectView::Finished(Ok(()))),
    }
}

impl Session {
    /// Whether the operation is over.
    pub fn is_done(&self) -> (r: bool)
        ensures
            r == (self@.1 is Done),
    {
        match self.stage {
            Stage::Done => true,
            _ => false,
        }
    }

    /// Whether `event` reports on the effect that this session asked for.
    pub fn expects(&self, event: &Event) -> (r: bool)
        ensures
            r == expects(self@.1, event@),
    {
        match (&self.stage, event) {
            (Stage::ReadingPackages, Event::Read(_)) => true,
            (Stage::Installing, Event::Ran(_)) => true,
            (Stage::Listing, Event::Captured(_)) => true,
            (Stage::ReadingExcluded(_), Event::Read(_)) => true,
            (Stage::Writing, Event::Wrote(_)) => true,
            _ => false,
        }
    }
}

impl PackageSystem {
    fn fail(&self, kind: ErrorKind, on_manager: bool) -> (r: Effect)
        ensures
            r@ == failed(kind, if on_manager { self@.manager.name } else { self@.folder }).1,
    {
        let subject = if on_manager {
            String::from_str(self.get_package_manager().name.as_str())
        } else {
            String::from_str(self.get_folder().as_str())
        };
        Effect::Finished(Err(PacError::new(kind, subject)))
    }

    /// Begins `operation`: the session and the first effect.
    pub fn start(&self, operation: Operation) -> (r: (Session, Effect))
        ensures
            r.0@.0 == operation,
            (r.0@.1, r.1@) == start_of(self@, operation),
    {
        match operation {
            Operation::Upload => (
                Session { operation, stage: Stage::Listing },
                Effect::RunCaptured(self.get_package_manager().list_command.duplicate()),
            ),
            _ => (
                Session { operation, stage: Stage::ReadingPackages },
                Effect::ReadFile(ListFile::Packages),
            ),
        }
    }

    /// Begins installing the packages of the desired-packages file.
    pub fn install(&self) -> (r: (Session, Effect))
        ensures
            r.0@.0 == Operation::Install,
            (r.0@.1, r.1@) == start_of(self@, Operation::Install),
    {
        self.start(Operation::Install)
    }

    /// Begins recording the installed packages, less the excluded ones, in
    /// the desired-packages file.
    pub fn upload(&self) -> (r: (Session, Effect))
        ensures
            r.0@.0 == Operation::Upload,
            (r.0@.1, r.1@) == start_of(self@, Operation::Upload),
    {
        self.start(Operation::Upload)
    }

    /// Begins an install followed by an upload.
    pub fn sync(&self) -> (r: (Session, Effect))
        ensures
            r.0@.0 == Operation::Sync,
            (r.0@.1, r.1@) == start_of(self@, Operation::Sync),
    {
        self.start(Operation::Sync)
    }

    /// Takes in what the last effect brought and gives the next effect.
    pub fn advance(&self, session: &mut Session, event: Event) -> (r: Effect)
        requires
            expects(old(session)@.1, event@),
        ensures
            final(session)@.0 == old(session)@.0,
            (final(session)@.1, r@) == transition(self@, old(session)@.0, old(session)@.1, event@),
    {
        let op = session.operation;
        let (stage, effect) = match (&session.stage, event) {
            (Stage::ReadingPackages, Event::Read(FileContents::Text(t))) => {
                let names = read_names(t.as_str());
                (
                    Stage::Installing,
                    Effect::RunInteractive(
                        self.get_package_manager().install_command.with_trailing_args(&names),
                    ),
                )
            },
            (Stage::ReadingPackages, _) => (
                Stage::Done,
                self.fail(ErrorKind::PackagesFileUnreadable, false),
            ),
            (Stage::Installing, Event::Ran(RunStatus::Exited(true))) => {
                if op == Operation::Sync {
                    (
                        Stage::Listing,
                        Effect::RunCaptured(self.get_package_manager().list_command.duplicate()),
                    )
                } else {
                    (Stage::Done, Effect::Finished(Ok(())))
                }
            },
            (Stage::Installing, Event::Ran(RunStatus::Exited(false))) => (
                Stage::Done,
                self.fail(ErrorKind::CommandReturnedError, true),
            ),
            (Stage::Installing, _) => (Stage::Done, self.fail(ErrorKind::CommandFailedToRun, true)),
            (Stage::Listing, Event::Captured(Some(bytes))) => match decode_text(bytes) {
                Some(text) => (
                    Stage::ReadingExcluded(split_words(text.as_str())),
                    Effect::ReadFile(ListFile::Excluded),
                ),
                None => (Stage::Done, self.fail(ErrorKind::InvalidOutputEncoding, true)),
            },
            (Stage::Listing, _) => (Stage::Done, self.fail(ErrorKind::CommandFailedToRun, true)),
            (Stage::ReadingExcluded(installed), Event::Read(FileContents::Text(t))) => {
                let excluded = string_set(&read_names(t.as_str()));
                let kept = without(installed, &excluded);
                (Stage::Writing, Effect::WriteFile(ListFile::Packages, render_names(&kept)))
            },
            (Stage::ReadingExcluded(_), _) => (
                Stage::Done,
                self.fail(ErrorKind::ExcludedFileUnreadable, false),
            ),
            (Stage::Writing, Event::Wrote(WriteStatus::Written)) => (
                Stage::Done,
                Effect::Finished(Ok(())),
            ),
            (Stage::Writing, Event::Wrote(WriteStatus::CreateFailed)) => (
                Stage::Done,
                self.fail(ErrorKind::FileCreateFailed, false),
            ),
            (Stage::Writing, _) => (Stage::Done, self.fail(ErrorKind::WriteFailed, false)),
            (Stage::Done, _) => (Stage::Done, Effect::Finished(Ok(()))),
        };
        session.stage = stage;
        effect
    }
}

/// A new text for the excluded-packages file, and the names to warn about.
pub struct ExclusionUpdate {
    pub contents: String,
    pub warnings: Vec<String>,
}

impl PackageSystem {
    /// Excludes `names` from uploads. They join the names of the
    /// excluded-packages file (what reading it found: `excluded`), each name
    /// once. The names that the list command's packages `listed` leave out are
    /// warned about, not refused.
    pub fn exclude(
        &self,
        excluded: FileContents,
        listed: Result<Vec<String>, PacError>,
        names: &Vec<String>,
    ) -> (r: Result<ExclusionUpdate, PacError>)
        ensures
            listed matches Err(e) ==> (r matches Err(f) && f@ == e@),
            listed is Ok && !(excluded@ is Text) ==> (r matches Err(f) && f@ == (
                ErrorKind::ExcludedFileUnreadable,
                self@.folder,
            )),
            listed matches Ok(inst) ==> (excluded@ matches FileView::Text(t) ==> (r matches Ok(u)
                && u.contents@ == render(
                names_without(listed_sequence(t) + names_of(names@), Set::empty()),
            ) && names_of(u.warnings@) == names_without(
                names_of(names@),
                names_of(inst@).to_set(),
            ))),
    {
        let installed = match listed {
            Ok(v) => v,
            Err(e) => {
                return Err(e);
            },
        };
        let text = match excluded {
            FileContents::Text(t) => t,
            _ => {
                return Err(
                    PacError::new(
                        ErrorKind::ExcludedFileUnreadable,
                        String::from_str(self.get_folder().as_str()),
                    ),
                );
            },
        };
        let mut all = read_names(text.as_str());
        let mut more = crate::command::copy_strings(names);
        let ghost a = all@;
        let ghost m = more@;
        all.append(&mut more);
        assert(names_of(all@) =~= names_of(a) + names_of(m));
        let none = vstd::hash_set::StringHashSet::new();
        let contents = render_names(&without(&all, &none));
        let warnings = without(names, &string_set(&installed));
        Ok(ExclusionUpdate { contents, warnings })
    }

    /// Takes `names` out of the excluded-packages file (what reading it found:
    /// `excluded`). The names that were not excluded are warned about, not
    /// refused.
    pub fn reinclude(&self, excluded: FileContents, names: &Vec<String>) -> (r: Result<
        ExclusionUpdate,
        PacError,
    >)
        ensures
            !(excluded@ is Text) ==> (r matches Err(f) && f@ == (
                ErrorKind::ExcludedFileUnreadable,
                self@.folder,
            )),
            excluded@ matches FileView::Text(t) ==> (r matches Ok(u) && u.contents@ == render(
                names_without(listed_sequence(t), names_of(names@).to_set()),
            ) && names_of(u.warnings@) == names_without(names_of(names@), listed_names(t))),
    {
        let text = match excluded {
            FileContents::Text(t) => t,
            _ => {
                return Err(
                    PacError::new(
                        ErrorKind::ExcludedFileUnreadable,
                        String::from_str(self.get_folder().as_str()),
                    ),
                );
            },
        };
        let current = read_names(text.as_str());
        let contents = render_names(&without(&current, &string_set(names)));
        let warnings = without(names, &string_set(&current));
        Ok(ExclusionUpdate { contents, warnings })
    }
}

/// What excluding `names` writes to an excluded-packages file with text `t`
/// holds, read back, exactly the names it held and `names`; what reincluding
/// them writes holds exactly the names it held less `names`. (For files and
/// names of package names, which hold no white space.)
pub proof fn law_exclusion_is_set_union_and_difference(t: Seq<char>, names: Seq<Seq<char>>)
    requires
        forall|i: int| 0 <= i < listed_sequence(t).len() ==> is_name(#[trigger] listed_sequence(t)[i]),
        forall|i: int| 0 <= i < names.len() ==> is_name(#[trigger] names[i]),
    ensures
        listed_names(render(names_without(listed_sequence(t) + names, Set::empty()))) == listed_names(
            t,
        ).union(names.to_set()),
        listed_names(render(names_without(listed_sequence(t), names.to_set()))) == listed_names(
            t,
        ).difference(names.to_set()),
{
    let ls = listed_sequence(t);
    lemma_listed_sequence(t);
    let all = ls + names;
    let keep_all = |w: Seq<char>| !Set::<Seq<char>>::empty().contains(w);
    let merged = names_without(all, Set::empty());
    lemma_collect(all, keep_all);
    assert forall|m: Seq<char>| all.contains(m) <==> ls.contains(m) || names.contains(m) by {
        if all.contains(m) {
            let k = choose|k: int| 0 <= k < all.len() && all[k] == m;
            if k < ls.len() {
                assert(ls[k] == m);
            } else {
                assert(names[k - ls.len()] == m);
            }
        }
        if ls.contains(m) {
            let k = choose|k: int| 0 <= k < ls.len() && ls[k] == m;
            assert(all[k] == m);
        }
        if names.contains(m) {
            let k = choose|k: int| 0 <= k < names.len() && names[k] == m;
            assert(all[ls.len() + k] == m);
        }
    }
    assert forall|i: int| 0 <= i < merged.len() implies is_name(#[trigger] merged[i]) by {
        assert(merged.contains(merged[i]));
        if ls.contains(merged[i]) {
            let k = choose|k: int| 0 <= k < ls.len() && ls[k] == merged[i];
        } else {
            let k = choose|k: int| 0 <= k < names.len() && names[k] == merged[i];
        }
    }
    law_list_file_round_trip(merged);
    assert(merged.to_set() =~= listed_names(t).union(names.to_set()));

    let ex = names.to_set();
    let keep_rest = |w: Seq<char>| !ex.contains(w);
    let rest = names_without(ls, ex);
    lemma_collect(ls, keep_rest);
    assert forall|i: int| 0 <= i < rest.len() implies is_name(#[trigger] rest[i]) by {
        assert(rest.contains(rest[i]));
        let k = choose|k: int| 0 <= k < ls.len() && ls[k] == rest[i];
    }
    law_list_file_round_trip(rest);
    assert(rest.to_set() =~= listed_names(t).difference(ex));
}

/// Installing passes the install command, after its own arguments, exactly
/// the names of the desired-packages file, each once.
pub proof fn law_install_passes_listed_names(sys: SystemView, op: Operation, t: Seq<char>)
    ensures
        ({
            let k = sys.manager.install.args.len() as int;
            let (st, eff) = transition(
                sys,
                op,
                StageView::ReadingPackages,
                EventView::Read(FileView::Text(t)),
            );
            &&& st is Installing
            &&& eff matches EffectView::RunInteractive(c)
            &&& c.program == sys.manager.install.program
            &&& c.args.take(k) == sys.manager.install.args
            &&& c.args.skip(k).no_duplicates()
            &&& c.args.skip(k).to_set() == listed_names(t)
        }),
{
    let k = sys.manager.install.args.len() as int;
    let args = sys.manager.install.args + listed_sequence(t);
    assert(args.take(k) =~= sys.manager.install.args);
    assert(args.skip(k) =~= listed_sequence(t));
    lemma_listed_sequence(t);
}

/// An upload writes to the desired-packages file exactly the installed
/// packages that are not excluded: read back, the file gives that set.
pub proof fn law_upload_writes_installed_minus_excluded(
    sys: SystemView,
    op: Operation,
    output: Seq<u8>,
    excluded: Seq<char>,
)
    requires
        valid_utf8(output),
    ensures
        ({
            let (st1, _) = transition(sys, op, StageView::Listing, EventView::Captured(Some(output)));
            let (st2, eff) = transition(sys, op, st1, EventView::Read(FileView::Text(excluded)));
            &&& st2 is Writing
            &&& eff matches EffectView::WriteFile(f, text)
            &&& f == ListFile::Packages
            &&& listed_names(text) == words(decode_utf8(output)).to_set().difference(
                listed_names(excluded),
            )
        }),
{
    let ws = words(decode_utf8(output));
    let ex = listed_names(excluded);
    let keep = |w: Seq<char>| !ex.contains(w);
    let kept = names_without(ws, ex);
    lemma_words_are_names(decode_utf8(output));
    lemma_collect(ws, keep);
    assert forall|i: int| 0 <= i < kept.len() implies is_name(#[trigger] kept[i]) by {
        assert(kept.contains(kept[i]));
        let j = choose|j: int| 0 <= j < ws.len() && ws[j] == kept[i];
    }
    law_list_file_round_trip(kept);
    assert forall|m: Seq<char>| #[trigger] kept.to_set().contains(m) <==> ws.to_set().difference(
        ex,
    ).contains(m) by {
        assert(kept.contains(m) <==> keep(m) && ws.contains(m));
    }
    assert(kept.to_set() =~= ws.to_set().difference(ex));
}

/// Syncing is installing, then uploading: it starts as an install does, takes
/// each install step as an install does, except that where an install would
/// finish successfully it starts an upload instead; and from there on it steps
/// as an upload does. An install that fails ends the sync with that error, so
/// no upload runs.
pub proof fn law_sync_is_install_then_upload(sys: SystemView, st: StageView, ev: EventView)
    ensures
        start_of(sys, Operation::Sync) == start_of(sys, Operation::Install),
        (st is ReadingPackages || st is Installing) ==> ({
            let by_install = transition(sys, Operation::Install, st, ev);
            transition(sys, Operation::Sync, st, ev) == if by_install.1 == EffectView::Finished(
                Ok(()),
            ) {
                start_of(sys, Operation::Upload)
            } else {
                by_install
            }
        }),
        (st is ReadingPackages || st is Installing) ==> ({
            let by_install = transition(sys, Operation::Install, st, ev);
            by_install.1 matches EffectView::Finished(Err(e)) ==> transition(
                sys,
                Operation::Sync,
                st,
                ev,
            ) == by_install
        }),
        !(st is ReadingPackages || st is Installing) ==> transition(sys, Operation::Sync, st, ev)
            == transition(sys, Operation::Upload, st, ev),
{
}

} // verus!
