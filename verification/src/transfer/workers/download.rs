//! The download of one entry: its place on this machine, the directories above
//! it, and the transfer of a file by way of a temporary one that takes its
//! final name only when it is complete.
use vstd::prelude::*;
use vstd::string::*;

use super::super::helpers::has_wildcard;
use super::super::{download_plan, EntryKind, FileEntry};
use crate::error::{OpError, TransferError};
use crate::number::{decimal, digits_of, to_decimal, to_hex};
use crate::paths::{file_name, file_name_of, join, joined, parent, parent_of};
use crate::server::opt;
use crate::text::{cat2, cat3, cat4};
use crate::util::{Retry, RetryPhase, RetryStep};

verus! {

/// Where an entry goes: below the target where that is a directory, and onto
/// it otherwise.
pub open spec fn place_of(target: Seq<char>, is_dir: bool, rel: Seq<char>) -> Seq<char> {
    if is_dir {
        joined(target, rel)
    } else {
        target
    }
}

/// Finds where an entry goes.
pub fn local_place(target: &str, target_is_dir: bool, rel: &str) -> (r: String)
    ensures
        r@ == place_of(target@, target_is_dir, rel@),
{
    if target_is_dir {
        join(target, rel)
    } else {
        target.to_owned()
    }
}

/// An entry goes below a target that is a directory, under its path below the
/// source, and onto the very path of a target that is a file; and such a target
/// takes neither a pattern nor the content of a directory.
pub proof fn entries_keep_their_paths(
    target: Seq<char>,
    rel: Seq<char>,
    root: Seq<char>,
    concurrency: Option<usize>,
)
    ensures
        place_of(target, true, rel) == joined(target, rel),
        place_of(target, false, rel) == target,
        download_plan(root, false, concurrency) is Ok <==> !has_wildcard(root) && !(root.len() > 0
            && root.last() == '/'),
{
}

/// The name of the file that an entry is written to first: beside its place,
/// with the process, the worker and the time in it.
pub open spec fn temporary(
    place: Seq<char>,
    rel: Seq<char>,
    pid: nat,
    worker: nat,
    stamp: nat,
) -> Seq<char> {
    let dir = match parent_of(place) {
        Some(p) => p,
        None => "."@,
    };
    let name = match file_name_of(rel) {
        Some(n) => n,
        None => rel,
    };
    joined(
        dir,
        name + ".hp.part."@ + decimal(pid) + "."@ + decimal(worker) + ".tmp"@ + "."@ + digits_of(
            stamp,
            16,
        ),
    )
}

/// Writes the name of the file that an entry is written to first.
pub fn temporary_path(place: &str, rel: &str, pid: u32, worker: usize, stamp: u128) -> (r: String)
    ensures
        r@ == temporary(place@, rel@, pid as nat, worker as nat, stamp as nat),
{
    let dir = match parent(place) {
        Some(p) => p,
        None => ".".to_owned(),
    };
    let name = match file_name(rel) {
        Some(n) => n,
        None => rel.to_owned(),
    };
    let with_pid = cat3(name.as_str(), ".hp.part.", to_decimal(pid as u64).as_str());
    let with_worker = cat4(
        with_pid.as_str(),
        ".",
        to_decimal(worker as u64).as_str(),
        ".tmp",
    );
    let full = cat3(with_worker.as_str(), ".", to_hex(stamp).as_str());
    join(dir.as_str(), full.as_str())
}

/// What the download of an entry waits for.
#[derive(Debug, Clone, Copy, PartialEq, Eq, Structural)]
pub enum JobStage {
    /// It has not begun.
    Idle,
    /// What there is above its place.
    Parent,
    /// What there is two levels above its place.
    Grand,
    /// What came of making the directory above it.
    MakeParent,
    /// What there is in the place of a directory.
    DirLook,
    /// What came of making the directory.
    MakeDir,
    /// What came of connecting.
    Connect,
    /// The end of a pause before connecting.
    ConnectWait,
    /// What came of opening the remote file.
    Open,
    /// The end of a pause before opening it.
    OpenWait,
    /// What came of creating the temporary file.
    Create,
    /// What the remote file holds next.
    Read,
    /// What came of writing that.
    Write,
    /// What came of forcing the file to disk.
    Sync,
    /// What came of giving it its final name.
    Rename,
    /// The end of a pause before that.
    RenameWait,
    Over,
}

/// What happened in the download of an entry.
pub enum JobEvent<S = String> {
    /// What there is at a path.
    Seen { found: bool, is_dir: bool },
    Worked,
    Failed(S),
    ConnectFailed(OpError<S>),
    /// There is no channel to open the file on.
    NoChannel,
    /// The file was opened at this time.
    Opened(u128),
    /// Something was read.
    Got,
    /// The file is at its end.
    Ended,
    /// The reader that works ahead has failed.
    ReaderFailed(S),
    /// The reader that works ahead is gone.
    ReaderGone,
    /// The file did not get its name; whether something is in the way.
    RenameFailed { blocked: bool, error: S },
    Waited,
}

impl View for JobEvent<String> {
    type V = JobEvent<Seq<char>>;

    open spec fn view(&self) -> JobEvent<Seq<char>> {
        match self {
            JobEvent::Seen { found, is_dir } => JobEvent::Seen { found: *found, is_dir: *is_dir },
            JobEvent::Worked => JobEvent::Worked,
            JobEvent::Failed(e) => JobEvent::Failed(e@),
            JobEvent::ConnectFailed(e) => JobEvent::ConnectFailed(e@),
            JobEvent::NoChannel => JobEvent::NoChannel,
            JobEvent::Opened(stamp) => JobEvent::Opened(*stamp),
            JobEvent::Got => JobEvent::Got,
            JobEvent::Ended => JobEvent::Ended,
            JobEvent::ReaderFailed(m) => JobEvent::ReaderFailed(m@),
            JobEvent::ReaderGone => JobEvent::ReaderGone,
            JobEvent::RenameFailed { blocked, error } => JobEvent::RenameFailed {
                blocked: *blocked,
                error: error@,
            },
            JobEvent::Waited => JobEvent::Waited,
        }
    }
}

/// What to do next in the download of an entry.
pub enum JobStep<S = String> {
    /// See what there is at a path.
    Look(S),
    MakeDir(S),
    /// Set up a session and a channel, as far as they are missing.
    Connect,
    /// Pause this many milliseconds.
    Wait(u64),
    /// Open a remote file.
    Open(S),
    /// Create a file.
    CreateFile(S),
    Read,
    /// Write what was read.
    Write,
    /// Force the file to disk.
    Sync,
    /// Rename a file.
    Rename(S, S),
    /// Remove what is in the way, and pause a moment.
    ClearTarget(S),
    Over,
}

impl View for JobStep<String> {
    type V = JobStep<Seq<char>>;

    open spec fn view(&self) -> JobStep<Seq<char>> {
        match self {
            JobStep::Look(p) => JobStep::Look(p@),
            JobStep::MakeDir(p) => JobStep::MakeDir(p@),
            JobStep::Connect => JobStep::Connect,
            JobStep::Wait(ms) => JobStep::Wait(*ms),
            JobStep::Open(p) => JobStep::Open(p@),
            JobStep::CreateFile(p) => JobStep::CreateFile(p@),
            JobStep::Read => JobStep::Read,
            JobStep::Write => JobStep::Write,
            JobStep::Sync => JobStep::Sync,
            JobStep::Rename(a, b) => JobStep::Rename(a@, b@),
            JobStep::ClearTarget(p) => JobStep::ClearTarget(p@),
            JobStep::Over => JobStep::Over,
        }
    }
}

/// The pause in milliseconds after something in the way was removed.
pub const CLEAR_PAUSE_MS: u64 = 50;

/// How often something in the way is removed.
pub const MAX_CLEARS: u8 = 2;

/// What a worker drops of its connection.
#[derive(Debug, Clone, Copy, PartialEq, Eq, Structural)]
pub enum Drops {
    Nothing,
    Channel,
    Both,
}

/// What follows from an event.
pub struct Outcome<S = String> {
    /// A temporary file to remove first.
    pub remove: Option<S>,
    /// A failure to report.
    pub report: Option<TransferError<S>>,
    pub drops: Drops,
    pub step: JobStep<S>,
}

/// The view of a failure that may be missing.
pub open spec fn opt_error(e: Option<TransferError>) -> Option<TransferError<Seq<char>>> {
    match e {
        Some(t) => Some(t@),
        None => None,
    }
}

impl View for Outcome<String> {
    type V = Outcome<Seq<char>>;

    open spec fn view(&self) -> Outcome<Seq<char>> {
        Outcome {
            remove: opt(self.remove),
            report: opt_error(self.report),
            drops: self.drops,
            step: self.step@,
        }
    }
}

/// Only a next step.
pub open spec fn just(step: JobStep<Seq<char>>) -> Outcome<Seq<char>> {
    Outcome { remove: None, report: None, drops: Drops::Nothing, step }
}

fn only(step: JobStep) -> (r: Outcome)
    ensures
        r@ == just(step@),
{
    Outcome { remove: None, report: None, drops: Drops::Nothing, step }
}

/// The download of an entry.
pub struct DownloadJob<S = String> {
    pub remote_full: S,
    pub rel: S,
    pub kind: EntryKind,
    /// Where the entry goes.
    pub place: S,
    /// The alias of the server.
    pub alias: S,
    pub pid: u32,
    pub worker: usize,
    pub max_retries: usize,
    pub base_ms: u64,
    pub stage: JobStage,
    /// Whether the place of a directory was found empty.
    pub vacant: bool,
    pub retry: Retry<S>,
    /// The temporary file.
    pub tmp: S,
    /// How often something in the way was removed.
    pub clears: u8,
}

impl View for DownloadJob<String> {
    type V = DownloadJob<Seq<char>>;

    open spec fn view(&self) -> DownloadJob<Seq<char>> {
        DownloadJob {
            remote_full: self.remote_full@,
            rel: self.rel@,
            kind: self.kind,
            place: self.place@,
            alias: self.alias@,
            pid: self.pid,
            worker: self.worker,
            max_retries: self.max_retries,
            base_ms: self.base_ms,
            stage: self.stage,
            vacant: self.vacant,
            retry: self.retry@,
            tmp: self.tmp@,
            clears: self.clears,
        }
    }
}

impl DownloadJob<Seq<char>> {
    /// Whether the stage belongs to an attempt, or to the pause before one.
    pub open spec fn trying(self) -> bool {
        match self.stage {
            JobStage::Connect
            | JobStage::ConnectWait
            | JobStage::Open
            | JobStage::OpenWait
            | JobStage::Create
            | JobStage::Read
            | JobStage::Write
            | JobStage::Sync
            | JobStage::Rename
            | JobStage::RenameWait => true,
            _ => false,
        }
    }

    /// While an attempt is made, one may be made; what is in the way is only
    /// removed so often; and above the place there is something to look at
    /// while that is looked at.
    pub open spec fn wf(self) -> bool {
        &&& self.trying() ==> self.retry.open() && self.retry.max_retries == self.max_retries
        &&& self.clears <= MAX_CLEARS
        &&& self.stage == JobStage::Parent || self.stage == JobStage::Grand || self.stage
            == JobStage::MakeParent ==> parent_of(self.place) is Some
    }

    /// Whether an event is what is waited for.
    pub open spec fn expects(self, event: JobEvent<Seq<char>>) -> bool {
        match event {
            JobEvent::Seen { .. } => self.stage == JobStage::Parent || self.stage
                == JobStage::Grand || self.stage == JobStage::DirLook,
            JobEvent::Worked => self.stage == JobStage::MakeParent || self.stage
                == JobStage::MakeDir || self.stage == JobStage::Connect || self.stage
                == JobStage::Create || self.stage == JobStage::Write || self.stage
                == JobStage::Sync || self.stage == JobStage::Rename,
            JobEvent::Failed(_) => self.stage == JobStage::MakeParent || self.stage
                == JobStage::MakeDir || self.stage == JobStage::Open || self.stage
                == JobStage::Create || self.stage == JobStage::Read || self.stage
                == JobStage::Write || self.stage == JobStage::Sync,
            JobEvent::ConnectFailed(_) => self.stage == JobStage::Connect,
            JobEvent::NoChannel | JobEvent::Opened(_) => self.stage == JobStage::Open,
            JobEvent::Got
            | JobEvent::Ended
            | JobEvent::ReaderFailed(_)
            | JobEvent::ReaderGone => self.stage == JobStage::Read,
            JobEvent::RenameFailed { .. } => self.stage == JobStage::Rename,
            JobEvent::Waited => self.stage == JobStage::ConnectWait || self.stage
                == JobStage::OpenWait || self.stage == JobStage::RenameWait,
        }
    }

    pub open spec fn at(self, stage: JobStage) -> Self {
        DownloadJob { stage, ..self }
    }

    /// The end, with a failure to report.
    pub open spec fn lost(self, e: TransferError<Seq<char>>) -> (Self, Outcome<Seq<char>>) {
        (
            self.at(JobStage::Over),
            Outcome { report: Some(e), ..just(JobStep::Over) },
        )
    }

    /// The end without a failure.
    pub open spec fn done(self) -> (Self, Outcome<Seq<char>>) {
        (self.at(JobStage::Over), just(JobStep::Over))
    }

    /// The look at what is above the place; where there is nothing above it,
    /// the directory counts as there.
    pub open spec fn begin(self) -> (Self, Outcome<Seq<char>>) {
        match parent_of(self.place) {
            Some(p) => (self.at(JobStage::Parent), just(JobStep::Look(p))),
            None => self.parent_there(),
        }
    }

    /// The directory above the place is there.
    pub open spec fn parent_there(self) -> (Self, Outcome<Seq<char>>) {
        if self.kind == EntryKind::Dir {
            if self.vacant {
                (self.at(JobStage::MakeDir), just(JobStep::MakeDir(self.place)))
            } else {
                (self.at(JobStage::DirLook), just(JobStep::Look(self.place)))
            }
        } else {
            let job = DownloadJob { retry: Retry::<Seq<char>>::fresh(self.max_retries), ..self };
            if job.retry.open() {
                (job.at(JobStage::Connect), just(JobStep::Connect))
            } else {
                job.unconnected()
            }
        }
    }

    /// The directory above the place is missing and is not made.
    pub open spec fn parent_missing(self) -> (Self, Outcome<Seq<char>>) {
        self.lost(TransferError::LocalTargetParentMissing(parent_of(self.place)->Some_0))
    }

    /// No attempt to connect is left.
    pub open spec fn unconnected(self) -> (Self, Outcome<Seq<char>>) {
        (
            self.at(JobStage::Over),
            Outcome {
                remove: None,
                report: Some(
                    TransferError::WorkerIo(
                        "pre-transfer failed: "@ + self.remote_full + " — "@
                            + self.retry.error().text(),
                    ),
                ),
                drops: Drops::Both,
                step: JobStep::Over,
            },
        )
    }

    /// An attempt to connect has failed.
    pub open spec fn connect_failed(self, e: OpError<Seq<char>>) -> (Self, Outcome<Seq<char>>) {
        let job = DownloadJob { retry: self.retry.after(e, RetryPhase::PreTransfer), ..self };
        match self.retry.step(e, RetryPhase::PreTransfer, self.base_ms) {
            RetryStep::Wait(ms) => (job.at(JobStage::ConnectWait), just(JobStep::Wait(ms))),
            RetryStep::GiveUp => job.unconnected(),
        }
    }

    /// An attempt to transfer has failed.
    pub open spec fn attempt_failed(self, e: TransferError<Seq<char>>, remove: bool) -> (
        Self,
        Outcome<Seq<char>>,
    ) {
        let error = OpError::Transfer(e);
        let job = DownloadJob {
            retry: self.retry.after(error, RetryPhase::DuringTransfer),
            ..self
        };
        let gone = if remove {
            Some(self.tmp)
        } else {
            None
        };
        match self.retry.step(error, RetryPhase::DuringTransfer, self.base_ms) {
            RetryStep::Wait(ms) => (
                job.at(JobStage::OpenWait),
                Outcome { remove: gone, ..just(JobStep::Wait(ms)) },
            ),
            RetryStep::GiveUp => (
                job.at(JobStage::Over),
                Outcome {
                    remove: gone,
                    report: Some(
                        TransferError::WorkerIo(
                            "download failed: "@ + self.remote_full + " — "@ + error.text(),
                        ),
                    ),
                    drops: Drops::Channel,
                    step: JobStep::Over,
                },
            ),
        }
    }

    pub open spec fn broke(self, what: Seq<char>, e: Seq<char>, remove: bool) -> (
        Self,
        Outcome<Seq<char>>,
    ) {
        self.attempt_failed(TransferError::WorkerIo(what + e), remove)
    }

    /// The state after an event, and what follows from it.
    pub open spec fn next(self, event: JobEvent<Seq<char>>) -> (Self, Outcome<Seq<char>>) {
        match event {
            JobEvent::Seen { found, is_dir } => if self.stage == JobStage::Parent {
                if found {
                    if is_dir {
                        self.parent_there()
                    } else {
                        self.parent_missing()
                    }
                } else {
                    match parent_of(parent_of(self.place)->Some_0) {
                        Some(g) => (self.at(JobStage::Grand), just(JobStep::Look(g))),
                        None => self.parent_missing(),
                    }
                }
            } else if self.stage == JobStage::Grand {
                if found && is_dir {
                    (
                        self.at(JobStage::MakeParent),
                        just(JobStep::MakeDir(parent_of(self.place)->Some_0)),
                    )
                } else {
                    self.parent_missing()
                }
            } else {
                if !found {
                    (DownloadJob { vacant: true, ..self }).begin()
                } else if is_dir {
                    self.done()
                } else {
                    self.lost(TransferError::LocalTargetMustBeDir(self.place))
                }
            },
            JobEvent::Worked => match self.stage {
                JobStage::MakeParent => self.parent_there(),
                JobStage::Connect => (
                    (DownloadJob {
                        retry: Retry::<Seq<char>>::fresh(self.max_retries),
                        ..self
                    }).at(JobStage::Open),
                    just(JobStep::Open(self.remote_full)),
                ),
                JobStage::Create => (self.at(JobStage::Read), just(JobStep::Read)),
                JobStage::Write => (self.at(JobStage::Read), just(JobStep::Read)),
                JobStage::Sync => (
                    (DownloadJob { clears: 0, ..self }).at(JobStage::Rename),
                    just(JobStep::Rename(self.tmp, self.place)),
                ),
                _ => self.done(),
            },
            JobEvent::Failed(e) => match self.stage {
                JobStage::MakeParent => self.lost(
                    TransferError::CreateLocalDirFailed(parent_of(self.place)->Some_0, e),
                ),
                JobStage::MakeDir => self.lost(
                    TransferError::CreateLocalDirFailed(self.place, e),
                ),
                JobStage::Open => self.broke("remote open failed: "@, e, false),
                JobStage::Create => self.broke("local create failed: "@, e, false),
                JobStage::Read => self.broke("remote read failed: "@, e, true),
                JobStage::Write => self.broke("local write failed: "@, e, true),
                _ => self.broke("local sync failed: "@, e, true),
            },
            JobEvent::ConnectFailed(e) => self.connect_failed(e),
            JobEvent::NoChannel => self.attempt_failed(
                TransferError::WorkerNoSftp(self.alias),
                false,
            ),
            JobEvent::Opened(stamp) => {
                let tmp = temporary(
                    self.place,
                    self.rel,
                    self.pid as nat,
                    self.worker as nat,
                    stamp as nat,
                );
                (
                    (DownloadJob { tmp, ..self }).at(JobStage::Create),
                    just(JobStep::CreateFile(tmp)),
                )
            },
            JobEvent::Got => (self.at(JobStage::Write), just(JobStep::Write)),
            JobEvent::Ended => (self.at(JobStage::Sync), just(JobStep::Sync)),
            JobEvent::ReaderFailed(m) => self.attempt_failed(TransferError::WorkerIo(m), true),
            JobEvent::ReaderGone => self.attempt_failed(
                TransferError::WorkerIo("读取通道断开"@),
                true,
            ),
            JobEvent::RenameFailed { blocked, error } => if blocked && self.clears < MAX_CLEARS {
                (
                    (DownloadJob { clears: (self.clears + 1) as u8, ..self }).at(
                        JobStage::RenameWait,
                    ),
                    just(JobStep::ClearTarget(self.place)),
                )
            } else {
                self.broke("rename failed: "@, error, true)
            },
            JobEvent::Waited => match self.stage {
                JobStage::ConnectWait => (self.at(JobStage::Connect), just(JobStep::Connect)),
                JobStage::OpenWait => (
                    self.at(JobStage::Open),
                    just(JobStep::Open(self.remote_full)),
                ),
                _ => (
                    self.at(JobStage::Rename),
                    just(JobStep::Rename(self.tmp, self.place)),
                ),
            },
        }
    }
}

impl DownloadJob {
    /// The download of an entry by a worker. It has not begun.
    pub fn new(
        entry: FileEntry,
        target: &str,
        target_is_dir: bool,
        alias: String,
        pid: u32,
        worker: usize,
        max_retries: usize,
        base_ms: u64,
    ) -> (r: Self)
        ensures
            r@ == (DownloadJob {
                remote_full: entry@.remote_full,
                rel: entry@.rel,
                kind: entry@.kind,
                place: place_of(target@, target_is_dir, entry@.rel),
                alias: alias@,
                pid,
                worker,
                max_retries,
                base_ms,
                stage: JobStage::Idle,
                vacant: false,
                retry: Retry::<Seq<char>>::fresh(max_retries),
                tmp: Seq::empty(),
                clears: 0,
            }),
            r@.wf(),
    {
        let place = local_place(target, target_is_dir, entry.rel.as_str());
        let tmp = String::new();
        proof {
            assert(tmp@ =~= Seq::<char>::empty());
        }
        DownloadJob {
            remote_full: entry.remote_full,
            rel: entry.rel,
            kind: entry.kind,
            place,
            alias,
            pid,
            worker,
            max_retries,
            base_ms,
            stage: JobStage::Idle,
            vacant: false,
            retry: Retry::new(max_retries),
            tmp,
            clears: 0,
        }
    }

    /// The directory above the place.
    fn above(&self) -> (r: String)
        requires
            parent_of(self@.place) is Some,
        ensures
            r@ == parent_of(self@.place)->Some_0,
    {
        match parent(self.place.as_str()) {
            Some(p) => p,
            None => String::new(),
        }
    }

    fn end(&mut self) -> (r: Outcome)
        requires
            old(self)@.wf(),
        ensures
            (final(self)@, r@) == old(self)@.done(),
            final(self)@.wf(),
    {
        self.stage = JobStage::Over;
        only(JobStep::Over)
    }

    fn lose(&mut self, e: TransferError) -> (r: Outcome)
        requires
            old(self)@.wf(),
        ensures
            (final(self)@, r@) == old(self)@.lost(e@),
            final(self)@.wf(),
    {
        self.stage = JobStage::Over;
        Outcome { remove: None, report: Some(e), drops: Drops::Nothing, step: JobStep::Over }
    }

    /// Begins: what is above the place has to be seen first.
    pub fn start(&mut self) -> (r: Outcome)
        requires
            old(self)@.wf(),
            !old(self)@.trying(),
        ensures
            (final(self)@, r@) == old(self)@.begin(),
            final(self)@.wf(),
    {
        match parent(self.place.as_str()) {
            Some(p) => {
                self.stage = JobStage::Parent;
                only(JobStep::Look(p))
            },
            None => self.with_parent(),
        }
    }

    fn with_parent(&mut self) -> (r: Outcome)
        requires
            old(self)@.wf(),
        ensures
            (final(self)@, r@) == old(self)@.parent_there(),
            final(self)@.wf(),
    {
        match self.kind {
            EntryKind::Dir => {
                if self.vacant {
                    self.stage = JobStage::MakeDir;
                    only(JobStep::MakeDir(self.place.clone()))
                } else {
                    self.stage = JobStage::DirLook;
                    only(JobStep::Look(self.place.clone()))
                }
            },
            EntryKind::File => {
                self.stage = JobStage::Idle;
                self.retry = Retry::new(self.max_retries);
                if self.retry.wants_attempt() {
                    self.stage = JobStage::Connect;
                    only(JobStep::Connect)
                } else {
                    self.give_up_connecting()
                }
            },
        }
    }

    fn without_parent(&mut self) -> (r: Outcome)
        requires
            old(self)@.wf(),
            parent_of(old(self)@.place) is Some,
        ensures
            (final(self)@, r@) == old(self)@.parent_missing(),
            final(self)@.wf(),
    {
        let p = self.above();
        self.lose(TransferError::LocalTargetParentMissing(p))
    }

    fn give_up_connecting(&mut self) -> (r: Outcome)
        requires
            old(self)@.clears <= MAX_CLEARS,
        ensures
            (final(self)@, r@) == old(self)@.unconnected(),
            final(self)@.wf(),
    {
        self.stage = JobStage::Over;
        let why = self.last_message();
        Outcome {
            remove: None,
            report: Some(
                TransferError::WorkerIo(
                    cat4("pre-transfer failed: ", self.remote_full.as_str(), " — ", why.as_str()),
                ),
            ),
            drops: Drops::Both,
            step: JobStep::Over,
        }
    }

    fn last_message(&self) -> (r: String)
        ensures
            r@ == self@.retry.error().text(),
    {
        match &self.retry.last {
            Some(e) => e.message(),
            None => TransferError::OperationFailed("operation failed".to_owned()).message(),
        }
    }

    fn retry_connecting(&mut self, e: OpError) -> (r: Outcome)
        requires
            old(self)@.wf(),
            old(self)@.stage == JobStage::Connect,
        ensures
            (final(self)@, r@) == old(self)@.connect_failed(e@),
            final(self)@.wf(),
    {
        self.stage = JobStage::Over;
        match self.retry.fail(e, RetryPhase::PreTransfer, self.base_ms) {
            RetryStep::Wait(ms) => {
                self.stage = JobStage::ConnectWait;
                only(JobStep::Wait(ms))
            },
            RetryStep::GiveUp => self.give_up_connecting(),
        }
    }

    fn fail_attempt(&mut self, e: TransferError, remove: bool) -> (r: Outcome)
        requires
            old(self)@.wf(),
            old(self)@.trying(),
        ensures
            (final(self)@, r@) == old(self)@.attempt_failed(e@, remove),
            final(self)@.wf(),
    {
        let gone = if remove {
            Some(self.tmp.clone())
        } else {
            None
        };
        let why = e.message();
        self.stage = JobStage::Over;
        match self.retry.fail(OpError::Transfer(e), RetryPhase::DuringTransfer, self.base_ms) {
            RetryStep::Wait(ms) => {
                self.stage = JobStage::OpenWait;
                Outcome {
                    remove: gone,
                    report: None,
                    drops: Drops::Nothing,
                    step: JobStep::Wait(ms),
                }
            },
            RetryStep::GiveUp => {
                Outcome {
                    remove: gone,
                    report: Some(
                        TransferError::WorkerIo(
                            cat4(
                                "download failed: ",
                                self.remote_full.as_str(),
                                " — ",
                                why.as_str(),
                            ),
                        ),
                    ),
                    drops: Drops::Channel,
                    step: JobStep::Over,
                }
            },
        }
    }

    fn break_off(&mut self, what: &str, e: String, remove: bool) -> (r: Outcome)
        requires
            old(self)@.wf(),
            old(self)@.trying(),
        ensures
            (final(self)@, r@) == old(self)@.broke(what@, e@, remove),
            final(self)@.wf(),
    {
        self.fail_attempt(TransferError::WorkerIo(cat2(what, e.as_str())), remove)
    }

    /// Takes in what happened, and says what follows from it.
    pub fn advance(&mut self, event: JobEvent) -> (r: Outcome)
        requires
            old(self)@.wf(),
            old(self)@.expects(event@),
        ensures
            (final(self)@, r@) == old(self)@.next(event@),
            final(self)@.wf(),
    {
        match event {
            JobEvent::Seen { found, is_dir } => match self.stage {
                JobStage::Parent => {
                    if found {
                        if is_dir {
                            self.with_parent()
                        } else {
                            self.without_parent()
                        }
                    } else {
                        let p = self.above();
                        match parent(p.as_str()) {
                            Some(g) => {
                                self.stage = JobStage::Grand;
                                only(JobStep::Look(g))
                            },
                            None => self.without_parent(),
                        }
                    }
                },
                JobStage::Grand => {
                    if found && is_dir {
                        let p = self.above();
                        self.stage = JobStage::MakeParent;
                        only(JobStep::MakeDir(p))
                    } else {
                        self.without_parent()
                    }
                },
                _ => {
                    if !found {
                        self.vacant = true;
                        self.start()
                    } else if is_dir {
                        self.end()
                    } else {
                        let p = self.place.clone();
                        self.lose(TransferError::LocalTargetMustBeDir(p))
                    }
                },
            },
            JobEvent::Worked => match self.stage {
                JobStage::MakeParent => self.with_parent(),
                JobStage::Connect => {
                    self.retry = Retry::new(self.max_retries);
                    self.stage = JobStage::Open;
                    only(JobStep::Open(self.remote_full.clone()))
                },
                JobStage::Create => {
                    self.stage = JobStage::Read;
                    only(JobStep::Read)
                },
                JobStage::Write => {
                    self.stage = JobStage::Read;
                    only(JobStep::Read)
                },
                JobStage::Sync => {
                    self.clears = 0;
                    self.stage = JobStage::Rename;
                    only(JobStep::Rename(self.tmp.clone(), self.place.clone()))
                },
                _ => self.end(),
            },
            JobEvent::Failed(e) => match self.stage {
                JobStage::MakeParent => {
                    let p = self.above();
                    self.lose(TransferError::CreateLocalDirFailed(p, e))
                },
                JobStage::MakeDir => {
                    let p = self.place.clone();
                    self.lose(TransferError::CreateLocalDirFailed(p, e))
                },
                JobStage::Open => self.break_off("remote open failed: ", e, false),
                JobStage::Create => self.break_off("local create failed: ", e, false),
                JobStage::Read => self.break_off("remote read failed: ", e, true),
                JobStage::Write => self.break_off("local write failed: ", e, true),
                _ => self.break_off("local sync failed: ", e, true),
            },
            JobEvent::ConnectFailed(e) => self.retry_connecting(e),
            JobEvent::NoChannel => {
                let alias = self.alias.clone();
                self.fail_attempt(TransferError::WorkerNoSftp(alias), false)
            },
            JobEvent::Opened(stamp) => {
                let tmp = temporary_path(
                    self.place.as_str(),
                    self.rel.as_str(),
                    self.pid,
                    self.worker,
                    stamp,
                );
                self.tmp = tmp.clone();
                self.stage = JobStage::Create;
                only(JobStep::CreateFile(tmp))
            },
            JobEvent::Got => {
                self.stage = JobStage::Write;
                only(JobStep::Write)
            },
            JobEvent::Ended => {
                self.stage = JobStage::Sync;
                only(JobStep::Sync)
            },
            JobEvent::ReaderFailed(m) => self.fail_attempt(TransferError::WorkerIo(m), true),
            JobEvent::ReaderGone => self.fail_attempt(
                TransferError::WorkerIo("读取通道断开".to_owned()),
                true,
            ),
            JobEvent::RenameFailed { blocked, error } => {
                if blocked && self.clears < MAX_CLEARS {
                    self.clears = self.clears + 1;
                    self.stage = JobStage::RenameWait;
                    only(JobStep::ClearTarget(self.place.clone()))
                } else {
                    self.break_off("rename failed: ", error, true)
                }
            },
            JobEvent::Waited => match self.stage {
                JobStage::ConnectWait => {
                    self.stage = JobStage::Connect;
                    only(JobStep::Connect)
                },
                JobStage::OpenWait => {
                    self.stage = JobStage::Open;
                    only(JobStep::Open(self.remote_full.clone()))
                },
                _ => {
                    self.stage = JobStage::Rename;
                    only(JobStep::Rename(self.tmp.clone(), self.place.clone()))
                },
            },
        }
    }
}

/// A file gets its final name only after all of it was read, written and
/// forced to disk: a renaming follows on the forcing to disk or on a blocked
/// renaming, and the forcing to disk follows on the end of the remote file.
pub proof fn only_complete_files_get_their_name(
    job: DownloadJob<Seq<char>>,
    event: JobEvent<Seq<char>>,
)
    requires
        job.wf(),
        job.expects(event),
    ensures
        job.next(event).1.step is Rename ==> job.next(event).1.step == JobStep::Rename(
            job.tmp,
            job.place,
        ) && (job.stage == JobStage::Sync && event is Worked || job.stage
            == JobStage::RenameWait),
        job.next(event).1.step is Sync ==> job.stage == JobStage::Read && event is Ended,
        job.next(event).0.stage == JobStage::RenameWait ==> job.stage == JobStage::Rename,
        job.next(event).0.stage == JobStage::Rename <==> job.next(event).1.step is Rename,
        job.next(event).1.step is ClearTarget ==> job.stage == JobStage::Rename,
{
}

/// What was written of a file is removed whenever an attempt fails after the
/// temporary file was created, and never otherwise.
pub proof fn failed_attempts_leave_nothing(
    job: DownloadJob<Seq<char>>,
    event: JobEvent<Seq<char>>,
)
    requires
        job.wf(),
        job.expects(event),
    ensures
        ({
            let written = job.stage == JobStage::Read || job.stage == JobStage::Write || job.stage
                == JobStage::Sync || job.stage == JobStage::Rename;
            let after = job.next(event).0.stage;
            let failed = after == JobStage::OpenWait || job.next(event).1.report is Some;
            job.next(event).1.remove == if written && failed {
                Some(job.tmp)
            } else {
                None
            }
        }),
{
}

/// An entry reports a failure at its end only, so at most one, and a file that
/// got its name reports none.
pub proof fn one_report_for_each_entry(job: DownloadJob<Seq<char>>, event: JobEvent<Seq<char>>)
    requires
        job.wf(),
        job.expects(event),
    ensures
        job.next(event).1.report is Some ==> job.next(event).0.stage == JobStage::Over,
        job.next(event).1.step is Over <==> job.next(event).0.stage == JobStage::Over,
        job.stage == JobStage::Rename && event is Worked ==> job.next(event).0.stage
            == JobStage::Over && job.next(event).1.report is None,
        job.next(event).0.stage == JobStage::Over ==> forall|later: JobEvent<Seq<char>>|
            !#[trigger] job.next(event).0.expects(later),
{
}

/// Only a single missing level above the place of an entry is made, and only
/// where there is a directory above that.
pub proof fn one_level_is_made(job: DownloadJob<Seq<char>>, event: JobEvent<Seq<char>>)
    requires
        job.wf(),
        job.expects(event),
        job.stage == JobStage::Parent || job.stage == JobStage::Grand,
    ensures
        job.next(event).0.stage == JobStage::MakeParent ==> job.stage == JobStage::Grand
            && event == (JobEvent::<Seq<char>>::Seen { found: true, is_dir: true }),
{
}

/// What is downloaded, and where to, stays what it was: no event changes the
/// remote file, its path below the source, its kind or its place, nor who
/// downloads it and how often that is tried.
pub proof fn jobs_keep_their_entry(job: DownloadJob<Seq<char>>, event: JobEvent<Seq<char>>)
    requires
        job.wf(),
        job.expects(event),
    ensures
        ({
            let after = job.next(event).0;
            &&& after.remote_full == job.remote_full
            &&& after.rel == job.rel
            &&& after.kind == job.kind
            &&& after.place == job.place
            &&& after.alias == job.alias
            &&& after.pid == job.pid
            &&& after.worker == job.worker
            &&& after.max_retries == job.max_retries
            &&& after.base_ms == job.base_ms
            &&& !(event is Opened) ==> after.tmp == job.tmp
            &&& after.wf()
        }),
{
}

/// Every attempt does what the first did: whatever the stage and the event, the
/// remote file that is opened is that of the entry, and it is opened when the
/// connection is there and after every pause.
pub proof fn every_attempt_opens_the_remote_file(
    job: DownloadJob<Seq<char>>,
    event: JobEvent<Seq<char>>,
)
    requires
        job.wf(),
        job.expects(event),
    ensures
        job.next(event).1.step matches JobStep::Open(p) ==> p == job.remote_full,
        job.next(event).1.step is Open <==> job.stage == JobStage::Connect && event is Worked
            || job.stage == JobStage::OpenWait,
        job.next(event).0.stage == JobStage::Open <==> job.next(event).1.step is Open,
        job.next(event).1.step is Connect <==> job.next(event).0.stage == JobStage::Connect,
        job.stage == JobStage::ConnectWait ==> job.next(event).1.step is Connect,
{
}

/// Every path that a download touches on this machine is that of the entry: it
/// creates and removes its temporary file, gives it the name of its place,
/// clears that place, and looks at and makes directories at it or above it.
pub proof fn jobs_touch_their_own_files_only(
    job: DownloadJob<Seq<char>>,
    event: JobEvent<Seq<char>>,
)
    requires
        job.wf(),
        job.expects(event),
    ensures
        ({
            let after = job.next(event);
            let above = parent_of(job.place);
            &&& after.1.step matches JobStep::CreateFile(p) ==> p == after.0.tmp
                && event is Opened && p == temporary(
                job.place,
                job.rel,
                job.pid as nat,
                job.worker as nat,
                event->Opened_0 as nat,
            )
            &&& after.1.step matches JobStep::Rename(from, to) ==> from == job.tmp && to
                == job.place
            &&& after.1.step matches JobStep::ClearTarget(p) ==> p == job.place
            &&& after.1.remove matches Some(p) ==> p == job.tmp
            &&& after.1.step matches JobStep::MakeDir(p) ==> p == job.place && job.kind
                == EntryKind::Dir || above == Some(p)
            &&& after.1.step matches JobStep::Look(p) ==> p == job.place && job.kind
                == EntryKind::Dir || above == Some(p) || above is Some && parent_of(
                above->Some_0,
            ) == Some(p)
        }),
{
}

/// What is read is written before more is read, and the file is forced to disk
/// when the remote file is at its end.
pub proof fn what_is_read_is_written(job: DownloadJob<Seq<char>>, event: JobEvent<Seq<char>>)
    requires
        job.wf(),
        job.expects(event),
    ensures
        job.next(event).1.step is Write <==> job.stage == JobStage::Read && event is Got,
        job.next(event).1.step is Read <==> event is Worked && (job.stage == JobStage::Create
            || job.stage == JobStage::Write),
        job.next(event).1.step is Sync <==> job.stage == JobStage::Read && event is Ended,
        job.next(event).0.stage == JobStage::Write <==> job.next(event).1.step is Write,
        job.next(event).0.stage == JobStage::Read <==> job.next(event).1.step is Read,
        job.next(event).0.stage == JobStage::Sync <==> job.next(event).1.step is Sync,
        job.stage == JobStage::Sync && event is Worked ==> job.next(event).1.step is Rename,
        job.stage == JobStage::RenameWait ==> job.next(event).1.step is Rename,
        job.stage == JobStage::Open && event is Opened ==> job.next(event).1.step is CreateFile,
{
}

/// After the `k`-th failed attempt the pause is `k` times the base, as long as
/// attempts are left and the error is worth another; else the entry is given
/// up. The attempts to transfer are counted from the connection on.
pub proof fn failed_attempts_are_repeated(job: DownloadJob<Seq<char>>, event: JobEvent<Seq<char>>)
    requires
        job.wf(),
        job.expects(event),
        job.stage == JobStage::Open || job.stage == JobStage::Create || job.stage == JobStage::Read
            || job.stage == JobStage::Write || job.stage == JobStage::Sync,
        event is Failed || event is ReaderFailed || event is ReaderGone || event is NoChannel,
    ensures
        ({
            let after = job.next(event);
            let left = job.retry.failed + 1 < job.max_retries;
            &&& after.0.retry.failed == job.retry.failed + 1
            &&& left ==> after.0.stage == JobStage::OpenWait && after.1.report is None
            &&& left && job.base_ms * (job.retry.failed + 1) <= u64::MAX ==> after.1.step
                == JobStep::<Seq<char>>::Wait((job.base_ms * (job.retry.failed + 1)) as u64)
            &&& !left ==> after.1.step is Over && after.1.report is Some
        }),
        job.stage == JobStage::Connect ==> job.next(JobEvent::Worked).0.retry.failed == 0,
{
    assert(job.base_ms as nat * (job.retry.failed + 1) as nat == job.base_ms * (job.retry.failed
        + 1));
}

/// Failed attempts to connect are repeated in the same way, where the error is
/// worth it, and end with a report that names the remote file.
pub proof fn failed_connections_are_repeated(job: DownloadJob<Seq<char>>, e: OpError<Seq<char>>)
    requires
        job.wf(),
        job.stage == JobStage::Connect,
    ensures
        ({
            let after = job.next(JobEvent::ConnectFailed(e));
            let again = crate::util::worth_retrying(e, RetryPhase::PreTransfer)
                && job.retry.failed + 1 < job.max_retries;
            &&& again ==> after.0.stage == JobStage::ConnectWait && after.1.report is None
                && after.1.step is Wait
            &&& again && job.base_ms * (job.retry.failed + 1) <= u64::MAX ==> after.1.step
                == JobStep::<Seq<char>>::Wait((job.base_ms * (job.retry.failed + 1)) as u64)
            &&& !again ==> after.1.step is Over && after.1.drops == Drops::Both
            &&& !again ==> (after.1.report matches Some(r) && r is WorkerIo
                && crate::text::has_part(r->WorkerIo_0, job.remote_full)
                && crate::text::has_part(r->WorkerIo_0, e.text()))
        }),
{
    assert(job.base_ms as nat * (job.retry.failed + 1) as nat == job.base_ms * (job.retry.failed
        + 1));
    let m = "pre-transfer failed: "@ + job.remote_full + " — "@ + e.text();
    let at = "pre-transfer failed: "@.len() as int;
    assert(m.subrange(at, at + job.remote_full.len()) =~= job.remote_full);
    let k = m.len() - e.text().len();
    assert(m.subrange(k, k + e.text().len()) =~= e.text());
}

/// The report of a file that could not be downloaded names the remote file and
/// what went wrong.
pub proof fn reports_name_the_remote_file(job: DownloadJob<Seq<char>>, message: Seq<char>)
    requires
        job.wf(),
        job.retry.failed + 1 >= job.max_retries,
        job.stage == JobStage::Open || job.stage == JobStage::Create || job.stage == JobStage::Read
            || job.stage == JobStage::Write || job.stage == JobStage::Sync,
    ensures
        job.next(JobEvent::Failed(message)).1.report matches Some(r) && r is WorkerIo
            && crate::text::has_part(r->WorkerIo_0, job.remote_full) && crate::text::has_part(
            r->WorkerIo_0,
            message,
        ),
{
    let r = job.next(JobEvent::Failed(message)).1.report->Some_0->WorkerIo_0;
    let at = "download failed: "@.len() as int;
    assert(r.subrange(at, at + job.remote_full.len()) =~= job.remote_full);
    let k = r.len() - message.len();
    assert(r.subrange(k, k + message.len()) =~= message);
}

/// The directory above an entry is looked at first, and where it is there the
/// entry itself is seen to: a file over a connection, a directory by a look at
/// its place. Where it is missing, and so is what is above, the entry is lost,
/// and what is missing is named.
pub proof fn directories_above_come_first(job: DownloadJob<Seq<char>>, is_dir: bool)
    requires
        job.wf(),
        parent_of(job.place) is Some,
    ensures
        job.begin().1.step == JobStep::Look(parent_of(job.place)->Some_0),
        job.begin().0.stage == JobStage::Parent,
        job.stage == JobStage::Parent ==> {
            let there = job.next(JobEvent::Seen { found: true, is_dir: true });
            let taken = job.next(JobEvent::Seen { found: true, is_dir: false });
            let gone = job.next(JobEvent::Seen { found: false, is_dir });
            &&& job.kind == EntryKind::File && job.max_retries > 0 ==> there.1.step is Connect
            &&& job.kind == EntryKind::Dir && !job.vacant ==> there.1.step == JobStep::Look(
                job.place,
            )
            &&& job.kind == EntryKind::Dir && job.vacant ==> there.1.step == JobStep::MakeDir(
                job.place,
            )
            &&& taken.1.report == Some(
                TransferError::LocalTargetParentMissing(parent_of(job.place)->Some_0),
            )
            &&& parent_of(parent_of(job.place)->Some_0) matches Some(g) ==> gone.1.step
                == JobStep::Look(g)
        },
        job.stage == JobStage::Grand ==> {
            let there = job.next(JobEvent::Seen { found: true, is_dir: true });
            let gone = job.next(JobEvent::Seen { found: false, is_dir });
            &&& there.1.step == JobStep::MakeDir(parent_of(job.place)->Some_0)
            &&& gone.1.report == Some(
                TransferError::LocalTargetParentMissing(parent_of(job.place)->Some_0),
            )
        },
        job.stage == JobStage::MakeParent && job.kind == EntryKind::File && job.max_retries > 0
            ==> job.next(JobEvent::Worked).1.step is Connect,
        job.stage == JobStage::DirLook ==> {
            let there = job.next(JobEvent::Seen { found: true, is_dir: true });
            let taken = job.next(JobEvent::Seen { found: true, is_dir: false });
            let gone = job.next(JobEvent::Seen { found: false, is_dir });
            &&& there.1.step is Over && there.1.report is None
            &&& taken.1.report == Some(TransferError::LocalTargetMustBeDir(job.place))
            &&& gone.0.vacant
        },
        job.stage == JobStage::MakeDir ==> job.next(JobEvent::Worked).1.step is Over && job.next(
            JobEvent::Worked,
        ).1.report is None,
{
}

/// The temporary file lies in the directory of the place, beside it and under
/// another name, which starts with the name of the file.
#[verifier::spinoff_prover]
#[verifier::rlimit(50)]
pub proof fn temporary_file_is_beside_the_place(
    dir: Seq<char>,
    name: Seq<char>,
    above: Seq<char>,
    pid: nat,
    worker: nat,
    stamp: nat,
)
    requires
        dir.len() > 0,
        dir.last() != '/',
        crate::paths::bare(dir) == dir,
        above.len() > 0,
        above.last() != '/',
        crate::paths::bare(above) == above,
        crate::paths::is_step_down(name),
        !name.contains('/'),
    ensures
        ({
            let tmp = temporary(joined(dir, name), joined(above, name), pid, worker, stamp);
            &&& tmp.len() > dir.len() + 1 + name.len()
            &&& tmp.take((dir.len() + 1 + name.len()) as int) == dir + seq!['/'] + name
            &&& tmp != joined(dir, name)
            &&& forall|i: int| dir.len() < i < tmp.len() ==> #[trigger] tmp[i] != '/'
            &&& crate::text::has_part(tmp, ".hp.part."@ + decimal(pid) + "."@ + decimal(worker))
            &&& crate::text::has_part(tmp, digits_of(stamp, 16))
        }),
{
    crate::paths::join_then_split(dir, name);
    crate::paths::join_then_split(above, name);
    let place = joined(dir, name);
    let mark = ".hp.part."@ + decimal(pid) + "."@ + decimal(worker);
    let hex = digits_of(stamp, 16);
    let full = name + ".hp.part."@ + decimal(pid) + "."@ + decimal(worker) + ".tmp"@ + "."@ + hex;
    reveal_strlit(".hp.part.");
    reveal_strlit(".");
    reveal_strlit(".tmp");
    assert(full =~= name + mark + ".tmp."@.take(0) + ".tmp"@ + "."@ + hex) by {
        assert(".tmp."@.take(0) =~= Seq::<char>::empty());
    }
    assert(name[0] != '/') by {
        if name[0] == '/' {
            assert(name.contains(name[0]));
        }
    }
    assert(full[0] == name[0]);
    let tmp = temporary(place, joined(above, name), pid, worker, stamp);
    assert(tmp == dir + seq!['/'] + full);
    assert(tmp.take((dir.len() + 1 + name.len()) as int) =~= dir + seq!['/'] + name);
    let at = (dir.len() + 1 + name.len()) as int;
    assert(tmp.subrange(at, at + mark.len()) =~= mark);
    let k = tmp.len() - hex.len();
    assert(tmp.subrange(k, k + hex.len()) =~= hex);
    assert(tmp.len() > joined(dir, name).len());
    crate::number::decimal_is_digits(pid);
    crate::number::decimal_is_digits(worker);
    crate::number::hex_holds_no_slash(stamp);
    assert forall|i: int| dir.len() < i < tmp.len() implies #[trigger] tmp[i] != '/' by {
        let k = i - dir.len() - 1;
        assert(tmp[i] == full[k]);
        let n = name.len() as int;
        let p = decimal(pid).len() as int;
        let w = decimal(worker).len() as int;
        if k < n {
            assert(name.contains(name[k]));
        } else if k < n + 9 {
            assert(full[k] == ".hp.part."@[k - n]);
        } else if k < n + 9 + p {
            assert(full[k] == decimal(pid)[k - n - 9]);
            assert(crate::number::is_digit(full[k]));
        } else if k < n + 9 + p + 1 {
            assert(full[k] == "."@[0]);
        } else if k < n + 9 + p + 1 + w {
            assert(full[k] == decimal(worker)[k - n - 9 - p - 1]);
            assert(crate::number::is_digit(full[k]));
        } else if k < n + 9 + p + 1 + w + 4 {
            assert(full[k] == ".tmp"@[k - n - 9 - p - 1 - w]);
        } else if k < n + 9 + p + 1 + w + 5 {
            assert(full[k] == "."@[0]);
        } else {
            assert(full[k] == hex[k - n - 9 - p - 1 - w - 5]);
        }
    }
}

/// Connecting and transferring have all attempts each: both start with none of
/// them used up.
pub proof fn each_part_has_all_attempts(job: DownloadJob<Seq<char>>, event: JobEvent<Seq<char>>)
    requires
        job.wf(),
        job.expects(event),
    ensures
        ({
            let (after, out) = job.next(event);
            &&& event is Worked && job.stage == JobStage::Connect ==> after.retry.failed == 0
                && after.retry.max_retries == job.max_retries && !after.retry.over
            &&& after.stage == JobStage::Connect && job.stage != JobStage::ConnectWait
                ==> after.retry.failed == 0 && after.retry.max_retries == job.max_retries
                && !after.retry.over
            &&& after.stage == JobStage::Open && event is Waited ==> after.retry == job.retry
        }),
{
}

/// Something in the way of the new file is removed up to twice, with a pause
/// and another try each time; the count starts anew with every complete file.
/// Any other refusal of the name fails the attempt.
pub proof fn blocked_names_are_cleared_twice(
    job: DownloadJob<Seq<char>>,
    blocked: bool,
    error: Seq<char>,
)
    requires
        job.wf(),
    ensures
        job.stage == JobStage::Rename ==> ({
            let (after, out) = job.next(JobEvent::RenameFailed { blocked, error });
            &&& blocked && job.clears < 2 ==> after.clears == job.clears + 1 && out.step
                == JobStep::ClearTarget(job.place) && after.stage == JobStage::RenameWait
                && after.retry == job.retry && after.tmp == job.tmp
            &&& !blocked || job.clears == 2 ==> !(out.step is ClearTarget) && after.retry.failed
                == job.retry.failed + 1 && out.remove == Some(job.tmp)
        }),
        job.stage == JobStage::Sync ==> job.next(JobEvent::Worked).0.clears == 0,
        job.stage == JobStage::RenameWait ==> job.next(JobEvent::Waited).1.step
            == JobStep::Rename(job.tmp, job.place),
{
}

/// What a job drops of the connection: both parts where it could not connect,
/// the channel where a transfer was given up, and nothing else.
pub proof fn failed_transfers_drop_the_channel(
    job: DownloadJob<Seq<char>>,
    event: JobEvent<Seq<char>>,
)
    requires
        job.wf(),
        job.expects(event),
        job.stage == JobStage::Open || job.stage == JobStage::Create || job.stage == JobStage::Read
            || job.stage == JobStage::Write || job.stage == JobStage::Sync || job.stage
            == JobStage::Rename || job.stage == JobStage::OpenWait || job.stage
            == JobStage::RenameWait,
    ensures
        job.next(event).1.drops == Drops::Channel <==> job.next(event).1.report is Some,
        job.next(event).1.drops == Drops::Nothing <==> job.next(event).1.report is None,
{
}

/// The temporary file is named after the entry, wherever that goes: a file that
/// gets another name on this machine is still read under its own.
pub proof fn temporary_file_is_named_after_the_entry(
    dir: Seq<char>,
    name: Seq<char>,
    above: Seq<char>,
    entry: Seq<char>,
    pid: nat,
    worker: nat,
    stamp: nat,
)
    requires
        dir.len() > 0,
        dir.last() != '/',
        crate::paths::bare(dir) == dir,
        above.len() > 0,
        above.last() != '/',
        crate::paths::bare(above) == above,
        crate::paths::is_step_down(name),
        !name.contains('/'),
        crate::paths::is_step_down(entry),
        !entry.contains('/'),
    ensures
        ({
            let tmp = temporary(joined(dir, name), joined(above, entry), pid, worker, stamp);
            &&& tmp.len() > dir.len() + 1 + entry.len()
            &&& tmp.take((dir.len() + 1 + entry.len()) as int) == dir + seq!['/'] + entry
        }),
{
    crate::paths::join_then_split(dir, name);
    crate::paths::join_then_split(above, entry);
    assert(entry[0] != '/') by {
        assert(entry.contains(entry[0]));
    }
    reveal_strlit(".hp.part.");
    let rest = ".hp.part."@ + decimal(pid) + "."@ + decimal(worker) + ".tmp"@ + "."@ + digits_of(
        stamp,
        16,
    );
    let full = entry + ".hp.part."@ + decimal(pid) + "."@ + decimal(worker) + ".tmp"@ + "."@
        + digits_of(stamp, 16);
    assert(full =~= entry + rest);
    assert(full[0] == entry[0]);
    let tmp = temporary(joined(dir, name), joined(above, entry), pid, worker, stamp);
    assert(tmp == dir + seq!['/'] + full);
    assert(tmp.take((dir.len() + 1 + entry.len()) as int) =~= dir + seq!['/'] + entry);
}

/// A job starts at the directory above its place. Where there is none above, it
/// goes on at once: a directory is made or looked for, and a file is connected
/// for.
pub proof fn jobs_start_at_the_directory_above(job: DownloadJob<Seq<char>>)
    requires
        job.max_retries > 0,
    ensures
        parent_of(job.place) matches Some(p) ==> job.begin().1.step == JobStep::Look(p)
            && job.begin().0.stage == JobStage::Parent,
        parent_of(job.place) is None && job.kind == EntryKind::File ==> job.begin().1.step
            is Connect,
        parent_of(job.place) is None && job.kind == EntryKind::Dir ==> job.begin().1.step
            == if job.vacant {
            JobStep::MakeDir(job.place)
        } else {
            JobStep::Look(job.place)
        },
        job.begin().1.report is None,
        job.begin().1.remove is None,
        job.begin().1.drops == Drops::Nothing,
{
}

} // verus!
