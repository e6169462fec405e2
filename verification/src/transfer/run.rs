//! The course of a transfer up to the start of its workers: connecting, the
//! sources, the target, and the plan.
use vstd::prelude::*;
use vstd::string::*;

use super::helpers::{has_glob, has_wildcard};
use super::session::{connect_error, connect_session, expand_remote_tilde, expanded, ConnectFailure};
use super::{
    checked_request, download_plan, find_local_target, find_route, fits_queue, handle_ts,
    local_parent_seen, local_target, local_target_created, local_target_step, plan_download,
    plan_upload, prepare_local_target, prepare_remote_target, remote_parent_seen,
    remote_target_created, remote_target_step, route_to, upload_plan, Direction, HandleTsArgs,
    Route, Sizes, TargetStep,
};
use crate::error::{OpError, TransferError};
use crate::server::{Hosts, ServerCollection};
use crate::text::{cat2, ends_with_char, texts};

verus! {

/// What a transfer waits for.
#[derive(Debug, Clone, Copy, PartialEq, Eq, Structural)]
pub enum TsStage {
    /// What came of connecting.
    Connect,
    /// The home directory on the server.
    Home,
    /// The entries of the local sources.
    Enumerate,
    /// What came of opening a channel.
    Channel,
    /// What there is at the target.
    Look,
    /// What there is above the target.
    Parent,
    /// What came of making the target.
    Make,
    Over,
}

/// What happened in a transfer.
pub enum TsEvent<S = String> {
    Connected,
    ConnectFailed(ConnectFailure<S>),
    ChannelFailed,
    HomePrinted(S),
    HomeFailed(S),
    /// The local sources have this many entries of this size in all; whether
    /// the first is a file.
    Enumerated { entries: usize, lone_file: bool, total_size: u64 },
    EnumerateFailed(OpError<S>),
    /// What there is at a path.
    Seen { found: bool, is_dir: bool },
    Made,
    MakeFailed(S),
}

impl View for TsEvent<String> {
    type V = TsEvent<Seq<char>>;

    open spec fn view(&self) -> TsEvent<Seq<char>> {
        match self {
            TsEvent::Connected => TsEvent::Connected,
            TsEvent::ConnectFailed(f) => TsEvent::ConnectFailed(f@),
            TsEvent::ChannelFailed => TsEvent::ChannelFailed,
            TsEvent::HomePrinted(t) => TsEvent::HomePrinted(t@),
            TsEvent::HomeFailed(e) => TsEvent::HomeFailed(e@),
            TsEvent::Enumerated { entries, lone_file, total_size } => TsEvent::Enumerated {
                entries: *entries,
                lone_file: *lone_file,
                total_size: *total_size,
            },
            TsEvent::EnumerateFailed(e) => TsEvent::EnumerateFailed(e@),
            TsEvent::Seen { found, is_dir } => TsEvent::Seen { found: *found, is_dir: *is_dir },
            TsEvent::Made => TsEvent::Made,
            TsEvent::MakeFailed(e) => TsEvent::MakeFailed(e@),
        }
    }
}

/// What to do next in a transfer.
pub enum TsStep<S = String> {
    /// Connect to an address.
    Connect(S),
    /// Let the server print its home directory.
    PrintHome,
    /// Find the entries of the local sources.
    Enumerate,
    /// Connect to an address once more, and open a channel.
    OpenChannel(S),
    /// See what there is at a path, on the side of the target.
    Look(S),
    /// Make a directory, on the side of the target.
    MakeDir(S),
    /// Start the workers of an upload to a path on the server.
    Upload { base: S, is_dir: bool, sizes: Sizes },
    /// Start the workers of a download from a path on the server.
    Download { root: S, target: S, is_dir: bool, sizes: Sizes },
    Fail(OpError<S>),
}

impl View for TsStep<String> {
    type V = TsStep<Seq<char>>;

    open spec fn view(&self) -> TsStep<Seq<char>> {
        match self {
            TsStep::Connect(a) => TsStep::Connect(a@),
            TsStep::PrintHome => TsStep::PrintHome,
            TsStep::Enumerate => TsStep::Enumerate,
            TsStep::OpenChannel(a) => TsStep::OpenChannel(a@),
            TsStep::Look(p) => TsStep::Look(p@),
            TsStep::MakeDir(p) => TsStep::MakeDir(p@),
            TsStep::Upload { base, is_dir, sizes } => TsStep::Upload {
                base: base@,
                is_dir: *is_dir,
                sizes: *sizes,
            },
            TsStep::Download { root, target, is_dir, sizes } => TsStep::Download {
                root: root@,
                target: target@,
                is_dir: *is_dir,
                sizes: *sizes,
            },
            TsStep::Fail(e) => TsStep::Fail(e@),
        }
    }
}

/// A transfer.
pub struct TsRun<S = String> {
    pub direction: Direction,
    pub concurrency: Option<usize>,
    pub route: Route<S>,
    /// The local target of a download.
    pub target: S,
    /// The path on the server, once its home is known.
    pub root: S,
    pub entries: usize,
    pub lone_file: bool,
    pub total_size: u64,
    /// The directory above the target, while that is looked at.
    pub parent: S,
    /// Whether the target is a directory, once it is ready.
    pub is_dir: bool,
    pub stage: TsStage,
}

impl View for TsRun<String> {
    type V = TsRun<Seq<char>>;

    open spec fn view(&self) -> TsRun<Seq<char>> {
        TsRun {
            direction: self.direction,
            concurrency: self.concurrency,
            route: self.route@,
            target: self.target@,
            root: self.root@,
            entries: self.entries,
            lone_file: self.lone_file,
            total_size: self.total_size,
            parent: self.parent@,
            is_dir: self.is_dir,
            stage: self.stage,
        }
    }
}

/// Whether a path has a slash at its end.
pub open spec fn slashed(p: Seq<char>) -> bool {
    p.len() > 0 && p.last() == '/'
}

impl TsRun<Seq<char>> {
    /// The numbers are such that the plan can be made, only an upload has local
    /// sources, and a download that opens its channel has its plan.
    pub open spec fn wf(self) -> bool {
        &&& self.entries < usize::MAX
        &&& self.direction == Direction::Download ==> fits_queue(self.concurrency)
        &&& self.stage == TsStage::Enumerate ==> self.direction == Direction::Upload
        &&& self.direction == Direction::Download && self.stage == TsStage::Channel
            ==> download_plan(self.root, self.is_dir, self.concurrency) is Ok
    }

    pub open spec fn expects(self, event: TsEvent<Seq<char>>) -> bool {
        match event {
            TsEvent::Connected | TsEvent::ConnectFailed(_) => self.stage == TsStage::Connect
                || self.stage == TsStage::Channel,
            TsEvent::ChannelFailed => self.stage == TsStage::Channel,
            TsEvent::HomePrinted(_) | TsEvent::HomeFailed(_) => self.stage == TsStage::Home,
            TsEvent::Enumerated { entries, .. } => self.stage == TsStage::Enumerate && entries
                < usize::MAX,
            TsEvent::EnumerateFailed(_) => self.stage == TsStage::Enumerate,
            TsEvent::Seen { .. } => self.stage == TsStage::Look || self.stage == TsStage::Parent,
            TsEvent::Made | TsEvent::MakeFailed(_) => self.stage == TsStage::Make,
        }
    }

    pub open spec fn at(self, stage: TsStage) -> Self {
        TsRun { stage, ..self }
    }

    pub open spec fn lost(self, e: OpError<Seq<char>>) -> (Self, TsStep<Seq<char>>) {
        (self.at(TsStage::Over), TsStep::Fail(e))
    }

    /// The path of the target on its side.
    pub open spec fn place(self) -> Seq<char> {
        match self.direction {
            Direction::Upload => self.root,
            Direction::Download => self.target,
        }
    }

    /// What a decision about the target leads to.
    pub open spec fn follow(self, step: TargetStep<Seq<char>>) -> (Self, TsStep<Seq<char>>) {
        match step {
            TargetStep::Ready(is_dir) => self.ready(is_dir),
            TargetStep::LookAtParent(p) => (
                (TsRun { parent: p, ..self }).at(TsStage::Parent),
                TsStep::Look(p),
            ),
            TargetStep::Create => (self.at(TsStage::Make), TsStep::MakeDir(self.place())),
            TargetStep::Fail(e) => self.lost(OpError::Transfer(e)),
        }
    }

    /// The target is ready. An upload starts; a download needs a channel.
    pub open spec fn ready(self, is_dir: bool) -> (Self, TsStep<Seq<char>>) {
        let run = TsRun { is_dir, ..self };
        match self.direction {
            Direction::Upload => match upload_plan(
                self.root,
                is_dir,
                self.entries as nat,
                self.lone_file,
                self.total_size as nat,
                self.concurrency,
            ) {
                Ok(sizes) => (
                    run.at(TsStage::Over),
                    TsStep::Upload { base: self.root, is_dir, sizes },
                ),
                Err(e) => run.lost(OpError::Transfer(e)),
            },
            Direction::Download => match download_plan(self.root, is_dir, self.concurrency) {
                Ok(_) => (run.at(TsStage::Channel), TsStep::OpenChannel(self.route.addr)),
                Err(e) => run.lost(OpError::Transfer(e)),
            },
        }
    }

    /// What a look at the target shows.
    pub open spec fn target_seen(self, found: bool, is_dir: bool) -> (Self, TsStep<Seq<char>>) {
        match self.direction {
            Direction::Upload => self.follow(
                remote_target_step(
                    self.root,
                    slashed(self.root),
                    if found {
                        Some(!is_dir)
                    } else {
                        None
                    },
                ),
            ),
            Direction::Download => self.follow(
                local_target_step(self.target, slashed(self.target), found, is_dir),
            ),
        }
    }

    /// What a look at the directory above the target shows. On the server it
    /// has to exist; on this machine it has to be a directory.
    pub open spec fn parent_seen(self, found: bool, is_dir: bool) -> (Self, TsStep<Seq<char>>) {
        match self.direction {
            Direction::Upload => if found {
                self.follow(TargetStep::Create)
            } else {
                self.lost(OpError::Transfer(TransferError::RemoteTargetParentMissing(self.parent)))
            },
            Direction::Download => if found && is_dir {
                self.follow(TargetStep::Create)
            } else {
                self.lost(OpError::Transfer(TransferError::LocalTargetParentMissing(self.parent)))
            },
        }
    }

    /// The state after an event, and what to do then.
    pub open spec fn next(self, event: TsEvent<Seq<char>>) -> (Self, TsStep<Seq<char>>) {
        match event {
            TsEvent::ConnectFailed(f) => self.lost(connect_error(self.route.addr, f)),
            TsEvent::ChannelFailed => self.lost(
                OpError::Other("创建 SFTP 会话失败: "@ + self.route.addr),
            ),
            TsEvent::Connected => if self.stage == TsStage::Connect {
                (self.at(TsStage::Home), TsStep::PrintHome)
            } else {
                match self.direction {
                    Direction::Upload => (self.at(TsStage::Look), TsStep::Look(self.root)),
                    Direction::Download => (
                        self.at(TsStage::Over),
                        TsStep::Download {
                            root: self.root,
                            target: self.target,
                            is_dir: self.is_dir,
                            sizes: download_plan(
                                self.root,
                                self.is_dir,
                                self.concurrency,
                            )->Ok_0,
                        },
                    ),
                }
            },
            TsEvent::HomeFailed(e) => self.lost(OpError::Other(e)),
            TsEvent::HomePrinted(output) => {
                let run = TsRun { root: expanded(output, self.route.path), ..self };
                match self.direction {
                    Direction::Upload => (run.at(TsStage::Enumerate), TsStep::Enumerate),
                    Direction::Download => (run.at(TsStage::Look), TsStep::Look(self.target)),
                }
            },
            TsEvent::Enumerated { entries, lone_file, total_size } => (
                (TsRun { entries, lone_file, total_size, ..self }).at(TsStage::Channel),
                TsStep::OpenChannel(self.route.addr),
            ),
            TsEvent::EnumerateFailed(e) => self.lost(e),
            TsEvent::Seen { found, is_dir } => if self.stage == TsStage::Look {
                self.target_seen(found, is_dir)
            } else {
                self.parent_seen(found, is_dir)
            },
            TsEvent::Made => self.ready(true),
            TsEvent::MakeFailed(e) => self.lost(
                OpError::Transfer(
                    match self.direction {
                        Direction::Upload => TransferError::CreateRemoteDirFailed(self.root, e),
                        Direction::Download => TransferError::CreateLocalDirFailed(
                            self.target,
                            e,
                        ),
                    },
                ),
            ),
        }
    }
}

/// The transfer that arguments ask for, or why there is none: they have to be
/// in order, and the alias has to be known.
pub open spec fn requested(
    sources: Seq<Seq<char>>,
    target: Seq<char>,
    concurrency: Option<usize>,
    h: Hosts,
    cwd: Seq<char>,
) -> Result<TsRun<Seq<char>>, OpError<Seq<char>>> {
    match checked_request(sources, target) {
        Err(e) => Err(OpError::Transfer(e)),
        Ok(direction) => match route_to(
            h,
            if direction == Direction::Upload {
                target
            } else {
                sources[0]
            },
        ) {
            Err(e) => Err(e),
            Ok(route) => Ok(
                TsRun {
                    direction,
                    concurrency,
                    route,
                    target: if direction == Direction::Upload {
                        target
                    } else {
                        local_target(target, cwd)
                    },
                    root: Seq::empty(),
                    entries: 0,
                    lone_file: false,
                    total_size: 0,
                    parent: Seq::empty(),
                    is_dir: false,
                    stage: TsStage::Connect,
                },
            ),
        },
    }
}

impl TsRun {
    /// The transfer that arguments ask for. First it has to connect to the
    /// address of its route. `cwd` is the working directory.
    pub fn new(args: &HandleTsArgs, collection: &ServerCollection, cwd: &str) -> (r: Result<
        TsRun,
        OpError,
    >)
        requires
            checked_request(texts(args.sources@), args.target@) == Ok::<
                Direction,
                TransferError<Seq<char>>,
            >(Direction::Download) ==> fits_queue(args.concurrency),
        ensures
            match r {
                Ok(run) => requested(
                    texts(args.sources@),
                    args.target@,
                    args.concurrency,
                    collection@,
                    cwd@,
                ) == Ok::<TsRun<Seq<char>>, OpError<Seq<char>>>(run@) && run@.wf(),
                Err(e) => requested(
                    texts(args.sources@),
                    args.target@,
                    args.concurrency,
                    collection@,
                    cwd@,
                ) == Err::<TsRun<Seq<char>>, OpError<Seq<char>>>(e@),
            },
    {
        let direction = match handle_ts(args) {
            Ok(d) => d,
            Err(e) => {
                return Err(OpError::Transfer(e));
            },
        };
        proof {
            assert(texts(args.sources@)[0] == args.sources@[0]@);
        }
        let remote = match direction {
            Direction::Upload => args.target.as_str(),
            Direction::Download => args.sources[0].as_str(),
        };
        let route = match find_route(collection, remote) {
            Ok(route) => route,
            Err(e) => {
                return Err(e);
            },
        };
        let target = match direction {
            Direction::Upload => args.target.clone(),
            Direction::Download => find_local_target(args.target.as_str(), cwd),
        };
        let run = TsRun {
            direction,
            concurrency: args.concurrency,
            route,
            target,
            root: String::new(),
            entries: 0,
            lone_file: false,
            total_size: 0,
            parent: String::new(),
            is_dir: false,
            stage: TsStage::Connect,
        };
        proof {
            assert(run@.root =~= Seq::<char>::empty());
            assert(run@.parent =~= Seq::<char>::empty());
        }
        Ok(run)
    }

    fn lose(&mut self, e: OpError) -> (r: TsStep)
        requires
            old(self)@.wf(),
        ensures
            (final(self)@, r@) == old(self)@.lost(e@),
            final(self)@.wf(),
    {
        self.stage = TsStage::Over;
        TsStep::Fail(e)
    }

    fn go_by(&mut self, step: TargetStep) -> (r: TsStep)
        requires
            old(self)@.wf(),
            old(self)@.stage != TsStage::Channel,
        ensures
            (final(self)@, r@) == old(self)@.follow(step@),
            final(self)@.wf(),
    {
        match step {
            TargetStep::Ready(is_dir) => self.start_workers(is_dir),
            TargetStep::LookAtParent(p) => {
                self.parent = p.clone();
                self.stage = TsStage::Parent;
                TsStep::Look(p)
            },
            TargetStep::Create => {
                self.stage = TsStage::Make;
                match self.direction {
                    Direction::Upload => TsStep::MakeDir(self.root.clone()),
                    Direction::Download => TsStep::MakeDir(self.target.clone()),
                }
            },
            TargetStep::Fail(e) => self.lose(OpError::Transfer(e)),
        }
    }

    fn start_workers(&mut self, is_dir: bool) -> (r: TsStep)
        requires
            old(self)@.wf(),
            old(self)@.stage != TsStage::Channel,
        ensures
            (final(self)@, r@) == old(self)@.ready(is_dir),
            final(self)@.wf(),
    {
        self.is_dir = is_dir;
        match self.direction {
            Direction::Upload => match plan_upload(
                self.root.as_str(),
                is_dir,
                self.entries,
                self.lone_file,
                self.total_size,
                self.concurrency,
            ) {
                Ok(sizes) => {
                    self.stage = TsStage::Over;
                    TsStep::Upload { base: self.root.clone(), is_dir, sizes }
                },
                Err(e) => self.lose(OpError::Transfer(e)),
            },
            Direction::Download => match plan_download(
                self.root.as_str(),
                is_dir,
                self.concurrency,
            ) {
                Ok(_) => {
                    self.stage = TsStage::Channel;
                    TsStep::OpenChannel(self.route.addr.clone())
                },
                Err(e) => self.lose(OpError::Transfer(e)),
            },
        }
    }

    /// Takes in what happened, and says what to do next.
    pub fn advance(&mut self, event: TsEvent) -> (r: TsStep)
        requires
            old(self)@.wf(),
            old(self)@.expects(event@),
        ensures
            (final(self)@, r@) == old(self)@.next(event@),
            final(self)@.wf(),
    {
        match event {
            TsEvent::ConnectFailed(f) => {
                let e = connect_session(self.route.addr.as_str(), f);
                self.lose(e)
            },
            TsEvent::ChannelFailed => {
                let e = cat2("创建 SFTP 会话失败: ", self.route.addr.as_str());
                self.lose(OpError::Other(e))
            },
            TsEvent::Connected => match self.stage {
                TsStage::Connect => {
                    self.stage = TsStage::Home;
                    TsStep::PrintHome
                },
                _ => match self.direction {
                    Direction::Upload => {
                        self.stage = TsStage::Look;
                        TsStep::Look(self.root.clone())
                    },
                    Direction::Download => {
                        match plan_download(self.root.as_str(), self.is_dir, self.concurrency) {
                            Ok(sizes) => {
                                self.stage = TsStage::Over;
                                TsStep::Download {
                                    root: self.root.clone(),
                                    target: self.target.clone(),
                                    is_dir: self.is_dir,
                                    sizes,
                                }
                            },
                            Err(e) => self.lose(OpError::Transfer(e)),
                        }
                    },
                },
            },
            TsEvent::HomeFailed(e) => self.lose(OpError::Other(e)),
            TsEvent::HomePrinted(output) => {
                self.root = expand_remote_tilde(output.as_str(), self.route.path.as_str());
                match self.direction {
                    Direction::Upload => {
                        self.stage = TsStage::Enumerate;
                        TsStep::Enumerate
                    },
                    Direction::Download => {
                        self.stage = TsStage::Look;
                        TsStep::Look(self.target.clone())
                    },
                }
            },
            TsEvent::Enumerated { entries, lone_file, total_size } => {
                self.entries = entries;
                self.lone_file = lone_file;
                self.total_size = total_size;
                self.stage = TsStage::Channel;
                TsStep::OpenChannel(self.route.addr.clone())
            },
            TsEvent::EnumerateFailed(e) => self.lose(e),
            TsEvent::Seen { found, is_dir } => match self.stage {
                TsStage::Look => {
                    let step = match self.direction {
                        Direction::Upload => prepare_remote_target(
                            self.root.as_str(),
                            ends_with_char(self.root.as_str(), '/'),
                            if found {
                                Some(!is_dir)
                            } else {
                                None
                            },
                        ),
                        Direction::Download => prepare_local_target(
                            self.target.as_str(),
                            ends_with_char(self.target.as_str(), '/'),
                            found,
                            is_dir,
                        ),
                    };
                    self.go_by(step)
                },
                _ => {
                    let step = match self.direction {
                        Direction::Upload => remote_parent_seen(self.parent.as_str(), found),
                        Direction::Download => local_parent_seen(
                            self.parent.as_str(),
                            found && is_dir,
                        ),
                    };
                    self.go_by(step)
                },
            },
            TsEvent::Made => self.start_workers(true),
            TsEvent::MakeFailed(e) => {
                let step = match self.direction {
                    Direction::Upload => remote_target_created(self.root.as_str(), Some(e)),
                    Direction::Download => local_target_created(self.target.as_str(), Some(e)),
                };
                self.go_by(step)
            },
        }
    }
}

/// How far a transfer is from the start of its workers.
pub open spec fn ts_distance(direction: Direction, stage: TsStage) -> nat {
    match stage {
        TsStage::Connect => 8,
        TsStage::Home => 7,
        TsStage::Enumerate => 6,
        TsStage::Look => 4,
        TsStage::Parent => 3,
        TsStage::Make => 2,
        TsStage::Over => 0,
        TsStage::Channel => if direction == Direction::Upload {
            5
        } else {
            1
        },
    }
}

/// Every step brings a transfer nearer to the start of its workers, or to its
/// failure.
pub proof fn transfer_gets_started(run: TsRun<Seq<char>>, event: TsEvent<Seq<char>>)
    requires
        run.wf(),
        run.expects(event),
    ensures
        ts_distance(run.direction, run.next(event).0.stage) < ts_distance(
            run.direction,
            run.stage,
        ),
        run.next(event).0.stage == TsStage::Over <==> {
            let step = run.next(event).1;
            step is Upload || step is Download || step is Fail
        },
{
}

/// Before it is known that the server is reached, that the sources are there
/// and what the target is, nothing is made; and a directory is made only as
/// the target itself, where nothing was found.
pub proof fn only_the_target_is_made(run: TsRun<Seq<char>>, event: TsEvent<Seq<char>>)
    requires
        run.wf(),
        run.expects(event),
    ensures
        run.next(event).1 is MakeDir ==> {
            &&& run.next(event).1 == TsStep::MakeDir(run.place())
            &&& event matches TsEvent::Seen { found, is_dir } && (run.stage == TsStage::Look
                && !found || run.stage == TsStage::Parent && found)
        },
{
}

/// Where a pattern is downloaded and fits nothing, that is an error.
pub fn check_discovered(remote_root: &str, discovered: u64) -> (r: Result<(), TransferError>)
    ensures
        match r {
            Ok(_) => discovered > 0 || !has_wildcard(remote_root@),
            Err(e) => discovered == 0 && has_wildcard(remote_root@) && e@
                == TransferError::GlobNoMatches(remote_root@),
        },
{
    if discovered == 0 && has_glob(remote_root) {
        Err(TransferError::GlobNoMatches(remote_root.to_owned()))
    } else {
        Ok(())
    }
}

/// What a transfer was asked for stays what it was: no event changes its
/// direction, its route, its local target or the number of workers asked for.
pub proof fn transfers_keep_what_was_asked_for(run: TsRun<Seq<char>>, event: TsEvent<Seq<char>>)
    requires
        run.wf(),
        run.expects(event),
    ensures
        run.next(event).0.direction == run.direction,
        run.next(event).0.route == run.route,
        run.next(event).0.target == run.target,
        run.next(event).0.concurrency == run.concurrency,
        !(event is HomePrinted) ==> run.next(event).0.root == run.root,
        !(event is Enumerated) ==> run.next(event).0.entries == run.entries
            && run.next(event).0.lone_file == run.lone_file && run.next(event).0.total_size
            == run.total_size,
{
}

/// Whether the target is a directory is what was found out about it: a look at
/// it that lets the transfer go on says so, a target that was made is one, and
/// nothing else changes it.
pub proof fn target_is_what_was_found(run: TsRun<Seq<char>>, event: TsEvent<Seq<char>>)
    requires
        run.wf(),
        run.expects(event),
    ensures
        ({
            let after = run.next(event);
            let goes_on = after.1 is OpenChannel || after.1 is Upload;
            &&& event is Seen && goes_on ==> run.stage
                == TsStage::Look && event->found && after.0.is_dir == event->is_dir
            &&& event is Made && goes_on ==> after.0.is_dir
            &&& !(event is Seen) && !(event is Made) ==> after.0.is_dir == run.is_dir
            &&& after.1 matches TsStep::Upload { base, is_dir, sizes } ==> is_dir
                == after.0.is_dir
        }),
{
}

/// The workers of a download are given the path on the server, the local
/// target, and whether that is a directory, as they were found out.
pub proof fn downloads_start_with_what_was_found(run: TsRun<Seq<char>>, event: TsEvent<Seq<char>>)
    requires
        run.wf(),
        run.expects(event),
    ensures
        run.next(event).1 matches TsStep::Download { root, target, is_dir, sizes } ==> {
            &&& run.direction == Direction::Download
            &&& run.stage == TsStage::Channel
            &&& event is Connected
            &&& root == run.root
            &&& target == run.target
            &&& is_dir == run.is_dir
            &&& download_plan(run.root, run.is_dir, run.concurrency) == Ok::<
                Sizes,
                TransferError<Seq<char>>,
            >(sizes)
        },
        run.direction == Direction::Download && run.stage == TsStage::Channel && event is Connected
            ==> run.next(event).1 is Download,
{
}

/// A download, from the request to its workers: where the server prints its
/// home and the target exists, the workers get the path on the server with the
/// home written out, the target, and whether that is a directory.
pub proof fn whole_course_of_a_download(
    run: TsRun<Seq<char>>,
    output: Seq<char>,
    is_dir: bool,
)
    requires
        run.wf(),
        run.direction == Direction::Download,
        run.stage == TsStage::Connect,
        !slashed(run.target),
        download_plan(expanded(output, run.route.path), is_dir, run.concurrency) is Ok,
    ensures
        ({
            let a = run.next(TsEvent::Connected);
            let b = a.0.next(TsEvent::HomePrinted(output));
            let c = b.0.next(TsEvent::Seen { found: true, is_dir });
            let d = c.0.next(TsEvent::Connected);
            &&& a.1 is PrintHome
            &&& b.1 == TsStep::Look(run.target)
            &&& c.1 == TsStep::OpenChannel(run.route.addr)
            &&& d.1 matches TsStep::Download { root, target, is_dir: dir, sizes } && root
                == expanded(output, run.route.path) && target == run.target && dir == is_dir
        }),
{
}

/// The workers of an upload are given the path on the server with the home
/// written out, and as many of them are planned as the entries call for.
pub proof fn uploads_start_with_what_was_found(run: TsRun<Seq<char>>, event: TsEvent<Seq<char>>)
    requires
        run.wf(),
        run.expects(event),
    ensures
        run.next(event).1 matches TsStep::Upload { base, is_dir, sizes } ==> {
            &&& run.direction == Direction::Upload
            &&& base == run.root
            &&& upload_plan(
                run.root,
                is_dir,
                run.entries as nat,
                run.lone_file,
                run.total_size as nat,
                run.concurrency,
            ) == Ok::<Sizes, TransferError<Seq<char>>>(sizes)
        },
{
}

/// An upload, from the request to its workers: the entries are found once the
/// home is known, and where the target exists the workers get the path with
/// the home written out, and whether there is a directory.
pub proof fn whole_course_of_an_upload(
    run: TsRun<Seq<char>>,
    output: Seq<char>,
    entries: usize,
    lone_file: bool,
    total_size: u64,
    is_dir: bool,
)
    requires
        run.wf(),
        run.direction == Direction::Upload,
        run.stage == TsStage::Connect,
        entries < usize::MAX,
        !slashed(expanded(output, run.route.path)),
    ensures
        ({
            let base = expanded(output, run.route.path);
            let a = run.next(TsEvent::Connected);
            let b = a.0.next(TsEvent::HomePrinted(output));
            let c = b.0.next(TsEvent::Enumerated { entries, lone_file, total_size });
            let d = c.0.next(TsEvent::Connected);
            let e = d.0.next(TsEvent::Seen { found: true, is_dir });
            let plan = upload_plan(
                base,
                is_dir,
                entries as nat,
                lone_file,
                total_size as nat,
                run.concurrency,
            );
            &&& a.1 is PrintHome
            &&& b.1 is Enumerate
            &&& c.1 == TsStep::OpenChannel(run.route.addr)
            &&& d.1 == TsStep::Look(base)
            &&& plan matches Ok(sizes) ==> e.1 == (TsStep::Upload { base, is_dir, sizes })
            &&& plan matches Err(error) ==> e.1 == TsStep::Fail(OpError::Transfer(error))
        }),
{
}

/// Connections go to the address of the route, looks and directories to the
/// target or to what lies above it.
pub proof fn transfers_stay_on_their_route(run: TsRun<Seq<char>>, event: TsEvent<Seq<char>>)
    requires
        run.wf(),
        run.expects(event),
    ensures
        run.next(event).1 matches TsStep::OpenChannel(addr) ==> addr == run.route.addr,
        run.next(event).1 matches TsStep::Connect(addr) ==> addr == run.route.addr,
        run.next(event).1 matches TsStep::Look(p) ==> {
            let place = if run.direction == Direction::Upload {
                run.root
            } else {
                run.target
            };
            p == place || crate::paths::parent_of(place) == Some(p)
        },
        run.next(event).1 matches TsStep::MakeDir(p) ==> p == if run.direction
            == Direction::Upload {
            run.root
        } else {
            run.target
        },
{
}

/// A target that does not exist is made where the directory above it is there,
/// and the transfer then goes on with a directory; where that is missing, the
/// transfer fails and names it.
pub proof fn missing_targets_are_made(run: TsRun<Seq<char>>, is_dir: bool, error: Seq<char>)
    requires
        run.wf(),
        run.stage == TsStage::Parent,
    ensures
        ({
            let place = if run.direction == Direction::Upload {
                run.root
            } else {
                run.target
            };
            let there = run.next(TsEvent::Seen { found: true, is_dir: true });
            let missing = run.next(TsEvent::Seen { found: false, is_dir });
            &&& there.1 == TsStep::MakeDir(place)
            &&& there.0.next(TsEvent::Made).0.is_dir
            &&& missing.1 == TsStep::Fail(
                OpError::Transfer(
                    if run.direction == Direction::Upload {
                        TransferError::RemoteTargetParentMissing(run.parent)
                    } else {
                        TransferError::LocalTargetParentMissing(run.parent)
                    },
                ),
            )
            &&& there.0.next(TsEvent::MakeFailed(error)).1 == TsStep::Fail(
                OpError::Transfer(
                    if run.direction == Direction::Upload {
                        TransferError::CreateRemoteDirFailed(place, error)
                    } else {
                        TransferError::CreateLocalDirFailed(place, error)
                    },
                ),
            )
        }),
        run.direction == Direction::Download ==> run.next(
            TsEvent::Seen { found: true, is_dir: false },
        ).1 == TsStep::Fail(
            OpError::Transfer(TransferError::LocalTargetParentMissing(run.parent)),
        ),
{
}

/// A failure on the way ends the transfer and is handed on: that of connecting
/// with its address, and those of the home and of the sources as they are.
pub proof fn failures_end_the_transfer(run: TsRun<Seq<char>>, event: TsEvent<Seq<char>>)
    requires
        run.wf(),
        run.expects(event),
    ensures
        event matches TsEvent::ConnectFailed(f) ==> run.next(event).1 == TsStep::Fail(
            connect_error(run.route.addr, f),
        ),
        event matches TsEvent::HomeFailed(e) ==> run.next(event).1 == TsStep::Fail(
            OpError::Other(e),
        ),
        event matches TsEvent::EnumerateFailed(e) ==> run.next(event).1 == TsStep::Fail(e),
        event is ChannelFailed ==> run.next(event).1 is Fail,
        event is ConnectFailed || event is HomeFailed || event is EnumerateFailed
            || event is ChannelFailed ==> run.next(event).0.stage == TsStage::Over,
{
}

/// A request that is accepted becomes the transfer that it asks for: the remote
/// end gives the server and the path, the other end the local side, and the
/// number of workers is kept.
pub proof fn accepted_requests_become_transfers(
    sources: Seq<Seq<char>>,
    target: Seq<char>,
    concurrency: Option<usize>,
    h: Hosts,
    cwd: Seq<char>,
)
    ensures
        requested(sources, target, concurrency, h, cwd) matches Ok(run) ==> {
            &&& checked_request(sources, target) == Ok::<Direction, TransferError<Seq<char>>>(
                run.direction,
            )
            &&& run.concurrency == concurrency
            &&& run.stage == TsStage::Connect
            &&& run.direction == Direction::Upload ==> route_to(h, target) == Ok::<
                Route<Seq<char>>,
                OpError<Seq<char>>,
            >(run.route)
            &&& run.direction == Direction::Download ==> route_to(h, sources[0]) == Ok::<
                Route<Seq<char>>,
                OpError<Seq<char>>,
            >(run.route) && run.target == local_target(target, cwd)
        },
        checked_request(sources, target) matches Err(e) ==> requested(
            sources,
            target,
            concurrency,
            h,
            cwd,
        ) == Err::<TsRun<Seq<char>>, OpError<Seq<char>>>(OpError::Transfer(e)),
        checked_request(sources, target) == Ok::<Direction, TransferError<Seq<char>>>(
            Direction::Upload,
        ) && route_to(h, target) is Ok ==> requested(sources, target, concurrency, h, cwd) is Ok,
        checked_request(sources, target) == Ok::<Direction, TransferError<Seq<char>>>(
            Direction::Download,
        ) && route_to(h, sources[0]) is Ok ==> requested(
            sources,
            target,
            concurrency,
            h,
            cwd,
        ) is Ok,
{
}

/// A target that is written with a slash behind it has to be a directory: where
/// it is missing, or something else, the transfer ends and names it. Without
/// the slash a file will do, and what is missing is looked for above.
pub proof fn targets_with_a_slash_have_to_be_directories(
    run: TsRun<Seq<char>>,
    found: bool,
    is_dir: bool,
)
    requires
        run.wf(),
        run.stage == TsStage::Look,
    ensures
        ({
            let step = run.next(TsEvent::Seen { found, is_dir }).1;
            let upload = run.direction == Direction::Upload;
            let place = if upload {
                run.root
            } else {
                run.target
            };
            &&& place.len() > 0 && place.last() == '/' && !(found && is_dir) ==> step
                == TsStep::Fail(
                OpError::Transfer(
                    if upload {
                        TransferError::RemoteTargetMustBeDir(place)
                    } else {
                        TransferError::LocalTargetMustBeDir(place)
                    },
                ),
            )
            &&& place.len() > 0 && place.last() != '/' && !found && crate::paths::parent_of(
                place,
            ) is Some && crate::paths::parent_of(place)->Some_0.len() > 0 ==> step == TsStep::Look(
                crate::paths::parent_of(place)->Some_0,
            )
            &&& step is Fail && !found ==> (place.len() == 0 || place.last() == '/'
                || crate::paths::parent_of(place) is None)
        }),
{
}

} // verus!
