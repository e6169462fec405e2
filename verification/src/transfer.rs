//! The `ts` transfer command: which requests are accepted, where they go, how
//! the target is prepared, how many workers there are, and what is told at the
//! end.
use vstd::prelude::*;
use vstd::string::*;

use crate::auto_concurrency::{choose_auto_concurrency, root_up, workers_for};
use crate::cli::{DEFAULT_WORKERS, MAX_WORKERS};
use crate::error::{OpError, TransferError};
use crate::json::{fields_of, JsonField};
use crate::number::{decimal, to_decimal};
use crate::parse::{alias_and_path, parse_alias_and_path};
use crate::paths::{is_absolute, parent, parent_of};
use crate::server::{host, opt, Hosts, Server, ServerCollection};
use crate::text::{cat2, cat3, cat4, ends_with_char, same, starts_with_char, texts, to_chars};
use self::helpers::{
    bad_glob, has_glob, has_wildcard, is_disallowed_glob, is_remote_spec, is_windows_drive,
    names_remote, starts_with_drive,
};
use self::workers::WorkerMetrics;

pub use self::helpers::normalize_path;
pub use self::helpers::wildcard_match;

pub mod enumeration;
pub mod helpers;
pub mod multi_channel;
pub mod run;
pub mod session;
pub mod sftp_like;
pub mod workers;

verus! {

/// What an entry of a transfer is.
#[derive(Debug, Clone, Copy, PartialEq, Eq, Structural)]
pub enum EntryKind {
    File,
    Dir,
}

/// A file or directory that is transferred.
#[derive(Debug)]
pub struct FileEntry<S = String> {
    /// Where it is on the server, in a download.
    pub remote_full: S,
    /// Its path below the source.
    pub rel: S,
    pub size: Option<u64>,
    pub kind: EntryKind,
    /// Where it is on this machine, in an upload.
    pub local_full: Option<S>,
}

impl View for FileEntry<String> {
    type V = FileEntry<Seq<char>>;

    open spec fn view(&self) -> FileEntry<Seq<char>> {
        FileEntry {
            remote_full: self.remote_full@,
            rel: self.rel@,
            size: self.size,
            kind: self.kind,
            local_full: opt(self.local_full),
        }
    }
}

/// The entries of a transfer, as mathematical values.
pub open spec fn entries_of(v: Seq<FileEntry>) -> Seq<FileEntry<Seq<char>>> {
    v.map_values(|e: FileEntry| e@)
}

/// The arguments of a transfer.
pub struct HandleTsArgs {
    pub sources: Vec<String>,
    pub target: String,
    pub verbose: bool,
    pub json: bool,
    pub quiet: bool,
    /// The number of workers; none leaves the choice to the transfer.
    pub concurrency: Option<usize>,
    pub max_retries: usize,
    pub buf_size: usize,
}

// ---------------------------------------------------------------------------
// Which requests are accepted
// ---------------------------------------------------------------------------

/// Which way a transfer goes.
#[derive(Debug, Clone, Copy, PartialEq, Eq, Structural)]
pub enum Direction {
    Upload,
    Download,
}

/// The first source with wildcards that are not supported.
pub open spec fn first_bad(sources: Seq<Seq<char>>) -> Option<Seq<char>>
    decreases sources.len(),
{
    if sources.len() == 0 {
        None
    } else if bad_glob(sources[0]) {
        Some(sources[0])
    } else {
        first_bad(sources.drop_first())
    }
}

/// Which way a request goes, or why it is refused: exactly one of the target
/// and the first source is remote, wildcards stand in the last segment of
/// sources only, an upload has a source, and a download has a single one.
pub open spec fn checked_request(sources: Seq<Seq<char>>, target: Seq<char>) -> Result<
    Direction,
    TransferError<Seq<char>>,
> {
    let to_remote = names_remote(target);
    let from_remote = sources.len() > 0 && names_remote(sources[0]);
    if to_remote == from_remote {
        Err(TransferError::InvalidDirection)
    } else if first_bad(sources) is Some {
        Err(TransferError::UnsupportedGlobUsage(first_bad(sources)->Some_0))
    } else if has_wildcard(target) {
        Err(TransferError::UnsupportedGlobUsage(target))
    } else if to_remote && sources.len() == 0 {
        Err(TransferError::MissingLocalSource("ts 上传需要至少一个本地源"@))
    } else if from_remote && sources.len() != 1 {
        Err(TransferError::DownloadMultipleRemoteSources("ts 下载仅支持单个远端源"@))
    } else if to_remote {
        Ok(Direction::Upload)
    } else {
        Ok(Direction::Download)
    }
}

fn find_bad(sources: &Vec<String>) -> (r: Option<String>)
    ensures
        match r {
            Some(s) => first_bad(texts(sources@)) == Some(s@),
            None => first_bad(texts(sources@)) is None,
        },
{
    let ghost all = texts(sources@);
    let mut i: usize = 0;
    proof {
        assert(all.skip(0) =~= all);
    }
    while i < sources.len()
        invariant
            i <= sources.len(),
            all == texts(sources@),
            first_bad(all) == first_bad(all.skip(i as int)),
        decreases sources.len() - i,
    {
        proof {
            assert(all.skip(i as int)[0] == sources@[i as int]@);
            assert(all.skip(i as int).drop_first() =~= all.skip(i + 1));
        }
        if is_disallowed_glob(sources[i].as_str()) {
            return Some(sources[i].clone());
        }
        i = i + 1;
    }
    None
}

/// Checks the arguments of a transfer, and says which way it goes.
pub fn handle_ts(args: &HandleTsArgs) -> (r: Result<Direction, TransferError>)
    ensures
        match r {
            Ok(d) => checked_request(texts(args.sources@), args.target@) == Ok::<
                Direction,
                TransferError<Seq<char>>,
            >(d),
            Err(e) => checked_request(texts(args.sources@), args.target@) == Err::<
                Direction,
                TransferError<Seq<char>>,
            >(e@),
        },
        r is Ok ==> args.sources.len() > 0,
{
    let target_is_remote = is_remote_spec(args.target.as_str());
    let source0_is_remote = args.sources.len() > 0 && is_remote_spec(args.sources[0].as_str());
    proof {
        if args.sources.len() > 0 {
            assert(texts(args.sources@)[0] == args.sources@[0]@);
        }
    }
    if target_is_remote == source0_is_remote {
        return Err(TransferError::InvalidDirection);
    }
    if let Some(s) = find_bad(&args.sources) {
        return Err(TransferError::UnsupportedGlobUsage(s));
    }
    if has_glob(args.target.as_str()) {
        return Err(TransferError::UnsupportedGlobUsage(args.target.clone()));
    }
    if target_is_remote {
        if args.sources.len() == 0 {
            return Err(
                TransferError::MissingLocalSource("ts 上传需要至少一个本地源".to_owned()),
            );
        }
        Ok(Direction::Upload)
    } else {
        if args.sources.len() != 1 {
            return Err(
                TransferError::DownloadMultipleRemoteSources(
                    "ts 下载仅支持单个远端源".to_owned(),
                ),
            );
        }
        Ok(Direction::Download)
    }
}

/// An accepted request has exactly one remote end, and neither its target nor
/// any but the last segment of its sources holds a wildcard.
pub proof fn accepted_requests_have_one_remote_end(
    sources: Seq<Seq<char>>,
    target: Seq<char>,
    i: int,
)
    requires
        checked_request(sources, target) is Ok,
        0 <= i < sources.len(),
    ensures
        names_remote(target) != names_remote(sources[0]),
        checked_request(sources, target) == Ok::<Direction, TransferError<Seq<char>>>(
            if names_remote(target) {
                Direction::Upload
            } else {
                Direction::Download
            },
        ),
        !has_wildcard(target),
        !bad_glob(sources[i]),
        names_remote(sources[0]) ==> sources.len() == 1,
{
    lemma_none_bad(sources, i);
}

proof fn lemma_none_bad(sources: Seq<Seq<char>>, i: int)
    requires
        first_bad(sources) is None,
        0 <= i < sources.len(),
    ensures
        !bad_glob(sources[i]),
    decreases sources.len(),
{
    if i > 0 {
        lemma_none_bad(sources.drop_first(), i - 1);
        assert(sources.drop_first()[i - 1] == sources[i]);
    }
}

/// Every request that has one remote end, wildcards where they may stand and as
/// many sources as its direction takes is accepted.
pub proof fn sound_requests_are_accepted(sources: Seq<Seq<char>>, target: Seq<char>)
    requires
        sources.len() > 0,
        names_remote(target) != names_remote(sources[0]),
        forall|i: int| 0 <= i < sources.len() ==> !bad_glob(#[trigger] sources[i]),
        !has_wildcard(target),
        names_remote(target) || sources.len() == 1,
    ensures
        checked_request(sources, target) == Ok::<Direction, TransferError<Seq<char>>>(
            if names_remote(target) {
                Direction::Upload
            } else {
                Direction::Download
            },
        ),
{
    lemma_first_bad(sources);
}

/// A request is refused for the reason that it is named: where both of its ends
/// are remote or neither is, that comes first; then a path with wildcards that
/// are not supported, the first source before the target.
pub proof fn refusals_name_the_reason(sources: Seq<Seq<char>>, target: Seq<char>)
    ensures
        checked_request(sources, target) == Err::<Direction, TransferError<Seq<char>>>(
            TransferError::InvalidDirection,
        ) <==> names_remote(target) == (sources.len() > 0 && names_remote(sources[0])),
        (checked_request(sources, target) matches Err(e) && e is UnsupportedGlobUsage) ==> {
            let path = checked_request(sources, target)->Err_0->UnsupportedGlobUsage_0;
            ||| path == target && has_wildcard(target)
            ||| exists|i: int|
                0 <= i < sources.len() && #[trigger] sources[i] == path && bad_glob(path) && forall|
                    j: int,
                |
                    0 <= j < i ==> !bad_glob(#[trigger] sources[j])
        },
        (checked_request(sources, target) matches Err(e) && e is MissingLocalSource)
            ==> sources.len() == 0 && names_remote(target),
        (checked_request(sources, target) matches Err(e) && e is DownloadMultipleRemoteSources)
            ==> sources.len() > 1 && names_remote(sources[0]),
{
    lemma_first_bad(sources);
}

proof fn lemma_first_bad(sources: Seq<Seq<char>>)
    ensures
        match first_bad(sources) {
            None => forall|i: int| 0 <= i < sources.len() ==> !bad_glob(#[trigger] sources[i]),
            Some(p) => exists|i: int|
                0 <= i < sources.len() && #[trigger] sources[i] == p && bad_glob(p) && forall|j: int|
                    0 <= j < i ==> !bad_glob(#[trigger] sources[j]),
        },
    decreases sources.len(),
{
    if sources.len() > 0 && !bad_glob(sources[0]) {
        let rest = sources.drop_first();
        lemma_first_bad(rest);
        match first_bad(rest) {
            None => {
                assert forall|i: int| 0 <= i < sources.len() implies !bad_glob(
                    #[trigger] sources[i],
                ) by {
                    if i > 0 {
                        assert(rest[i - 1] == sources[i]);
                    }
                }
            },
            Some(p) => {
                let k = choose|i: int|
                    0 <= i < rest.len() && #[trigger] rest[i] == p && bad_glob(p) && forall|j: int|
                        0 <= j < i ==> !bad_glob(#[trigger] rest[j]);
                assert(sources[k + 1] == p);
                assert forall|j: int| 0 <= j < k + 1 implies !bad_glob(#[trigger] sources[j]) by {
                    if j > 0 {
                        assert(rest[j - 1] == sources[j]);
                    }
                }
            },
        }
    } else if sources.len() > 0 {
        assert(sources[0] == first_bad(sources)->Some_0);
    }
}

// ---------------------------------------------------------------------------
// Where a request goes
// ---------------------------------------------------------------------------

/// Where a transfer goes on the remote side.
pub struct Route<S = String> {
    pub server: Server<S>,
    /// The server's address and port.
    pub addr: S,
    /// The path on the server.
    pub path: S,
}

impl View for Route<String> {
    type V = Route<Seq<char>>;

    open spec fn view(&self) -> Route<Seq<char>> {
        Route { server: self.server@, addr: self.addr@, path: self.path@ }
    }
}

/// The address and port of a server.
pub open spec fn address_of(server: Server<Seq<char>>) -> Seq<char> {
    server.address + ":"@ + decimal(server.port as nat)
}

/// Writes the address and port of a server.
pub fn server_address(server: &Server) -> (r: String)
    ensures
        r@ == address_of(server@),
{
    cat3(server.address.as_str(), ":", to_decimal(server.port as u64).as_str())
}

/// Where `alias:path` goes, or why it goes nowhere.
pub open spec fn route_to(h: Hosts, remote: Seq<char>) -> Result<
    Route<Seq<char>>,
    OpError<Seq<char>>,
> {
    match alias_and_path(remote) {
        Err(e) => Err(OpError::Other(e.text())),
        Ok((alias, path)) => match host(h, alias) {
            Some(server) => Ok(Route { server, addr: address_of(server), path }),
            None => Err(OpError::Transfer(TransferError::AliasNotFound(alias))),
        },
    }
}

/// Finds where `alias:path` goes.
pub fn find_route(collection: &ServerCollection, remote: &str) -> (r: Result<Route, OpError>)
    ensures
        match r {
            Ok(route) => route_to(collection@, remote@) == Ok::<
                Route<Seq<char>>,
                OpError<Seq<char>>,
            >(route@),
            Err(e) => route_to(collection@, remote@) == Err::<
                Route<Seq<char>>,
                OpError<Seq<char>>,
            >(e@),
        },
{
    match parse_alias_and_path(remote) {
        Err(e) => Err(OpError::Other(e.message())),
        Ok((alias, path)) => match collection.get(alias.as_str()) {
            Some(server) => Ok(
                Route { server: server.clone(), addr: server_address(server), path },
            ),
            None => Err(OpError::Transfer(TransferError::AliasNotFound(alias))),
        },
    }
}

/// Whether a path starts with `./` or `../`, or is `..`.
pub open spec fn dotted(p: Seq<char>) -> bool {
    ||| p.len() >= 2 && p[0] == '.' && p[1] == '/'
    ||| p.len() >= 3 && p[0] == '.' && p[1] == '.' && p[2] == '/'
    ||| p == seq!['.', '.']
}

/// The local target of a download: the working directory for `.` and `./`, and
/// any other relative path below it.
pub open spec fn local_target(target: Seq<char>, cwd: Seq<char>) -> Seq<char> {
    if target == "."@ || target == "./"@ {
        cwd
    } else if is_absolute(target) || dotted(target) || starts_with_drive(target) {
        target
    } else {
        "./"@ + target
    }
}

/// Whether the working directory is asked for.
pub fn wants_working_directory(target: &str) -> (r: bool)
    ensures
        r == (target@ == "."@ || target@ == "./"@),
{
    same(target, ".") || same(target, "./")
}

/// Finds the local target of a download.
pub fn find_local_target(target: &str, cwd: &str) -> (r: String)
    ensures
        r@ == local_target(target@, cwd@),
{
    if wants_working_directory(target) {
        return cwd.to_owned();
    }
    let v = to_chars(target);
    let below = v.len() >= 2 && v[0] == '.' && v[1] == '/';
    let beside = v.len() >= 3 && v[0] == '.' && v[1] == '.' && v[2] == '/';
    let above = v.len() == 2 && v[0] == '.' && v[1] == '.';
    proof {
        if above {
            assert(target@ =~= seq!['.', '.']);
        }
    }
    if starts_with_char(target, '/') || below || beside || above || is_windows_drive(target) {
        target.to_owned()
    } else {
        cat2("./", target)
    }
}

// ---------------------------------------------------------------------------
// The target
// ---------------------------------------------------------------------------

/// What to do next about a target.
pub enum TargetStep<S = String> {
    /// It is ready; whether it is a directory.
    Ready(bool),
    /// Look at the directory above it.
    LookAtParent(S),
    /// Create it, as a directory.
    Create,
    Fail(TransferError<S>),
}

impl View for TargetStep<String> {
    type V = TargetStep<Seq<char>>;

    open spec fn view(&self) -> TargetStep<Seq<char>> {
        match self {
            TargetStep::Ready(b) => TargetStep::Ready(*b),
            TargetStep::LookAtParent(p) => TargetStep::LookAtParent(p@),
            TargetStep::Create => TargetStep::Create,
            TargetStep::Fail(e) => TargetStep::Fail(e@),
        }
    }
}

/// What a look at a remote target leads to. `is_file` is what was found there,
/// if anything. With a slash at its end the target has to be a directory that
/// exists; without one it is created where it does not exist.
pub open spec fn remote_target_step(
    base: Seq<char>,
    ends_slash: bool,
    is_file: Option<bool>,
) -> TargetStep<Seq<char>> {
    match is_file {
        Some(file) => if ends_slash && file {
            TargetStep::Fail(TransferError::RemoteTargetMustBeDir(base))
        } else {
            TargetStep::Ready(!file)
        },
        None => if ends_slash {
            TargetStep::Fail(TransferError::RemoteTargetMustBeDir(base))
        } else {
            match parent_of(base) {
                Some(p) => TargetStep::LookAtParent(p),
                None => TargetStep::Fail(
                    TransferError::OperationFailed("无效远端路径: "@ + base),
                ),
            }
        },
    }
}

/// Decides what a look at a remote target leads to.
pub fn prepare_remote_target(base: &str, ends_slash: bool, is_file: Option<bool>) -> (r: TargetStep)
    ensures
        r@ == remote_target_step(base@, ends_slash, is_file),
{
    match is_file {
        Some(file) => {
            if ends_slash && file {
                TargetStep::Fail(TransferError::RemoteTargetMustBeDir(base.to_owned()))
            } else {
                TargetStep::Ready(!file)
            }
        },
        None => {
            if ends_slash {
                TargetStep::Fail(TransferError::RemoteTargetMustBeDir(base.to_owned()))
            } else {
                match parent(base) {
                    Some(p) => TargetStep::LookAtParent(p),
                    None => TargetStep::Fail(
                        TransferError::OperationFailed(cat2("无效远端路径: ", base)),
                    ),
                }
            }
        },
    }
}

/// Decides what a look at the directory above a remote target leads to.
pub fn remote_parent_seen(parent: &str, found: bool) -> (r: TargetStep)
    ensures
        r@ == if found {
            TargetStep::Create
        } else {
            TargetStep::Fail(TransferError::RemoteTargetParentMissing(parent@))
        },
{
    if found {
        TargetStep::Create
    } else {
        TargetStep::Fail(TransferError::RemoteTargetParentMissing(parent.to_owned()))
    }
}

/// Decides what the creation of a remote target leads to.
pub fn remote_target_created(base: &str, failure: Option<String>) -> (r: TargetStep)
    ensures
        r@ == match opt(failure) {
            Some(e) => TargetStep::Fail(TransferError::CreateRemoteDirFailed(base@, e)),
            None => TargetStep::Ready(true),
        },
{
    match failure {
        Some(e) => TargetStep::Fail(TransferError::CreateRemoteDirFailed(base.to_owned(), e)),
        None => TargetStep::Ready(true),
    }
}

/// What a look at a local target leads to.
pub open spec fn local_target_step(
    path: Seq<char>,
    ends_slash: bool,
    found: bool,
    is_dir: bool,
) -> TargetStep<Seq<char>> {
    if ends_slash {
        if found && is_dir {
            TargetStep::Ready(true)
        } else {
            TargetStep::Fail(TransferError::LocalTargetMustBeDir(path))
        }
    } else if found {
        TargetStep::Ready(is_dir)
    } else {
        match parent_of(path) {
            Some(p) => if p.len() > 0 {
                TargetStep::LookAtParent(p)
            } else {
                TargetStep::Create
            },
            None => TargetStep::Create,
        }
    }
}

/// Decides what a look at a local target leads to.
pub fn prepare_local_target(path: &str, ends_slash: bool, found: bool, is_dir: bool) -> (r:
    TargetStep)
    ensures
        r@ == local_target_step(path@, ends_slash, found, is_dir),
{
    if ends_slash {
        if found && is_dir {
            TargetStep::Ready(true)
        } else {
            TargetStep::Fail(TransferError::LocalTargetMustBeDir(path.to_owned()))
        }
    } else if found {
        TargetStep::Ready(is_dir)
    } else {
        match parent(path) {
            Some(p) => {
                if p.as_str().is_empty() {
                    TargetStep::Create
                } else {
                    TargetStep::LookAtParent(p)
                }
            },
            None => TargetStep::Create,
        }
    }
}

/// Decides what a look at the directory above a local target leads to.
pub fn local_parent_seen(parent: &str, is_dir: bool) -> (r: TargetStep)
    ensures
        r@ == if is_dir {
            TargetStep::Create
        } else {
            TargetStep::Fail(TransferError::LocalTargetParentMissing(parent@))
        },
{
    if is_dir {
        TargetStep::Create
    } else {
        TargetStep::Fail(TransferError::LocalTargetParentMissing(parent.to_owned()))
    }
}

/// Decides what the creation of a local target leads to.
pub fn local_target_created(path: &str, failure: Option<String>) -> (r: TargetStep)
    ensures
        r@ == match opt(failure) {
            Some(e) => TargetStep::Fail(TransferError::CreateLocalDirFailed(path@, e)),
            None => TargetStep::Ready(true),
        },
{
    match failure {
        Some(e) => TargetStep::Fail(TransferError::CreateLocalDirFailed(path.to_owned(), e)),
        None => TargetStep::Ready(true),
    }
}

/// A target with a slash at its end is never created: it is a directory that
/// exists, or the transfer fails.
pub proof fn slashed_targets_must_exist(
    path: Seq<char>,
    is_file: Option<bool>,
    found: bool,
    is_dir: bool,
)
    ensures
        remote_target_step(path, true, is_file) == (if is_file == Some(false) {
            TargetStep::Ready(true)
        } else {
            TargetStep::Fail(TransferError::RemoteTargetMustBeDir(path))
        }),
        local_target_step(path, true, found, is_dir) == (if found && is_dir {
            TargetStep::Ready(true)
        } else {
            TargetStep::Fail(TransferError::LocalTargetMustBeDir(path))
        }),
{
}

/// A target that exists is taken as it is, and only a single level is ever
/// created: below a directory that was looked at first, or below the working
/// directory.
pub proof fn existing_targets_are_kept(path: Seq<char>, is_file: bool, is_dir: bool)
    ensures
        remote_target_step(path, false, Some(is_file)) == TargetStep::<Seq<char>>::Ready(!is_file),
        local_target_step(path, false, true, is_dir) == TargetStep::<Seq<char>>::Ready(is_dir),
        !(remote_target_step(path, false, None) is Create),
        local_target_step(path, false, false, is_dir) is Create ==> parent_of(path) is None
            || parent_of(path)->Some_0.len() == 0,
{
}

/// `alias:path` goes to that path on the server that the alias leads to, at the
/// server's address and port; an alias that leads nowhere is named.
pub proof fn routes_lead_to_the_server_of_the_alias(h: Hosts, alias: Seq<char>, path: Seq<char>)
    requires
        alias.len() > 0,
        path.len() > 0,
        crate::text::trim(alias) == alias,
        crate::text::trim(path) == path,
        !alias.contains(':'),
    ensures
        match host(h, alias) {
            Some(server) => route_to(h, alias + seq![':'] + path) matches Ok(route) && route.server
                == server && route.path == path && route.addr == server.address + ":"@ + decimal(
                server.port as nat,
            ),
            None => route_to(h, alias + seq![':'] + path) == Err::<
                Route<Seq<char>>,
                OpError<Seq<char>>,
            >(OpError::Transfer(TransferError::AliasNotFound(alias))),
        },
{
    crate::parse::alias_and_path_read_back(alias, path);
}

/// The local target is the path that was given: an absolute one, one that
/// starts with dots and one on a drive as they stand, any other relative one
/// below the working directory, and `.` for that directory itself.
pub proof fn local_targets_are_the_paths_given(target: Seq<char>, cwd: Seq<char>)
    ensures
        target == "."@ || target == "./"@ ==> local_target(target, cwd) == cwd,
        is_absolute(target) ==> local_target(target, cwd) == target,
        starts_with_drive(target) ==> local_target(target, cwd) == target,
        target != "./"@ && target.len() >= 2 && target[0] == '.' && target[1] == '/'
            ==> local_target(target, cwd) == target,
        target.len() >= 3 && target[0] == '.' && target[1] == '.' && target[2] == '/'
            ==> local_target(target, cwd) == target,
        target == seq!['.', '.'] ==> local_target(target, cwd) == target,
        target.len() > 0 && target[0] != '/' && target[0] != '.' && !starts_with_drive(target)
            ==> local_target(target, cwd) == seq!['.', '/'] + target,
{
    reveal_strlit(".");
    reveal_strlit("./");
    assert("./"@ =~= seq!['.', '/']);
    assert("."@ =~= seq!['.']);
}

/// Where a target does not exist, what is looked at is the directory that it
/// would lie in, on either side.
pub proof fn missing_targets_need_their_directory(dir: Seq<char>, name: Seq<char>, is_dir: bool)
    requires
        dir.len() > 0,
        dir.last() != '/',
        crate::paths::bare(dir) == dir,
        crate::paths::is_step_down(name),
        !name.contains('/'),
    ensures
        remote_target_step(crate::paths::joined(dir, name), false, None)
            == TargetStep::LookAtParent(dir),
        local_target_step(crate::paths::joined(dir, name), false, false, is_dir)
            == TargetStep::LookAtParent(dir),
        local_target_step(name, false, false, is_dir) == TargetStep::<Seq<char>>::Create,
{
    crate::paths::join_then_split(dir, name);
    crate::paths::name_stands_alone(name);
}

// ---------------------------------------------------------------------------
// How many workers
// ---------------------------------------------------------------------------

/// The smaller of two numbers.
pub open spec fn least(a: int, b: int) -> int {
    if a < b {
        a
    } else {
        b
    }
}

/// The larger of two numbers.
pub open spec fn most(a: int, b: int) -> int {
    if a > b {
        a
    } else {
        b
    }
}

/// The number of upload workers: what is asked for, but at least one, and no
/// more than the maximum or than there are entries.
pub fn calc_upload_workers(concurrency: usize, max_allowed_workers: usize, total_entries: usize)
    -> (r: usize)
    ensures
        r == least(
            least(most(1, concurrency as int), max_allowed_workers as int),
            most(1, total_entries as int),
        ),
{
    let mut workers: usize = if concurrency == 0 {
        1
    } else {
        concurrency
    };
    if workers >= max_allowed_workers {
        workers = max_allowed_workers;
    }
    let entries: usize = if total_entries == 0 {
        1
    } else {
        total_entries
    };
    if workers >= entries {
        workers = entries;
    }
    workers
}

/// The number of download workers: what is asked for, or the default, and no
/// more than the maximum.
pub fn calc_download_workers(concurrency: usize, max_allowed_workers: usize) -> (r: usize)
    ensures
        r == least(
            if concurrency == 0 {
                DEFAULT_WORKERS as int
            } else {
                concurrency as int
            },
            max_allowed_workers as int,
        ),
{
    let workers: usize = if concurrency == 0 {
        DEFAULT_WORKERS
    } else {
        concurrency
    };
    if workers < max_allowed_workers {
        workers
    } else {
        max_allowed_workers
    }
}

/// How many connections are set up at a time.
pub const HANDSHAKE_LIMIT: usize = 4;

/// The sizes of a transfer.
#[derive(Debug, Clone, Copy, PartialEq, Eq, Structural)]
pub struct Sizes {
    /// The number of workers that is shown.
    pub shown: usize,
    pub workers: usize,
    /// How many entries wait for workers.
    pub queue: usize,
    /// How many connections are set up at a time.
    pub handshakes: usize,
}

/// The sizes of an upload, where this many workers are asked for or chosen. The
/// queue holds at least one place more than there are entries, up to its
/// largest size, so that the producer does not wait at the end.
pub open spec fn upload_sizes(asked: int, entries: int) -> Sizes {
    let workers = least(least(most(1, asked), MAX_WORKERS as int), most(1, entries));
    Sizes {
        shown: asked as usize,
        workers: workers as usize,
        queue: least(most(4, workers * 4 + 1), most(1, entries + 1)) as usize,
        handshakes: least(workers, HANDSHAKE_LIMIT as int) as usize,
    }
}

fn size_upload(asked: usize, entries: usize) -> (r: Sizes)
    requires
        entries < usize::MAX,
    ensures
        r == upload_sizes(asked as int, entries as int),
{
    let workers = calc_upload_workers(asked, MAX_WORKERS, entries);
    let base: usize = if workers == 0 {
        4
    } else {
        workers * 4 + 1
    };
    let queue: usize = if base < entries + 1 {
        base
    } else {
        entries + 1
    };
    let handshakes: usize = if workers < HANDSHAKE_LIMIT {
        workers
    } else {
        HANDSHAKE_LIMIT
    };
    Sizes { shown: asked, workers, queue, handshakes }
}

/// The number of workers of an upload where none is asked for.
pub open spec fn asked_workers(concurrency: Option<usize>, entries: nat, bytes: nat) -> int {
    match concurrency {
        Some(n) => n as int,
        None => workers_for(root_up(entries), entries, bytes) as int,
    }
}

/// The plan of an upload onto a target. A target that is no directory takes a
/// single file only. Where no number of workers is asked for, one is chosen
/// from the number of entries and their size.
pub open spec fn upload_plan(
    base: Seq<char>,
    target_is_dir: bool,
    entries: nat,
    lone_file: bool,
    total_size: nat,
    concurrency: Option<usize>,
) -> Result<Sizes, TransferError<Seq<char>>> {
    if !target_is_dir && (entries > 1 || entries == 1 && !lone_file) {
        Err(TransferError::RemoteTargetMustBeDir(base))
    } else {
        Ok(upload_sizes(asked_workers(concurrency, entries, total_size), entries as int))
    }
}

/// Plans an upload onto a target. `lone_file` is whether the first entry is a
/// file.
pub fn plan_upload(
    base: &str,
    target_is_dir: bool,
    entries: usize,
    lone_file: bool,
    total_size: u64,
    concurrency: Option<usize>,
) -> (r: Result<Sizes, TransferError>)
    requires
        entries < usize::MAX,
    ensures
        match r {
            Ok(sizes) => upload_plan(
                base@,
                target_is_dir,
                entries as nat,
                lone_file,
                total_size as nat,
                concurrency,
            ) == Ok::<Sizes, TransferError<Seq<char>>>(sizes),
            Err(e) => upload_plan(
                base@,
                target_is_dir,
                entries as nat,
                lone_file,
                total_size as nat,
                concurrency,
            ) == Err::<Sizes, TransferError<Seq<char>>>(e@),
        },
{
    if !target_is_dir && (entries > 1 || entries == 1 && !lone_file) {
        return Err(TransferError::RemoteTargetMustBeDir(base.to_owned()));
    }
    let asked: usize = match concurrency {
        Some(n) => n,
        None => choose_auto_concurrency(entries, total_size),
    };
    Ok(size_upload(asked, entries))
}

/// The sizes of a download.
pub open spec fn download_sizes(concurrency: Option<usize>) -> Sizes {
    let asked: int = match concurrency {
        Some(n) => n as int,
        None => DEFAULT_WORKERS as int,
    };
    let workers = least(
        if asked == 0 {
            DEFAULT_WORKERS as int
        } else {
            asked
        },
        MAX_WORKERS as int,
    );
    Sizes {
        shown: workers as usize,
        workers: workers as usize,
        queue: most(4, asked * 4) as usize,
        handshakes: workers as usize,
    }
}

/// Whether the queue of a download with this many workers can be counted.
pub open spec fn fits_queue(concurrency: Option<usize>) -> bool {
    concurrency matches Some(n) ==> n <= usize::MAX / 4
}

/// The error where a pattern or a directory is to go onto a file.
pub open spec fn no_directory_target() -> TransferError<Seq<char>> {
    TransferError::OperationFailed(
        "目标为文件路径，但源为 glob 或目录递归；请将目标设为目录或去除 glob/尾部/"@,
    )
}

/// The error where a pattern or a directory is to go onto a file.
pub(crate) fn refuse_file_target() -> (r: TransferError)
    ensures
        r@ == no_directory_target(),
{
    TransferError::OperationFailed(
        "目标为文件路径，但源为 glob 或目录递归；请将目标设为目录或去除 glob/尾部/".to_owned(),
    )
}

/// The plan of a download of a remote path to a local target. A target that is
/// no directory takes neither a pattern nor the content of a directory.
pub open spec fn download_plan(
    root: Seq<char>,
    target_is_dir: bool,
    concurrency: Option<usize>,
) -> Result<Sizes, TransferError<Seq<char>>> {
    if !target_is_dir && (has_wildcard(root) || root.len() > 0 && root.last() == '/') {
        Err(no_directory_target())
    } else {
        Ok(download_sizes(concurrency))
    }
}

/// Plans a download of a remote path to a local target.
pub fn plan_download(remote_root: &str, target_is_dir: bool, concurrency: Option<usize>) -> (r:
    Result<Sizes, TransferError>)
    requires
        fits_queue(concurrency),
    ensures
        match r {
            Ok(sizes) => download_plan(remote_root@, target_is_dir, concurrency) == Ok::<
                Sizes,
                TransferError<Seq<char>>,
            >(sizes),
            Err(e) => download_plan(remote_root@, target_is_dir, concurrency) == Err::<
                Sizes,
                TransferError<Seq<char>>,
            >(e@),
        },
{
    if !target_is_dir && (has_glob(remote_root) || ends_with_char(remote_root, '/')) {
        return Err(refuse_file_target());
    }
    let asked: usize = match concurrency {
        Some(n) => n,
        None => DEFAULT_WORKERS,
    };
    let workers = calc_download_workers(asked, MAX_WORKERS);
    let queue: usize = if asked == 0 {
        4
    } else {
        asked * 4
    };
    Ok(Sizes { shown: workers, workers, queue, handshakes: workers })
}

/// However many workers are asked for, there is at least one and there are no
/// more than the maximum, and no more connections are set up at a time than
/// there are workers.
pub proof fn worker_numbers_are_bounded(asked: usize, entries: usize, option: Option<usize>)
    ensures
        1 <= upload_sizes(asked as int, entries as int).workers <= MAX_WORKERS,
        1 <= upload_sizes(asked as int, entries as int).handshakes <= upload_sizes(
            asked as int,
            entries as int,
        ).workers,
        upload_sizes(asked as int, entries as int).handshakes <= HANDSHAKE_LIMIT,
        1 <= download_sizes(option).workers <= MAX_WORKERS,
{
}

/// The workers of an upload are as many as are asked for, as long as that is no
/// more than there are entries and than the maximum; then the queue holds four
/// entries for each of them and one more, or all entries and one more, and as
/// many connections are set up at a time as there are workers, up to a limit.
pub proof fn uploads_get_the_workers_asked_for(
    base: Seq<char>,
    is_dir: bool,
    entries: usize,
    lone_file: bool,
    total_size: nat,
    n: usize,
)
    requires
        entries < usize::MAX,
        is_dir || entries == 1 && lone_file,
    ensures
        upload_plan(base, is_dir, entries as nat, lone_file, total_size, Some(n)) matches Ok(sizes)
            && {
            &&& 1 <= n <= entries && n <= 16 ==> sizes.workers == n
            &&& entries < n ==> sizes.workers <= most(1, entries as int)
            &&& sizes.workers <= 16
            &&& sizes.shown == n
            &&& sizes.queue <= 4 * sizes.workers + 1
            &&& sizes.queue <= entries + 1
            &&& sizes.queue == 4 * sizes.workers + 1 || sizes.queue == entries + 1
            &&& sizes.handshakes == sizes.workers || sizes.handshakes == 4 && sizes.workers > 4
        },
        upload_plan(base, is_dir, entries as nat, lone_file, total_size, None) matches Ok(sizes)
            && sizes.shown == workers_for(root_up(entries as nat), entries as nat, total_size) as usize,
{
}

/// An upload of more than a single file onto a target that is no directory is
/// refused, and the target is named.
pub proof fn uploads_of_many_need_a_directory(
    base: Seq<char>,
    entries: nat,
    lone_file: bool,
    total_size: nat,
    concurrency: Option<usize>,
)
    requires
        entries > 1 || entries == 1 && !lone_file,
    ensures
        upload_plan(base, false, entries, lone_file, total_size, concurrency) == Err::<
            Sizes,
            TransferError<Seq<char>>,
        >(TransferError::RemoteTargetMustBeDir(base)),
        upload_plan(base, true, entries, lone_file, total_size, concurrency) is Ok,
{
}

/// The workers of a download are as many as are asked for, up to the maximum,
/// and the usual number where none or zero is asked for; four entries wait for
/// each that is asked for.
pub proof fn downloads_get_the_workers_asked_for(root: Seq<char>, n: usize)
    requires
        n <= usize::MAX / 4,
    ensures
        download_plan(root, true, Some(n)) matches Ok(sizes) && {
            &&& 1 <= n <= 16 ==> sizes.workers == n
            &&& n > 16 ==> sizes.workers == 16
            &&& n == 0 ==> sizes.workers == 8
            &&& n >= 1 ==> sizes.queue == 4 * n
            &&& n == 0 ==> sizes.queue == 4
            &&& sizes.shown == sizes.workers
        },
        download_plan(root, true, None) matches Ok(sizes) && sizes.workers == 8 && sizes.queue == 32,
{
}

// ---------------------------------------------------------------------------
// The end of a transfer
// ---------------------------------------------------------------------------

/// What is told at the end of a transfer.
pub struct Finish {
    /// Whether the summary for people is printed.
    pub summary: bool,
    /// A line for people about the file of failures.
    pub notice: Option<String>,
    /// A warning that the file of failures could not be written.
    pub warning: Option<String>,
    /// The members of the summary for programs, except for the time.
    pub fields: Option<Vec<(String, JsonField)>>,
}

/// What became of the file of failures.
pub enum Written<S = String> {
    /// There were no failures to write.
    Nothing,
    /// It was written, at this path.
    At(S),
    /// It could not be written: the path and the reason.
    Failed(S, S),
}

impl View for Written<String> {
    type V = Written<Seq<char>>;

    open spec fn view(&self) -> Written<Seq<char>> {
        match self {
            Written::Nothing => Written::Nothing,
            Written::At(p) => Written::At(p@),
            Written::Failed(p, e) => Written::Failed(p@, e@),
        }
    }
}

/// The members of the summary for programs, except for the time.
pub open spec fn summary_record(
    total_bytes: u64,
    files: u64,
    metrics: WorkerMetrics,
    failures: u64,
    written: Written<Seq<char>>,
) -> Seq<(Seq<char>, JsonField<Seq<char>>)> {
    let figures = seq![
        ("total_bytes"@, JsonField::Count(total_bytes)),
        ("files"@, JsonField::Count(files)),
        ("session_rebuilds"@, JsonField::Count(metrics.session_rebuilds as u64)),
        ("sftp_rebuilds"@, JsonField::Count(metrics.sftp_rebuilds as u64)),
        ("failures"@, JsonField::Count(failures)),
    ];
    match written {
        Written::At(p) => figures.push(("failures_path"@, JsonField::Text(p))),
        _ => figures,
    }
}

fn count_field(name: &str, n: u64) -> (r: (String, JsonField))
    ensures
        r.0@ == name@,
        r.1@ == JsonField::<Seq<char>>::Count(n),
{
    (name.to_owned(), JsonField::Count(n))
}

/// Decides what is told at the end of a transfer. A quiet run tells people
/// nothing, but a failure to write the file of failures is always told, and
/// programs get their summary where it was asked for.
pub fn finalize_transfer(
    quiet: bool,
    json: bool,
    total_bytes: u64,
    files: u64,
    metrics: WorkerMetrics,
    failures: u64,
    written: Written,
) -> (r: Finish)
    ensures
        r.summary == !quiet,
        opt(r.notice) == match written@ {
            Written::At(p) => if quiet {
                None
            } else {
                Some("失败清单已写入: "@ + p)
            },
            _ => None,
        },
        opt(r.warning) == match written@ {
            Written::Failed(p, e) => Some(
                "warning: could not write failures to "@ + p + ": "@ + e,
            ),
            _ => None,
        },
        match r.fields {
            Some(f) => json && fields_of(f@) == summary_record(
                total_bytes,
                files,
                metrics,
                failures,
                written@,
            ),
            None => !json,
        },
{
    let notice = match &written {
        Written::At(p) => if quiet {
            None
        } else {
            Some(cat2("失败清单已写入: ", p.as_str()))
        },
        _ => None,
    };
    let warning = match &written {
        Written::Failed(p, e) => Some(
            cat4("warning: could not write failures to ", p.as_str(), ": ", e.as_str()),
        ),
        _ => None,
    };
    let ghost outcome = written@;
    let fields = if json {
        let mut v: Vec<(String, JsonField)> = Vec::new();
        v.push(count_field("total_bytes", total_bytes));
        v.push(count_field("files", files));
        v.push(count_field("session_rebuilds", metrics.session_rebuilds as u64));
        v.push(count_field("sftp_rebuilds", metrics.sftp_rebuilds as u64));
        v.push(count_field("failures", failures));
        if let Written::At(p) = written {
            v.push(("failures_path".to_owned(), JsonField::Text(p)));
        }
        proof {
            assert(fields_of(v@) =~= summary_record(
                total_bytes,
                files,
                metrics,
                failures,
                outcome,
            ));
        }
        Some(v)
    } else {
        None
    };
    Finish { summary: !quiet, notice, warning, fields }
}

/// The summary for programs holds the bytes, the files, how often sessions and
/// channels were built and the failures, each under its name and once, and
/// where the failures were written exactly where they were.
pub proof fn summaries_hold_the_figures(
    total_bytes: u64,
    files: u64,
    metrics: WorkerMetrics,
    failures: u64,
    written: Written<Seq<char>>,
)
    ensures
        ({
            let record = summary_record(total_bytes, files, metrics, failures, written);
            &&& record.contains(("total_bytes"@, JsonField::Count(total_bytes)))
            &&& record.contains(("files"@, JsonField::Count(files)))
            &&& record.contains(
                ("session_rebuilds"@, JsonField::Count(metrics.session_rebuilds as u64)),
            )
            &&& record.contains(("sftp_rebuilds"@, JsonField::Count(metrics.sftp_rebuilds as u64)))
            &&& record.contains(("failures"@, JsonField::Count(failures)))
            &&& written matches Written::At(p) ==> record.contains(
                ("failures_path"@, JsonField::Text(p)),
            )
            &&& record.len() == if written is At {
                6int
            } else {
                5
            }
        }),
{
    let record = summary_record(total_bytes, files, metrics, failures, written);
    assert(record[0] == ("total_bytes"@, JsonField::<Seq<char>>::Count(total_bytes)));
    assert(record[1] == ("files"@, JsonField::<Seq<char>>::Count(files)));
    assert(record[2] == (
        "session_rebuilds"@,
        JsonField::<Seq<char>>::Count(metrics.session_rebuilds as u64),
    ));
    assert(record[3] == (
        "sftp_rebuilds"@,
        JsonField::<Seq<char>>::Count(metrics.sftp_rebuilds as u64),
    ));
    assert(record[4] == ("failures"@, JsonField::<Seq<char>>::Count(failures)));
    if let Written::At(p) = written {
        assert(record[5] == ("failures_path"@, JsonField::Text(p)));
    }
}

} // verus!
