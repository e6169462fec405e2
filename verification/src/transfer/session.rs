//! Sessions: the remote home, the keys that are tried, what a failure to
//! connect means, and when a worker needs a session or a channel.
use vstd::prelude::*;
use vstd::string::*;

use crate::error::{OpError, TransferError};
use crate::paths::{is_absolute, join, joined};
use crate::server::Server;
use crate::text::{
    cat3, first_line, line_one, starts_with_char, strip_end, strip_start, texts, trim, trimmed,
    without_end, without_start,
};

verus! {

// ---------------------------------------------------------------------------
// The remote home
// ---------------------------------------------------------------------------

/// The home directory that a server printed; a tilde where it printed nothing.
pub open spec fn printed_home(output: Seq<char>) -> Seq<char> {
    match first_line(output) {
        Some(line) => trim(line),
        None => trim("~"@),
    }
}

/// A remote path with the home directory written out. An absolute path stays
/// as it is; any other lies below the home.
pub open spec fn expanded(output: Seq<char>, path: Seq<char>) -> Seq<char> {
    let home = printed_home(output);
    let tail = strip_start(strip_start(path, '~'), '/');
    if is_absolute(path) {
        path
    } else if tail.len() == 0 {
        home
    } else {
        strip_end(home, '/') + "/"@ + tail
    }
}

/// Writes out the home directory in a remote path, from what the server
/// printed as its home.
pub fn expand_remote_tilde(output: &str, path: &str) -> (r: String)
    ensures
        r@ == expanded(output@, path@),
{
    if starts_with_char(path, '/') {
        return path.to_owned();
    }
    let home = match line_one(output) {
        Some(line) => trimmed(line.as_str()),
        None => trimmed("~"),
    };
    let tail = without_start(without_start(path, '~').as_str(), '/');
    if tail.as_str().is_empty() {
        home
    } else {
        cat3(without_end(home.as_str(), '/').as_str(), "/", tail.as_str())
    }
}

/// `~` and `~/` stand for the home directory itself.
pub proof fn tilde_is_home(output: Seq<char>)
    ensures
        expanded(output, seq!['~']) == printed_home(output),
        expanded(output, seq!['~', '/']) == printed_home(output),
{
    let a = seq!['~'];
    let b = seq!['~', '/'];
    crate::text::lemma_strip_start_is(a, '~', 1);
    crate::text::lemma_strip_start_is(b, '~', 1);
    assert(a.skip(1) =~= Seq::<char>::empty());
    assert(b.skip(1) =~= seq!['/']);
    crate::text::lemma_strip_start_is(Seq::<char>::empty(), '/', 0);
    assert(Seq::<char>::empty().skip(0) =~= Seq::<char>::empty());
    crate::text::lemma_strip_start_is(seq!['/'], '/', 1);
    assert(seq!['/'].skip(1) =~= Seq::<char>::empty());
}

/// A path below the tilde lies below the home directory.
pub proof fn path_below_tilde_is_below_home(output: Seq<char>, rel: Seq<char>)
    requires
        rel.len() > 0,
        rel[0] != '/',
    ensures
        expanded(output, seq!['~', '/'] + rel) == strip_end(printed_home(output), '/') + "/"@ + rel,
{
    let p = seq!['~', '/'] + rel;
    crate::text::lemma_strip_start_is(p, '~', 1);
    assert(p.skip(1) =~= seq!['/'] + rel);
    crate::text::lemma_strip_start_is(seq!['/'] + rel, '/', 1);
    assert((seq!['/'] + rel).skip(1) =~= rel);
}

/// An absolute remote path stays as it is, and any other lies below the home,
/// whether it is written with a tilde or without one.
pub proof fn relative_paths_are_below_home(output: Seq<char>, path: Seq<char>)
    requires
        path.len() > 0,
    ensures
        path[0] == '/' ==> expanded(output, path) == path,
        path[0] != '/' && path[0] != '~' ==> expanded(output, path) == strip_end(
            printed_home(output),
            '/',
        ) + "/"@ + path,
        path[0] != '/' && path[0] != '~' ==> expanded(output, path) == expanded(
            output,
            seq!['~', '/'] + path,
        ),
{
    if path[0] != '/' && path[0] != '~' {
        crate::text::lemma_strip_start_is(path, '~', 0);
        assert(path.skip(0) =~= path);
        crate::text::lemma_strip_start_is(path, '/', 0);
        path_below_tilde_is_below_home(output, path);
    }
}

/// The home is the first line that the server prints, without white space
/// around it, whatever follows.
pub proof fn home_is_the_first_line(home: Seq<char>, rest: Seq<char>)
    requires
        home.len() > 0,
        trim(home) == home,
        !home.contains('\n'),
        home.last() != '\r',
    ensures
        printed_home(home + seq!['\n'] + rest) == home,
        printed_home(home) == home,
{
    let s = home + seq!['\n'] + rest;
    assert forall|j: int| 0 <= j < home.len() implies s[j] != '\n' && home[j] != '\n' by {
        assert(s[j] == home[j]);
        assert(home.contains(home[j]));
    }
    crate::text::lemma_first_pos_is(s, '\n', home.len() as int);
    assert(s.take(home.len() as int) =~= home);
    crate::text::lemma_first_pos_is(home, '\n', home.len() as int);
    assert(home.take(home.len() as int) =~= home);
}

// ---------------------------------------------------------------------------
// Keys
// ---------------------------------------------------------------------------

/// The keys that are tried, in this order.
pub open spec fn key_files(home: Seq<char>) -> Seq<Seq<char>> {
    let dir = joined(home, ".ssh"@);
    seq![joined(dir, "id_ed25519"@), joined(dir, "id_rsa"@), joined(dir, "id_ecdsa"@)]
}

/// The keys that are tried are three files in the directory for keys below the
/// home.
pub proof fn keys_lie_below_home(home: Seq<char>)
    requires
        home.len() > 0,
        home.last() != '/',
    ensures
        key_files(home).len() == 3,
        key_files(home)[0] == home + "/.ssh/id_ed25519"@,
        key_files(home)[1] == home + "/.ssh/id_rsa"@,
        key_files(home)[2] == home + "/.ssh/id_ecdsa"@,
{
    reveal_strlit(".ssh");
    reveal_strlit("id_ed25519");
    reveal_strlit("id_rsa");
    reveal_strlit("id_ecdsa");
    reveal_strlit("/.ssh/id_ed25519");
    reveal_strlit("/.ssh/id_rsa");
    reveal_strlit("/.ssh/id_ecdsa");
    let dir = joined(home, ".ssh"@);
    assert(dir.last() == 'h');
    assert(key_files(home)[0] =~= home + "/.ssh/id_ed25519"@);
    assert(key_files(home)[1] =~= home + "/.ssh/id_rsa"@);
    assert(key_files(home)[2] =~= home + "/.ssh/id_ecdsa"@);
}

/// The trial of keys, one after the other.
pub struct KeyTrial {
    keys: Vec<String>,
    tried: usize,
}

impl KeyTrial {
    /// The keys that are left to try.
    pub closed spec fn left(self) -> Seq<Seq<char>> {
        texts(self.keys@).skip(self.tried as int)
    }

    pub closed spec fn wf(self) -> bool {
        self.tried <= self.keys.len()
    }

    /// Without a home directory there is no key to try.
    pub fn new(home: Option<&str>) -> (r: Self)
        ensures
            r.wf(),
            r.left() == match home {
                Some(h) => key_files(h@),
                None => Seq::empty(),
            },
    {
        let mut keys: Vec<String> = Vec::new();
        if let Some(h) = home {
            let dir = join(h, ".ssh");
            keys.push(join(dir.as_str(), "id_ed25519"));
            keys.push(join(dir.as_str(), "id_rsa"));
            keys.push(join(dir.as_str(), "id_ecdsa"));
        }
        let r = KeyTrial { keys, tried: 0 };
        proof {
            match home {
                Some(h) => {
                    assert(r.left() =~= key_files(h@));
                },
                None => {
                    assert(r.left() =~= Seq::<Seq<char>>::empty());
                },
            }
        }
        r
    }

    /// The next key to try, where the server has not let us in yet.
    pub fn next(&mut self, authenticated: bool) -> (r: Option<String>)
        requires
            old(self).wf(),
        ensures
            final(self).wf(),
            match r {
                Some(key) => !authenticated && old(self).left().len() > 0 && key@ == old(
                    self,
                ).left()[0] && final(self).left() == old(self).left().drop_first(),
                None => (authenticated || old(self).left().len() == 0) && final(self).left()
                    == old(self).left(),
            },
    {
        if authenticated || self.tried >= self.keys.len() {
            return None;
        }
        let ghost before = self.left();
        let key = self.keys[self.tried].clone();
        self.tried = self.tried + 1;
        proof {
            assert(self.left() =~= before.drop_first());
        }
        Some(key)
    }
}

// ---------------------------------------------------------------------------
// Failures to connect
// ---------------------------------------------------------------------------

/// Where setting up a session failed.
pub enum ConnectFailure<S = String> {
    /// The address could not be looked up.
    Lookup(S),
    /// The address stands for no host.
    NoAddress,
    /// The host could not be reached.
    Reach(S),
    /// No session could be made.
    Session,
    Handshake,
    /// The server refused the keys.
    Keys,
}

impl View for ConnectFailure<String> {
    type V = ConnectFailure<Seq<char>>;

    open spec fn view(&self) -> ConnectFailure<Seq<char>> {
        match self {
            ConnectFailure::Lookup(e) => ConnectFailure::Lookup(e@),
            ConnectFailure::NoAddress => ConnectFailure::NoAddress,
            ConnectFailure::Reach(e) => ConnectFailure::Reach(e@),
            ConnectFailure::Session => ConnectFailure::Session,
            ConnectFailure::Handshake => ConnectFailure::Handshake,
            ConnectFailure::Keys => ConnectFailure::Keys,
        }
    }
}

/// The error of a failure to connect to an address.
pub open spec fn connect_error(addr: Seq<char>, failure: ConnectFailure<Seq<char>>) -> OpError<
    Seq<char>,
> {
    match failure {
        ConnectFailure::Lookup(e) | ConnectFailure::Reach(e) => OpError::Other(e),
        ConnectFailure::NoAddress => OpError::Transfer(TransferError::SshNoAddress(addr)),
        ConnectFailure::Session => OpError::Transfer(TransferError::SshSessionCreateFailed(addr)),
        ConnectFailure::Handshake => OpError::Transfer(TransferError::SshHandshakeFailed(addr)),
        ConnectFailure::Keys => OpError::Transfer(TransferError::SshAuthFailed(addr)),
    }
}

/// Finds the error of a failure to connect to an address.
pub fn connect_session(addr: &str, failure: ConnectFailure) -> (r: OpError)
    ensures
        r@ == connect_error(addr@, failure@),
{
    match failure {
        ConnectFailure::Lookup(e) | ConnectFailure::Reach(e) => OpError::Other(e),
        ConnectFailure::NoAddress => OpError::Transfer(
            TransferError::SshNoAddress(addr.to_owned()),
        ),
        ConnectFailure::Session => OpError::Transfer(
            TransferError::SshSessionCreateFailed(addr.to_owned()),
        ),
        ConnectFailure::Handshake => OpError::Transfer(
            TransferError::SshHandshakeFailed(addr.to_owned()),
        ),
        ConnectFailure::Keys => OpError::Transfer(TransferError::SshAuthFailed(addr.to_owned())),
    }
}

/// The error of a worker's failure to connect to its server.
pub open spec fn worker_connect_error(
    addr: Seq<char>,
    failure: ConnectFailure<Seq<char>>,
) -> OpError<Seq<char>> {
    OpError::Transfer(
        match failure {
            ConnectFailure::Handshake => TransferError::SshHandshakeFailed(addr),
            ConnectFailure::Keys => TransferError::SshAuthFailed(addr),
            _ => TransferError::WorkerBuildSessionFailed(addr),
        },
    )
}

/// Finds the error of a worker's failure to connect to its server.
pub fn ensure_worker_session(addr: &str, failure: ConnectFailure) -> (r: OpError)
    ensures
        r@ == worker_connect_error(addr@, failure@),
{
    match failure {
        ConnectFailure::Handshake => OpError::Transfer(
            TransferError::SshHandshakeFailed(addr.to_owned()),
        ),
        ConnectFailure::Keys => OpError::Transfer(TransferError::SshAuthFailed(addr.to_owned())),
        _ => OpError::Transfer(TransferError::WorkerBuildSessionFailed(addr.to_owned())),
    }
}

/// A download worker tries again to connect, whatever the reason was that it
/// failed, unless the server refused the keys.
pub proof fn worker_connection_failures_are_retried(
    addr: Seq<char>,
    failure: ConnectFailure<Seq<char>>,
)
    ensures
        crate::util::worth_retrying(
            worker_connect_error(addr, failure),
            crate::util::RetryPhase::PreTransfer,
        ) <==> !(failure is Keys),
        failure is Keys ==> !crate::util::worth_retrying(
            worker_connect_error(addr, failure),
            crate::util::RetryPhase::DuringTransfer,
        ),
{
}

// ---------------------------------------------------------------------------
// A worker's session and channel
// ---------------------------------------------------------------------------

/// What a worker has of its connection, and how often it had to be built.
#[derive(Debug, Clone, Copy, PartialEq, Eq, Structural)]
pub struct Connection {
    pub session: bool,
    pub channel: bool,
    pub session_rebuilds: u32,
    pub sftp_rebuilds: u32,
}

/// What a worker needs before it can transfer.
#[derive(Debug, Clone, Copy, PartialEq, Eq, Structural)]
pub enum ConnectionNeed {
    Session,
    Channel,
    Nothing,
}

impl Connection {
    pub fn new() -> (r: Self)
        ensures
            r == (Connection {
                session: false,
                channel: false,
                session_rebuilds: 0,
                sftp_rebuilds: 0,
            }),
    {
        Connection { session: false, channel: false, session_rebuilds: 0, sftp_rebuilds: 0 }
    }

    /// A session comes before a channel on it.
    pub open spec fn needs(self) -> ConnectionNeed {
        if !self.session {
            ConnectionNeed::Session
        } else if !self.channel {
            ConnectionNeed::Channel
        } else {
            ConnectionNeed::Nothing
        }
    }

    /// What is needed next.
    pub fn ensure_session_and_sftp(&self) -> (r: ConnectionNeed)
        ensures
            r == self.needs(),
    {
        if !self.session {
            ConnectionNeed::Session
        } else if !self.channel {
            ConnectionNeed::Channel
        } else {
            ConnectionNeed::Nothing
        }
    }

    /// Takes in that a session was built.
    pub fn session_built(&mut self)
        requires
            !old(self).session,
            old(self).session_rebuilds < u32::MAX,
        ensures
            *final(self) == (Connection {
                session: true,
                session_rebuilds: (old(self).session_rebuilds + 1) as u32,
                ..*old(self)
            }),
    {
        self.session = true;
        self.session_rebuilds = self.session_rebuilds + 1;
    }

    /// Takes in that a channel was opened.
    pub fn channel_built(&mut self)
        requires
            !old(self).channel,
            old(self).sftp_rebuilds < u32::MAX,
        ensures
            *final(self) == (Connection {
                channel: true,
                sftp_rebuilds: (old(self).sftp_rebuilds + 1) as u32,
                ..*old(self)
            }),
    {
        self.channel = true;
        self.sftp_rebuilds = self.sftp_rebuilds + 1;
    }

    /// Takes in that the channel was dropped.
    pub fn drop_channel(&mut self)
        ensures
            *final(self) == (Connection { channel: false, ..*old(self) }),
    {
        self.channel = false;
    }

    /// Takes in that the channel and the session were dropped.
    pub fn drop_both(&mut self)
        ensures
            *final(self) == (Connection { session: false, channel: false, ..*old(self) }),
    {
        self.channel = false;
        self.session = false;
    }
}

/// A worker asks for a session first, then for a channel on it, and for nothing
/// once it has both.
pub proof fn connections_are_built_in_order(c: Connection)
    ensures
        c.needs() is Session <==> !c.session,
        c.needs() is Channel <==> c.session && !c.channel,
        c.needs() is Nothing <==> c.session && c.channel,
{
}

/// The alias of a server in messages.
pub open spec fn shown_alias(server: Server<Seq<char>>) -> Seq<char> {
    match server.alias {
        Some(a) => a,
        None => "<unknown>"@,
    }
}

/// The alias of a server in messages.
pub fn alias_of(server: &Server) -> (r: String)
    ensures
        r@ == shown_alias(server@),
{
    match &server.alias {
        Some(a) => a.clone(),
        None => "<unknown>".to_owned(),
    }
}

/// A failure to connect says what went wrong and names the address; what the
/// network itself says is handed on.
pub proof fn connection_failures_are_told(addr: Seq<char>, failure: ConnectFailure<Seq<char>>)
    ensures
        failure matches ConnectFailure::Lookup(e) ==> connect_error(addr, failure).text() == e,
        failure matches ConnectFailure::Reach(e) ==> connect_error(addr, failure).text() == e,
        !(failure is Lookup) && !(failure is Reach) ==> crate::text::has_part(
            connect_error(addr, failure).text(),
            addr,
        ),
        failure is Keys <==> connect_error(addr, failure) == OpError::Transfer(
            TransferError::SshAuthFailed(addr),
        ),
        failure is Handshake <==> connect_error(addr, failure) == OpError::Transfer(
            TransferError::SshHandshakeFailed(addr),
        ),
        failure is NoAddress <==> connect_error(addr, failure) == OpError::Transfer(
            TransferError::SshNoAddress(addr),
        ),
        failure is Session <==> connect_error(addr, failure) == OpError::Transfer(
            TransferError::SshSessionCreateFailed(addr),
        ),
        failure is Keys <==> worker_connect_error(addr, failure) == OpError::Transfer(
            TransferError::SshAuthFailed(addr),
        ),
        failure is Handshake <==> worker_connect_error(addr, failure) == OpError::Transfer(
            TransferError::SshHandshakeFailed(addr),
        ),
        worker_connect_error(addr, failure) matches OpError::Transfer(_),
        crate::text::has_part(worker_connect_error(addr, failure).text(), addr),
{
    let t = connect_error(addr, failure).text();
    let w = worker_connect_error(addr, failure).text();
    if !(failure is Lookup) && !(failure is Reach) {
        let k = t.len() - addr.len();
        assert(t.subrange(k, k + addr.len()) =~= addr);
    }
    let k = w.len() - addr.len();
    assert(w.subrange(k, k + addr.len()) =~= addr);
}

/// A worker is known in messages by its server's alias.
pub proof fn aliases_are_shown(server: Server<Seq<char>>)
    ensures
        server.alias matches Some(a) ==> shown_alias(server) == a,
{
}

} // verus!
