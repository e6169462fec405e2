//! Reading `user@host[:port]` and `alias:path`.
use vstd::prelude::*;
use vstd::string::*;

use crate::number::{decimal, decimal_reads_back, is_digit, parse_u16, read_up_to};
use crate::text::{
    cat2, find_char, first_pos, last_pos, lemma_first_pos_is, lemma_last_pos_is, rfind_char,
    text_of, to_chars, trim, trimmed,
};

verus! {

/// Why a text could not be read.
#[derive(Debug, Clone)]
pub enum ParseError<S = String> {
    /// There is no `@` in a host specification.
    MissingUser,
    /// The user or the host is empty.
    EmptyUserOrHost,
    /// What follows the last colon is not a port.
    InvalidPort(S),
    /// The alias or the path is empty.
    EmptyAliasOrPath,
    /// There is no colon between alias and path.
    MissingColon,
}

impl View for ParseError<String> {
    type V = ParseError<Seq<char>>;

    open spec fn view(&self) -> ParseError<Seq<char>> {
        match self {
            ParseError::MissingUser => ParseError::MissingUser,
            ParseError::EmptyUserOrHost => ParseError::EmptyUserOrHost,
            ParseError::InvalidPort(p) => ParseError::InvalidPort(p@),
            ParseError::EmptyAliasOrPath => ParseError::EmptyAliasOrPath,
            ParseError::MissingColon => ParseError::MissingColon,
        }
    }
}

impl ParseError<Seq<char>> {
    /// The message for the user.
    pub open spec fn text(self) -> Seq<char> {
        match self {
            ParseError::MissingUser => "缺少用户名，例如 user@host[:port]"@,
            ParseError::EmptyUserOrHost => "用户名或主机为空"@,
            ParseError::InvalidPort(p) => "端口无效: "@ + p,
            ParseError::EmptyAliasOrPath => "别名或路径为空"@,
            ParseError::MissingColon => "未找到分隔符 ':'"@,
        }
    }
}

impl ParseError {
    /// The message for the user.
    pub fn message(&self) -> (r: String)
        ensures
            r@ == self@.text(),
    {
        match self {
            ParseError::MissingUser => "缺少用户名，例如 user@host[:port]".to_owned(),
            ParseError::EmptyUserOrHost => "用户名或主机为空".to_owned(),
            ParseError::InvalidPort(p) => cat2("端口无效: ", p.as_str()),
            ParseError::EmptyAliasOrPath => "别名或路径为空".to_owned(),
            ParseError::MissingColon => "未找到分隔符 ':'".to_owned(),
        }
    }
}

/// The port of a host specification that names none.
pub const DEFAULT_PORT: u16 = 22;

/// Host and port of what follows the `@`: the last colon parts them, and
/// without a colon the port is the default one.
pub open spec fn host_and_port(s: Seq<char>) -> Result<(Seq<char>, nat), ParseError<Seq<char>>> {
    let colon = last_pos(s, ':');
    if colon < 0 {
        Ok((s, DEFAULT_PORT as nat))
    } else {
        let port = s.skip(colon + 1);
        match read_up_to(port, u16::MAX as nat) {
            Some(n) => Ok((s.take(colon), n)),
            None => Err(ParseError::InvalidPort(port)),
        }
    }
}

/// User, host and port of `user@host[:port]`. The first `@` ends the user,
/// around whom white space does not count.
pub open spec fn remote_host(s: Seq<char>) -> Result<
    (Seq<char>, Seq<char>, nat),
    ParseError<Seq<char>>,
> {
    let at = first_pos(s, '@') as int;
    if at >= s.len() {
        Err(ParseError::MissingUser)
    } else {
        let user = trim(s.take(at));
        let rest = s.skip(at + 1);
        if user.len() == 0 || rest.len() == 0 {
            Err(ParseError::EmptyUserOrHost)
        } else {
            match host_and_port(rest) {
                Ok((host, port)) => Ok((user, host, port)),
                Err(e) => Err(e),
            }
        }
    }
}

/// Alias and path of `alias:path`, parted at the first colon, each without
/// white space around it.
pub open spec fn alias_and_path(s: Seq<char>) -> Result<
    (Seq<char>, Seq<char>),
    ParseError<Seq<char>>,
> {
    let colon = first_pos(s, ':') as int;
    if colon >= s.len() {
        Err(ParseError::MissingColon)
    } else {
        let alias = trim(s.take(colon));
        let path = trim(s.skip(colon + 1));
        if alias.len() == 0 || path.len() == 0 {
            Err(ParseError::EmptyAliasOrPath)
        } else {
            Ok((alias, path))
        }
    }
}

/// Reads `user@host[:port]`.
pub fn parse_remote_host(input: &str) -> (r: Result<(String, String, u16), ParseError>)
    ensures
        match r {
            Ok((user, host, port)) => remote_host(input@) == Ok::<
                (Seq<char>, Seq<char>, nat),
                ParseError<Seq<char>>,
            >((user@, host@, port as nat)),
            Err(e) => remote_host(input@) == Err::<
                (Seq<char>, Seq<char>, nat),
                ParseError<Seq<char>>,
            >(e@),
        },
{
    let v = to_chars(input);
    let at = find_char(&v, '@');
    if at >= v.len() {
        return Err(ParseError::MissingUser);
    }
    let head = text_of(&v, 0, at);
    let rest = text_of(&v, at + 1, v.len());
    proof {
        assert(v@.subrange(0, at as int) =~= v@.take(at as int));
        assert(v@.subrange(at + 1, v@.len() as int) =~= v@.skip(at + 1));
    }
    let user = trimmed(head.as_str());
    if user.as_str().is_empty() || rest.as_str().is_empty() {
        return Err(ParseError::EmptyUserOrHost);
    }
    let w = to_chars(rest.as_str());
    match rfind_char(&w, ':') {
        Some(colon) => {
            let host = text_of(&w, 0, colon);
            let port_text = text_of(&w, colon + 1, w.len());
            proof {
                assert(w@.subrange(0, colon as int) =~= w@.take(colon as int));
                assert(w@.subrange(colon + 1, w@.len() as int) =~= w@.skip(colon + 1));
            }
            match parse_u16(port_text.as_str()) {
                Some(port) => Ok((user, host, port)),
                None => Err(ParseError::InvalidPort(port_text)),
            }
        },
        None => Ok((user, rest, DEFAULT_PORT)),
    }
}

/// Reads `alias:path`.
pub fn parse_alias_and_path(input: &str) -> (r: Result<(String, String), ParseError>)
    ensures
        match r {
            Ok((alias, path)) => alias_and_path(input@) == Ok::<
                (Seq<char>, Seq<char>),
                ParseError<Seq<char>>,
            >((alias@, path@)),
            Err(e) => alias_and_path(input@) == Err::<
                (Seq<char>, Seq<char>),
                ParseError<Seq<char>>,
            >(e@),
        },
{
    let v = to_chars(input);
    let colon = find_char(&v, ':');
    if colon >= v.len() {
        return Err(ParseError::MissingColon);
    }
    let head = text_of(&v, 0, colon);
    let rest = text_of(&v, colon + 1, v.len());
    proof {
        assert(v@.subrange(0, colon as int) =~= v@.take(colon as int));
        assert(v@.subrange(colon + 1, v@.len() as int) =~= v@.skip(colon + 1));
    }
    let alias = trimmed(head.as_str());
    let path = trimmed(rest.as_str());
    if alias.as_str().is_empty() || path.as_str().is_empty() {
        Err(ParseError::EmptyAliasOrPath)
    } else {
        Ok((alias, path))
    }
}

/// Reading `user@host:port` gives back the user, the host and the port that
/// it was written with. The user holds no `@` and has no white space around;
/// the host may be any text.
pub proof fn host_with_port_reads_back(user: Seq<char>, host: Seq<char>, port: u16)
    requires
        user.len() > 0,
        trim(user) == user,
        !user.contains('@'),
    ensures
        remote_host(user + seq!['@'] + host + seq![':'] + decimal(port as nat)) == Ok::<
            (Seq<char>, Seq<char>, nat),
            ParseError<Seq<char>>,
        >((user, host, port as nat)),
{
    let p = decimal(port as nat);
    let s = user + seq!['@'] + host + seq![':'] + p;
    let rest = host + seq![':'] + p;
    assert forall|j: int| 0 <= j < user.len() implies s[j] != '@' by {
        assert(s[j] == user[j]);
        assert(user.contains(user[j]));
    }
    lemma_first_pos_is(s, '@', user.len() as int);
    assert(s.take(user.len() as int) =~= user);
    assert(s.skip(user.len() as int + 1) =~= rest);
    decimal_reads_back(port as nat);
    assert forall|j: int| host.len() < j < rest.len() implies rest[j] != ':' by {
        assert(rest[j] == p[j - host.len() - 1]);
        assert(is_digit(p[j - host.len() - 1]));
    }
    lemma_last_pos_is(rest, ':', host.len() as int);
    assert(rest.take(host.len() as int) =~= host);
    assert(rest.skip(host.len() as int + 1) =~= p);
}

/// Reading `user@host` with no colon in the host gives the default port.
pub proof fn host_without_port_gets_the_default(user: Seq<char>, host: Seq<char>)
    requires
        user.len() > 0,
        trim(user) == user,
        !user.contains('@'),
        host.len() > 0,
        !host.contains(':'),
    ensures
        remote_host(user + seq!['@'] + host) == Ok::<
            (Seq<char>, Seq<char>, nat),
            ParseError<Seq<char>>,
        >((user, host, DEFAULT_PORT as nat)),
{
    let s = user + seq!['@'] + host;
    assert forall|j: int| 0 <= j < user.len() implies s[j] != '@' by {
        assert(s[j] == user[j]);
        assert(user.contains(user[j]));
    }
    lemma_first_pos_is(s, '@', user.len() as int);
    assert(s.take(user.len() as int) =~= user);
    assert(s.skip(user.len() as int + 1) =~= host);
    assert forall|j: int| -1 < j < host.len() implies host[j] != ':' by {
        assert(host.contains(host[j]));
    }
    lemma_last_pos_is(host, ':', -1);
}

/// Reading `alias:path` gives back the alias and the path that it was written
/// with. The alias holds no colon; neither has white space around it.
pub proof fn alias_and_path_read_back(alias: Seq<char>, path: Seq<char>)
    requires
        alias.len() > 0,
        path.len() > 0,
        trim(alias) == alias,
        trim(path) == path,
        !alias.contains(':'),
    ensures
        alias_and_path(alias + seq![':'] + path) == Ok::<
            (Seq<char>, Seq<char>),
            ParseError<Seq<char>>,
        >((alias, path)),
{
    let s = alias + seq![':'] + path;
    assert forall|j: int| 0 <= j < alias.len() implies s[j] != ':' by {
        assert(s[j] == alias[j]);
        assert(alias.contains(alias[j]));
    }
    lemma_first_pos_is(s, ':', alias.len() as int);
    assert(s.take(alias.len() as int) =~= alias);
    assert(s.skip(alias.len() as int + 1) =~= path);
}

/// A specification of a server is refused for its first fault: where no `@`
/// ends the user, where nothing but white space stands before it or nothing
/// behind it, and where what follows the last colon is no port. That is named.
pub proof fn faulty_hosts_are_refused(user: Seq<char>, host: Seq<char>, port: Seq<char>)
    requires
        !user.contains('@'),
    ensures
        remote_host(user) == Err::<(Seq<char>, Seq<char>, nat), ParseError<Seq<char>>>(
            ParseError::MissingUser,
        ),
        trim(user).len() == 0 ==> remote_host(user + seq!['@'] + host) == Err::<
            (Seq<char>, Seq<char>, nat),
            ParseError<Seq<char>>,
        >(ParseError::EmptyUserOrHost),
        host.len() == 0 ==> remote_host(user + seq!['@'] + host) == Err::<
            (Seq<char>, Seq<char>, nat),
            ParseError<Seq<char>>,
        >(ParseError::EmptyUserOrHost),
        trim(user).len() > 0 && !port.contains(':') && read_up_to(port, 65535) is None
            ==> remote_host(user + seq!['@'] + host + seq![':'] + port) == Err::<
            (Seq<char>, Seq<char>, nat),
            ParseError<Seq<char>>,
        >(ParseError::InvalidPort(port)),
        crate::text::has_part(ParseError::InvalidPort(port).text(), port),
{
    assert forall|j: int| 0 <= j < user.len() implies user[j] != '@' by {
        assert(user.contains(user[j]));
    }
    lemma_first_pos_is(user, '@', user.len() as int);
    let s = user + seq!['@'] + host;
    lemma_first_pos_is(s, '@', user.len() as int);
    assert(s.take(user.len() as int) =~= user);
    assert(s.skip(user.len() as int + 1) =~= host);
    let t = user + seq!['@'] + host + seq![':'] + port;
    lemma_first_pos_is(t, '@', user.len() as int);
    assert(t.take(user.len() as int) =~= user);
    let rest = host + seq![':'] + port;
    assert(t.skip(user.len() as int + 1) =~= rest);
    if !port.contains(':') {
        assert forall|j: int| host.len() < j < rest.len() implies rest[j] != ':' by {
            assert(rest[j] == port[j - host.len() - 1]);
            assert(port.contains(port[j - host.len() - 1]));
        }
        lemma_last_pos_is(rest, ':', host.len() as int);
        assert(rest.skip(host.len() as int + 1) =~= port);
    }
    crate::text::lemma_part_behind("端口无效: "@, port);
}

/// The user is read without the white space around it.
pub proof fn user_is_read_without_white_space(user: Seq<char>, host: Seq<char>)
    requires
        !user.contains('@'),
        trim(user).len() > 0,
        host.len() > 0,
        !host.contains(':'),
    ensures
        remote_host(user + seq!['@'] + host) == Ok::<
            (Seq<char>, Seq<char>, nat),
            ParseError<Seq<char>>,
        >((trim(user), host, 22)),
{
    let s = user + seq!['@'] + host;
    assert forall|j: int| 0 <= j < user.len() implies s[j] != '@' by {
        assert(s[j] == user[j]);
        assert(user.contains(user[j]));
    }
    lemma_first_pos_is(s, '@', user.len() as int);
    assert(s.take(user.len() as int) =~= user);
    assert(s.skip(user.len() as int + 1) =~= host);
    assert forall|j: int| -1 < j < host.len() implies host[j] != ':' by {
        assert(host.contains(host[j]));
    }
    lemma_last_pos_is(host, ':', -1);
}

/// A remote path is parted at its first colon, each side without the white
/// space around it. It is refused without a colon, and where nothing is left
/// on a side.
pub proof fn first_colon_parts_alias_and_path(alias: Seq<char>, path: Seq<char>)
    requires
        !alias.contains(':'),
    ensures
        alias_and_path(alias) == Err::<(Seq<char>, Seq<char>), ParseError<Seq<char>>>(
            ParseError::MissingColon,
        ),
        trim(alias).len() > 0 && trim(path).len() > 0 ==> alias_and_path(
            alias + seq![':'] + path,
        ) == Ok::<(Seq<char>, Seq<char>), ParseError<Seq<char>>>((trim(alias), trim(path))),
        trim(alias).len() == 0 || trim(path).len() == 0 ==> alias_and_path(
            alias + seq![':'] + path,
        ) == Err::<(Seq<char>, Seq<char>), ParseError<Seq<char>>>(ParseError::EmptyAliasOrPath),
{
    assert forall|j: int| 0 <= j < alias.len() implies alias[j] != ':' by {
        assert(alias.contains(alias[j]));
    }
    lemma_first_pos_is(alias, ':', alias.len() as int);
    let s = alias + seq![':'] + path;
    lemma_first_pos_is(s, ':', alias.len() as int);
    assert(s.take(alias.len() as int) =~= alias);
    assert(s.skip(alias.len() as int + 1) =~= path);
}

} // verus!
