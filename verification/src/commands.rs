//! The commands on aliases, on the configuration, and the installation of the
//! public key.
use vstd::prelude::*;
use vstd::string::*;

use crate::config::Config;
use crate::number::{decimal, decimal_int, to_decimal, to_decimal_signed};
use crate::parse::{parse_remote_host, remote_host};
use crate::server::{
    ascending, has_host, host, opt, put, shows, with_alias, without, Hosts, Server,
    ServerCollection, TableRow,
};
use crate::text::{
    cat2, cat3, cat4, cat5, contains_part, first_line, has_part, lemma_first_pos,
    lemma_first_pos_is, lemma_part_behind, lemma_part_between, lemma_remove_char, lemma_trim_part, line_one, list1, listed, remove_char, texts, trim, trimmed,
    without_char,
};

verus! {

/// What a command tells the user.
#[derive(Debug)]
pub enum Notice<S = String> {
    /// It was done.
    Done(S),
    /// It was not done.
    Refused(S),
}

impl View for Notice<String> {
    type V = Notice<Seq<char>>;

    open spec fn view(&self) -> Notice<Seq<char>> {
        match self {
            Notice::Done(t) => Notice::Done(t@),
            Notice::Refused(t) => Notice::Refused(t@),
        }
    }
}

// ---------------------------------------------------------------------------
// Aliases
// ---------------------------------------------------------------------------

/// A server that was not connected to yet.
pub open spec fn new_server(
    alias: Seq<char>,
    username: Seq<char>,
    address: Seq<char>,
    port: u16,
) -> Server<Seq<char>> {
    Server { id: None, alias: Some(alias), username, address, port, last_connect: None }
}

/// What `new` does: the servers afterwards, and what is told.
pub open spec fn created(
    h: Hosts,
    alias: Seq<char>,
    spec: Seq<char>,
    file: Seq<char>,
) -> (Hosts, Notice<Seq<char>>) {
    match remote_host(spec) {
        Err(e) => (
            h,
            Notice::Refused(
                "new 命令参数错误: "@ + e.text() + "\n格式示例: hp new <alias> user@host[:port]"@,
            ),
        ),
        Ok((username, address, port)) => if has_host(h, alias) {
            (h, Notice::Refused("⚠️ 别名 '"@ + alias + "' 已存在"@))
        } else {
            (
                put(h, alias, new_server(alias, username, address, port as u16)),
                Notice::Done("✅ 已创建别名 '"@ + alias + "' 并保存到 "@ + file),
            )
        },
    }
}

/// Creates an alias for `user@host[:port]`, unless it is taken.
pub fn handle_create(
    collection: &mut ServerCollection,
    alias: &str,
    remote_host: &str,
    server_file_path: &str,
) -> (r: Notice)
    ensures
        (final(collection)@, r@) == created(
            old(collection)@,
            alias@,
            remote_host@,
            server_file_path@,
        ),
{
    match parse_remote_host(remote_host) {
        Err(e) => Notice::Refused(
            cat3(
                "new 命令参数错误: ",
                e.message().as_str(),
                "\n格式示例: hp new <alias> user@host[:port]",
            ),
        ),
        Ok((username, address, port)) => {
            if collection.get(alias).is_some() {
                return Notice::Refused(cat3("⚠️ 别名 '", alias, "' 已存在"));
            }
            let server = Server {
                id: None,
                alias: Some(alias.to_owned()),
                username,
                address,
                port,
                last_connect: None,
            };
            collection.insert(alias, server);
            Notice::Done(cat4("✅ 已创建别名 '", alias, "' 并保存到 ", server_file_path))
        },
    }
}

/// What `mv` does: the servers afterwards, and what is told.
pub open spec fn renamed(h: Hosts, alias: Seq<char>, new_alias: Seq<char>) -> (
    Hosts,
    Notice<Seq<char>>,
) {
    match host(h, alias) {
        None => (h, Notice::Refused("❌ 别名 '"@ + alias + "' 不存在"@)),
        Some(server) => if has_host(h, new_alias) {
            (h, Notice::Refused("新别名 '"@ + new_alias + "' 已存在"@))
        } else {
            (
                put(
                    without(h, alias),
                    new_alias,
                    Server { alias: Some(new_alias), ..server },
                ),
                Notice::Done("已将别名 '"@ + alias + "' 重命名为 '"@ + new_alias + "'"@),
            )
        },
    }
}

/// Gives a server another alias, unless that is taken.
pub fn handle_rename(collection: &mut ServerCollection, alias: &str, new_alias: &str) -> (r: Notice)
    ensures
        (final(collection)@, r@) == renamed(old(collection)@, alias@, new_alias@),
{
    let found = match collection.get(alias) {
        Some(s) => Some(s.clone()),
        None => None,
    };
    match found {
        None => Notice::Refused(cat3("❌ 别名 '", alias, "' 不存在")),
        Some(server) => {
            if collection.get(new_alias).is_some() {
                return Notice::Refused(cat3("新别名 '", new_alias, "' 已存在"));
            }
            let mut server = server;
            server.alias = Some(new_alias.to_owned());
            collection.remove(alias);
            collection.insert(new_alias, server);
            Notice::Done(cat5("已将别名 '", alias, "' 重命名为 '", new_alias, "'"))
        },
    }
}

/// What `rm` does: the servers afterwards, and what is told.
pub open spec fn removed(h: Hosts, alias: Seq<char>) -> (Hosts, Notice<Seq<char>>) {
    if has_host(h, alias) {
        (without(h, alias), Notice::Done("✅ 已删除别名 '"@ + alias + "'"@))
    } else {
        (h, Notice::Refused("别名 '"@ + alias + "' 不存在"@))
    }
}

/// Forgets a server.
pub fn handle_remove(collection: &mut ServerCollection, alias: &str) -> (r: Notice)
    ensures
        (final(collection)@, r@) == removed(old(collection)@, alias@),
{
    if collection.get(alias).is_none() {
        return Notice::Refused(cat3("别名 '", alias, "' 不存在"));
    }
    collection.remove(alias);
    Notice::Done(cat3("✅ 已删除别名 '", alias, "'"))
}

/// The rows of the table of all servers.
pub fn handle_list(collection: &ServerCollection) -> (r: Vec<TableRow>)
    ensures
        r.len() == collection@.len(),
        forall|i: int| 0 <= i < r.len() ==> shows(#[trigger] r@[i], collection@[i]),
{
    collection.show_table()
}

/// A command that is refused changes nothing.
pub proof fn refused_commands_change_nothing(
    h: Hosts,
    alias: Seq<char>,
    argument: Seq<char>,
    file: Seq<char>,
)
    ensures
        created(h, alias, argument, file).1 is Refused ==> created(h, alias, argument, file).0 == h,
        renamed(h, alias, argument).1 is Refused ==> renamed(h, alias, argument).0 == h,
        removed(h, alias).1 is Refused ==> removed(h, alias).0 == h,
{
}

/// Creating an alias and then removing it leaves every alias where it was.
pub proof fn create_then_remove(
    h: Hosts,
    alias: Seq<char>,
    spec: Seq<char>,
    file: Seq<char>,
    other: Seq<char>,
)
    requires
        ascending(h),
        created(h, alias, spec, file).1 is Done,
    ensures
        host(removed(created(h, alias, spec, file).0, alias).0, other) == host(h, other),
{
    let server = new_server(
        alias,
        remote_host(spec)->Ok_0.0,
        remote_host(spec)->Ok_0.1,
        remote_host(spec)->Ok_0.2 as u16,
    );
    let c = put(h, alias, server);
    crate::server::put_then_find(h, alias, server, other);
    crate::server::put_keeps_order(h, alias, server);
    crate::server::removed_then_find(c, alias, other);
}

/// Giving a server another alias moves it there with all that is known of it,
/// and leaves every other alias where it was.
pub proof fn rename_moves_the_server(
    h: Hosts,
    alias: Seq<char>,
    new_alias: Seq<char>,
    other: Seq<char>,
)
    requires
        ascending(h),
        renamed(h, alias, new_alias).1 is Done,
        other != alias,
        other != new_alias,
    ensures
        ({
            let after = renamed(h, alias, new_alias).0;
            &&& host(after, alias) is None
            &&& host(after, new_alias) == Some(
                Server { alias: Some(new_alias), ..host(h, alias)->Some_0 },
            )
            &&& host(after, other) == host(h, other)
        }),
{
    let server = Server { alias: Some(new_alias), ..host(h, alias)->Some_0 };
    let w = without(h, alias);
    crate::server::removal_keeps_order(h, alias);
    crate::server::removed_then_find(h, alias, other);
    crate::server::put_then_find(w, new_alias, server, alias);
    crate::server::put_then_find(w, new_alias, server, other);
}

/// `new` stores what it was given: behind it the alias leads to the user, the
/// host and the port that were named, never connected to, and every other
/// alias leads where it led before. It is done for every free alias.
pub proof fn created_alias_leads_to_the_server(
    h: Hosts,
    alias: Seq<char>,
    user: Seq<char>,
    address: Seq<char>,
    port: u16,
    file: Seq<char>,
    other: Seq<char>,
)
    requires
        ascending(h),
        user.len() > 0,
        trim(user) == user,
        !user.contains('@'),
        host(h, alias) is None,
    ensures
        ({
            let r = created(
                h,
                alias,
                user + seq!['@'] + address + seq![':'] + decimal(port as nat),
                file,
            );
            &&& r.1 is Done
            &&& has_part(r.1->Done_0, alias)
            &&& has_part(r.1->Done_0, file)
            &&& host(r.0, alias) matches Some(s) && s.alias == Some(alias) && s.username == user
                && s.address == address && s.port == port && s.last_connect is None && s.id is None
            &&& other != alias ==> host(r.0, other) == host(h, other)
        }),
        address.len() > 0 && !address.contains(':') ==> ({
            let r = created(h, alias, user + seq!['@'] + address, file);
            &&& r.1 is Done
            &&& host(r.0, alias) matches Some(s) && s.alias == Some(alias) && s.username == user
                && s.address == address && s.port == 22 && s.last_connect is None && s.id is None
            &&& other != alias ==> host(r.0, other) == host(h, other)
        }),
{
    crate::parse::host_with_port_reads_back(user, address, port);
    crate::server::put_then_find(h, alias, new_server(alias, user, address, port), other);
    let told = "✅ 已创建别名 '"@ + alias + "' 并保存到 "@ + file;
    lemma_part_behind("✅ 已创建别名 '"@ + alias + "' 并保存到 "@, file);
    lemma_part_between("✅ 已创建别名 '"@, alias, "' 并保存到 "@ + file);
    assert(told =~= "✅ 已创建别名 '"@ + alias + ("' 并保存到 "@ + file));
    if address.len() > 0 && !address.contains(':') {
        crate::parse::host_without_port_gets_the_default(user, address);
        crate::server::put_then_find(h, alias, new_server(alias, user, address, 22), other);
    }
}

/// `new` is refused for an alias that is taken and for what names no server,
/// `mv` where the alias is not known or the new one is taken, `rm` where the
/// alias is not known, and none of them otherwise. The alias at fault is named.
pub proof fn commands_are_refused_for_a_reason(
    h: Hosts,
    alias: Seq<char>,
    argument: Seq<char>,
    file: Seq<char>,
)
    ensures
        created(h, alias, argument, file).1 is Refused <==> (host(h, alias) is Some || remote_host(
            argument,
        ) is Err),
        remote_host(argument) matches Err(e) ==> has_part(
            created(h, alias, argument, file).1->Refused_0,
            e.text(),
        ),
        remote_host(argument) is Ok && host(h, alias) is Some ==> has_part(
            created(h, alias, argument, file).1->Refused_0,
            alias,
        ),
        renamed(h, alias, argument).1 is Refused <==> (host(h, alias) is None || host(h, argument)
            is Some),
        host(h, alias) is None ==> has_part(renamed(h, alias, argument).1->Refused_0, alias),
        host(h, alias) is Some && host(h, argument) is Some ==> has_part(
            renamed(h, alias, argument).1->Refused_0,
            argument,
        ),
        removed(h, alias).1 is Refused <==> host(h, alias) is None,
        host(h, alias) is None ==> has_part(removed(h, alias).1->Refused_0, alias),
{
    match remote_host(argument) {
        Err(e) => {
            lemma_part_between(
                "new 命令参数错误: "@,
                e.text(),
                "\n格式示例: hp new <alias> user@host[:port]"@,
            );
        },
        Ok(_) => {},
    }
    lemma_part_between("⚠️ 别名 '"@, alias, "' 已存在"@);
    lemma_part_between("❌ 别名 '"@, alias, "' 不存在"@);
    lemma_part_between("新别名 '"@, argument, "' 已存在"@);
    lemma_part_between("别名 '"@, alias, "' 不存在"@);
}

/// `rm` takes out the server under the alias and no other, and says which.
pub proof fn removed_alias_is_gone(h: Hosts, alias: Seq<char>, other: Seq<char>)
    requires
        ascending(h),
    ensures
        host(removed(h, alias).0, alias) is None,
        other != alias ==> host(removed(h, alias).0, other) == host(h, other),
        host(h, alias) is Some ==> removed(h, alias).0.len() == h.len() - 1,
        removed(h, alias).1 matches Notice::Done(t) ==> has_part(t, alias),
{
    crate::server::removed_then_find(h, alias, other);
    crate::server::host_is_at_its_place(h, alias);
    lemma_part_between("✅ 已删除别名 '"@, alias, "'"@);
}

/// `mv` says both names, and moves the server by itself: moving it back gives
/// every alias its server again, where the server knew its alias.
pub proof fn renamed_and_back(
    h: Hosts,
    alias: Seq<char>,
    new_alias: Seq<char>,
    other: Seq<char>,
)
    requires
        ascending(h),
        host(h, alias) is Some,
        host(h, new_alias) is None,
    ensures
        renamed(h, alias, new_alias).1 matches Notice::Done(t) && has_part(t, alias) && has_part(
            t,
            new_alias,
        ),
        renamed(renamed(h, alias, new_alias).0, new_alias, alias).1 is Done,
        other != alias ==> host(
            renamed(renamed(h, alias, new_alias).0, new_alias, alias).0,
            other,
        ) == host(h, other),
        host(renamed(renamed(h, alias, new_alias).0, new_alias, alias).0, alias) == Some(
            Server { alias: Some(alias), ..host(h, alias)->Some_0 },
        ),
{
    let s = host(h, alias)->Some_0;
    let moved = Server { alias: Some(new_alias), ..s };
    let w = without(h, alias);
    let m = put(w, new_alias, moved);
    crate::server::removal_keeps_order(h, alias);
    crate::server::removed_then_find(h, alias, new_alias);
    crate::server::removed_then_find(h, alias, other);
    crate::server::put_keeps_order(w, new_alias, moved);
    crate::server::put_then_find(w, new_alias, moved, alias);
    crate::server::put_then_find(w, new_alias, moved, other);
    let x = without(m, new_alias);
    let back = Server { alias: Some(alias), ..moved };
    crate::server::removal_keeps_order(m, new_alias);
    crate::server::removed_then_find(m, new_alias, alias);
    crate::server::removed_then_find(m, new_alias, other);
    crate::server::put_then_find(x, alias, back, other);
    assert(back == Server { alias: Some(alias), ..s });
    let told = "已将别名 '"@ + alias + "' 重命名为 '"@ + new_alias + "'"@;
    lemma_part_between("已将别名 '"@ + alias + "' 重命名为 '"@, new_alias, "'"@);
    lemma_part_between("已将别名 '"@, alias, "' 重命名为 '"@ + new_alias + "'"@);
    assert(told =~= "已将别名 '"@ + alias + ("' 重命名为 '"@ + new_alias + "'"@));
}

// ---------------------------------------------------------------------------
// Connecting
// ---------------------------------------------------------------------------

/// `user@address` of a server.
pub open spec fn login(server: Server<Seq<char>>) -> Seq<char> {
    server.username + "@"@ + server.address
}

/// The argument that names the port of a server.
pub open spec fn port_argument(server: Server<Seq<char>>) -> Seq<char> {
    "-p"@ + decimal(server.port as nat)
}

/// Writes `user@address`.
pub fn login_of(server: &Server) -> (r: String)
    ensures
        r@ == login(server@),
{
    cat3(server.username.as_str(), "@", server.address.as_str())
}

/// Writes the argument that names the port.
pub fn port_argument_of(server: &Server) -> (r: String)
    ensures
        r@ == port_argument(server@),
{
    cat2("-p", to_decimal(server.port as u64).as_str())
}

/// The arguments of the ssh client for a server.
pub fn ssh_arguments(server: &Server) -> (r: Vec<String>)
    ensures
        texts(r@) == seq![login(server@), port_argument(server@)],
{
    let v = listed(list1(login_of(server)), port_argument_of(server));
    proof {
        assert(texts(v@) =~= seq![login(server@), port_argument(server@)]);
    }
    v
}

/// What the ssh client is given reads back as the server: the login with the
/// port behind a colon names its user, address and port, and the argument for
/// the port is `-p` with the number.
pub proof fn login_names_the_server(server: Server<Seq<char>>)
    requires
        server.username.len() > 0,
        trim(server.username) == server.username,
        !server.username.contains('@'),
    ensures
        remote_host(login(server) + seq![':'] + port_argument(server).skip(2)) == Ok::<
            (Seq<char>, Seq<char>, nat),
            crate::parse::ParseError<Seq<char>>,
        >((server.username, server.address, server.port as nat)),
        port_argument(server).take(2) == seq!['-', 'p'],
{
    reveal_strlit("@");
    reveal_strlit("-p");
    assert("@"@ =~= seq!['@']);
    assert("-p"@ =~= seq!['-', 'p']);
    assert(port_argument(server).skip(2) =~= decimal(server.port as nat));
    assert(port_argument(server).take(2) =~= seq!['-', 'p']);
    crate::parse::host_with_port_reads_back(server.username, server.address, server.port);
}

/// How to connect to the server under an alias: the arguments of the ssh
/// client, or the message where there is no such alias.
pub fn connect_arguments(collection: &ServerCollection, alias: &str) -> (r: Result<
    Vec<String>,
    String,
>)
    ensures
        match r {
            Ok(args) => host(collection@, alias@) is Some && texts(args@) == seq![
                login(host(collection@, alias@)->Some_0),
                port_argument(host(collection@, alias@)->Some_0),
            ],
            Err(m) => host(collection@, alias@) is None && m@ == "❌ 别名 '"@ + alias@
                + "' 未找到"@,
        },
{
    match collection.get(alias) {
        Some(server) => Ok(ssh_arguments(server)),
        None => Err(cat3("❌ 别名 '", alias, "' 未找到")),
    }
}

/// Notes a connection to the server under an alias at the time `now`.
pub fn note_connection(collection: &mut ServerCollection, alias: &str, now: i64)
    ensures
        final(collection)@ == match host(old(collection)@, alias@) {
            Some(server) => put(
                old(collection)@,
                alias@,
                with_alias(
                    Server { last_connect: Some(decimal_int(now as int)), ..server },
                    alias@,
                ),
            ),
            None => old(collection)@,
        },
{
    let found = match collection.get(alias) {
        Some(s) => Some(s.clone()),
        None => None,
    };
    match found {
        Some(server) => {
            let mut server = server;
            server.set_last_connect(now);
            collection.insert(alias, server);
        },
        None => {},
    }
}

/// Notes a connection to the server under an alias at the present time.
pub fn note_connection_now(collection: &mut ServerCollection, alias: &str)
    ensures
        exists|now: i64|
            final(collection)@ == match host(old(collection)@, alias@) {
                Some(server) => put(
                    old(collection)@,
                    alias@,
                    with_alias(
                        Server {
                            last_connect: Some(#[trigger] decimal_int(now as int)),
                            ..server
                        },
                        alias@,
                    ),
                ),
                None => old(collection)@,
            },
{
    let now: i64 = crate::server::seconds_now();
    note_connection(collection, alias, now);
    proof {
        let _t = decimal_int(now as int);
    }
}

// ---------------------------------------------------------------------------
// The configuration
// ---------------------------------------------------------------------------

/// A value, replaced where another one is given.
pub open spec fn or_else(new: Option<String>, old_value: Seq<char>) -> Seq<char> {
    match new {
        Some(s) => s@,
        None => old_value,
    }
}

/// Changes the parts of the configuration that are given, and says so.
pub fn handle_set(
    config: &Config,
    pub_key_path: Option<String>,
    server_path: Option<String>,
    client_path: Option<String>,
    scp_path: Option<String>,
) -> (r: (Config, Notice))
    ensures
        r.0@ == (Config {
            pub_key_path: or_else(pub_key_path, config@.pub_key_path),
            server_file_path: or_else(server_path, config@.server_file_path),
            ssh_client_app_path: or_else(client_path, config@.ssh_client_app_path),
            scp_app_path: or_else(scp_path, config@.scp_app_path),
            ..config@
        }),
        r.1@ == Notice::Done("✅ 配置已更新"@),
{
    let mut cfg = config.clone();
    if let Some(k) = pub_key_path {
        cfg.pub_key_path = k;
    }
    if let Some(s) = server_path {
        cfg.server_file_path = s;
    }
    if let Some(c) = client_path {
        cfg.ssh_client_app_path = c;
    }
    if let Some(s) = scp_path {
        cfg.scp_app_path = s;
    }
    (cfg, Notice::Done("✅ 配置已更新".to_owned()))
}

/// A part of the configuration that is given takes the place of the old one,
/// and one that is not given leaves it.
pub proof fn given_parts_replace(new: Option<String>, old_value: Seq<char>)
    ensures
        new matches Some(s) ==> or_else(new, old_value) == s@,
        new is None ==> or_else(new, old_value) == old_value,
{
}

// ---------------------------------------------------------------------------
// Installing the public key
// ---------------------------------------------------------------------------

/// The start of the script that the server runs, up to where it reads the key
/// from the next line of its input.
pub const SCRIPT_START: &'static str =
    "\nmkdir -p ~/.ssh && chmod 700 ~/.ssh\ntouch ~/.ssh/authorized_keys && chmod 600 ~/.ssh/authorized_keys\nIFS= read -r KEY\n";

/// The rest of the script: it appends the key to the authorized keys, unless it
/// is there already.
pub const SCRIPT_END: &'static str =
    "# Use awk to compare key type + keydata (ignore comment)\nk_type=$(printf '%s' \"$KEY\" | awk '{print $1}')\nk_data=$(printf '%s' \"$KEY\" | awk '{print $2}')\nif awk -v t=\"$k_type\" -v d=\"$k_data\" 'BEGIN{found=0} $0 !~ /^#/ {split($0,a,\" \"); if(a[1]==t && a[2]==d){found=1; exit}} END{exit(found?0:1)}' ~/.ssh/authorized_keys; then\n  echo \"already-present\"\n  exit 0\nfi\nprintf '%s\\n' \"$KEY\" >> ~/.ssh/authorized_keys\necho \"added\"\n";

/// What the installation of a key waits for.
#[derive(Debug, Clone, Copy, PartialEq, Eq, Structural)]
pub enum LinkStage {
    /// Whether there is a key.
    Key,
    /// What the key's file holds.
    Content,
    /// Whether there is an `ssh-copy-id`.
    Finder,
    /// What came of `ssh-copy-id`.
    Copy,
    /// What came of the script.
    Send,
    /// Nothing more.
    Over,
}

/// The installation of a key.
pub struct Link<S = String> {
    pub key_path: S,
    pub ssh: S,
    /// `user@address` of the server.
    pub login: S,
    /// The argument that names its port.
    pub port: S,
    /// The key, once it was read.
    pub line: S,
    pub stage: LinkStage,
}

impl View for Link<String> {
    type V = Link<Seq<char>>;

    open spec fn view(&self) -> Link<Seq<char>> {
        Link {
            key_path: self.key_path@,
            ssh: self.ssh@,
            login: self.login@,
            port: self.port@,
            line: self.line@,
            stage: self.stage,
        }
    }
}

/// What was found out for the installation of a key.
pub enum LinkEvent<S = String> {
    KeyFound(bool),
    KeyText(S),
    KeyUnreadable(S),
    CopyIdFound(bool),
    /// `ssh-copy-id` ran: whether it succeeded, and its exit code.
    CopyIdRan(bool, Option<i32>),
    CopyIdNotRun(S),
    /// The ssh client ran: whether it succeeded, its exit code and output.
    SshRan(bool, Option<i32>, S),
    SshNotRun(S),
    SshLost(S),
}

impl View for LinkEvent<String> {
    type V = LinkEvent<Seq<char>>;

    open spec fn view(&self) -> LinkEvent<Seq<char>> {
        match self {
            LinkEvent::KeyFound(b) => LinkEvent::KeyFound(*b),
            LinkEvent::KeyText(t) => LinkEvent::KeyText(t@),
            LinkEvent::KeyUnreadable(t) => LinkEvent::KeyUnreadable(t@),
            LinkEvent::CopyIdFound(b) => LinkEvent::CopyIdFound(*b),
            LinkEvent::CopyIdRan(b, c) => LinkEvent::CopyIdRan(*b, *c),
            LinkEvent::CopyIdNotRun(t) => LinkEvent::CopyIdNotRun(t@),
            LinkEvent::SshRan(b, c, t) => LinkEvent::SshRan(*b, *c, t@),
            LinkEvent::SshNotRun(t) => LinkEvent::SshNotRun(t@),
            LinkEvent::SshLost(t) => LinkEvent::SshLost(t@),
        }
    }
}

/// What to do next for the installation of a key.
pub enum LinkStep<S = String, L = Vec<String>> {
    ReadKey(S),
    FindCopyId,
    RunCopyId(L),
    /// Run a program with these arguments and feed it this input; first tell
    /// the user why, where there is something to tell.
    RunSsh { note: Option<S>, program: S, args: L, input: S },
    End(Notice<S>),
}

impl View for LinkStep<String, Vec<String>> {
    type V = LinkStep<Seq<char>, Seq<Seq<char>>>;

    open spec fn view(&self) -> LinkStep<Seq<char>, Seq<Seq<char>>> {
        match self {
            LinkStep::ReadKey(p) => LinkStep::ReadKey(p@),
            LinkStep::FindCopyId => LinkStep::FindCopyId,
            LinkStep::RunCopyId(args) => LinkStep::RunCopyId(texts(args@)),
            LinkStep::RunSsh { note, program, args, input } => LinkStep::RunSsh {
                note: opt(*note),
                program: program@,
                args: texts(args@),
                input: input@,
            },
            LinkStep::End(n) => LinkStep::End(n@),
        }
    }
}

/// The key in the content of a key file: its first line, without carriage
/// returns and without white space around it.
pub open spec fn key_line(content: Seq<char>) -> Seq<char> {
    match first_line(remove_char(content, '\r')) {
        Some(line) => trim(line),
        None => Seq::empty(),
    }
}

/// Reads the key from the content of a key file.
pub fn key_line_of(content: &str) -> (r: String)
    ensures
        r@ == key_line(content@),
{
    match line_one(without_char(content, '\r').as_str()) {
        Some(line) => trimmed(line.as_str()),
        None => {
            let r = String::new();
            proof {
                assert(r@ =~= Seq::<char>::empty());
            }
            r
        },
    }
}

/// A key is a single line, whatever the file holds.
pub proof fn key_is_one_line(content: Seq<char>)
    ensures
        !key_line(content).contains('\n'),
        !key_line(content).contains('\r'),
{
    let s = remove_char(content, '\r');
    lemma_remove_char(content, '\r');
    match first_line(s) {
        Some(line) => {
            lemma_trim_part(line, '\n');
            lemma_trim_part(line, '\r');
            lemma_first_pos(s, '\n');
            if line.contains('\n') {
                let i = line.index_of('\n');
                assert(s[i] == '\n');
            }
            if line.contains('\r') {
                let i = line.index_of('\r');
                assert(s[i] == '\r');
                assert(s.contains('\r'));
            }
        },
        None => {},
    }
}

/// An exit code, where there is one, and minus one otherwise.
pub open spec fn exit_code(code: Option<i32>) -> int {
    match code {
        Some(c) => c as int,
        None => -1,
    }
}

fn exit_code_text(code: Option<i32>) -> (r: String)
    ensures
        r@ == decimal_int(exit_code(code)),
{
    let c: i32 = match code {
        Some(c) => c,
        None => -1,
    };
    to_decimal_signed(c as i128)
}

impl Link<Seq<char>> {
    /// Whether an event is what is waited for.
    pub open spec fn expects(self, event: LinkEvent<Seq<char>>) -> bool {
        match event {
            LinkEvent::KeyFound(_) => self.stage == LinkStage::Key,
            LinkEvent::KeyText(_) | LinkEvent::KeyUnreadable(_) => self.stage == LinkStage::Content,
            LinkEvent::CopyIdFound(_) => self.stage == LinkStage::Finder,
            LinkEvent::CopyIdRan(_, _) | LinkEvent::CopyIdNotRun(_) => self.stage
                == LinkStage::Copy,
            LinkEvent::SshRan(_, _, _) | LinkEvent::SshNotRun(_) | LinkEvent::SshLost(_) => {
                self.stage == LinkStage::Send
            },
        }
    }

    pub open spec fn at(self, stage: LinkStage) -> Self {
        Link { stage, ..self }
    }

    /// The way without `ssh-copy-id`: the script is fed to a shell on the
    /// server, with the key as the line that the script reads.
    pub open spec fn by_script(self, note: Option<Seq<char>>) -> LinkStep<
        Seq<char>,
        Seq<Seq<char>>,
    > {
        LinkStep::RunSsh {
            note,
            program: self.ssh,
            args: seq![self.login, self.port, "bash -s"@],
            input: SCRIPT_START@ + self.line + "\n"@ + SCRIPT_END@,
        }
    }

    /// What the script's end means.
    pub open spec fn verdict(self, ok: bool, code: Option<i32>, out: Seq<char>) -> Notice<
        Seq<char>,
    > {
        if !ok {
            Notice::Refused(
                "❌ 远端处理失败，退出码: "@ + decimal_int(exit_code(code)) + "，输出: "@ + trim(
                    out,
                ),
            )
        } else if has_part(out, "already-present"@) {
            Notice::Done("公钥已存在于 "@ + self.login)
        } else if has_part(out, "added"@) {
            Notice::Done("已将本地公钥添加到 "@ + self.login + " 的 authorized_keys"@)
        } else {
            Notice::Done("已完成公钥安装（远端输出: "@ + trim(out) + "）"@)
        }
    }

    /// The state after an event, and what to do then.
    pub open spec fn next(self, event: LinkEvent<Seq<char>>) -> (
        Self,
        LinkStep<Seq<char>, Seq<Seq<char>>>,
    ) {
        match event {
            LinkEvent::KeyFound(found) => if found {
                (self.at(LinkStage::Content), LinkStep::ReadKey(self.key_path))
            } else {
                (
                    self.at(LinkStage::Over),
                    LinkStep::End(
                        Notice::Refused(
                            "🔑 本地公钥不存在: "@ + self.key_path
                                + "\n请先使用 ssh-keygen 生成公钥，或在 config.json 配置 pub_key_path"@,
                        ),
                    ),
                )
            },
            LinkEvent::KeyUnreadable(e) => (
                self.at(LinkStage::Over),
                LinkStep::End(Notice::Refused("❌ 读取本地公钥失败: "@ + e)),
            ),
            LinkEvent::KeyText(content) => if key_line(content).len() == 0 {
                (
                    self.at(LinkStage::Over),
                    LinkStep::End(Notice::Refused("⚠️ 公钥文件为空: "@ + self.key_path)),
                )
            } else {
                (
                    Link { line: key_line(content), stage: LinkStage::Finder, ..self },
                    LinkStep::FindCopyId,
                )
            },
            LinkEvent::CopyIdFound(found) => if found {
                (
                    self.at(LinkStage::Copy),
                    LinkStep::RunCopyId(seq!["-i"@, self.key_path, self.port, self.login]),
                )
            } else {
                (self.at(LinkStage::Send), self.by_script(None))
            },
            LinkEvent::CopyIdRan(ok, code) => if ok {
                (
                    self.at(LinkStage::Over),
                    LinkStep::End(
                        Notice::Done("已使用 ssh-copy-id 安装公钥到 "@ + self.login),
                    ),
                )
            } else {
                (
                    self.at(LinkStage::Send),
                    self.by_script(
                        Some("ssh-copy-id 执行失败，退出码: "@ + decimal_int(exit_code(code))),
                    ),
                )
            },
            LinkEvent::CopyIdNotRun(e) => (
                self.at(LinkStage::Send),
                self.by_script(Some("无法执行 ssh-copy-id: "@ + e)),
            ),
            LinkEvent::SshNotRun(e) => (
                self.at(LinkStage::Over),
                LinkStep::End(
                    Notice::Refused("⚠️ 无法执行 ssh: "@ + e + " (路径: "@ + self.ssh + ")"@),
                ),
            ),
            LinkEvent::SshLost(e) => (
                self.at(LinkStage::Over),
                LinkStep::End(Notice::Refused("❌ 等待 ssh 进程失败: "@ + e)),
            ),
            LinkEvent::SshRan(ok, code, out) => (
                self.at(LinkStage::Over),
                LinkStep::End(self.verdict(ok, code, out)),
            ),
        }
    }
}

impl Link {
    fn by_shell(&self, note: Option<String>) -> (r: LinkStep)
        ensures
            r@ == self@.by_script(opt(note)),
    {
        let args = listed(
            listed(list1(self.login.clone()), self.port.clone()),
            "bash -s".to_owned(),
        );
        proof {
            assert(texts(args@) =~= seq![self.login@, self.port@, "bash -s"@]);
        }
        LinkStep::RunSsh {
            note,
            program: self.ssh.clone(),
            args,
            input: cat4(SCRIPT_START, self.line.as_str(), "\n", SCRIPT_END),
        }
    }

    fn outcome(&self, ok: bool, code: Option<i32>, out: &str) -> (r: Notice)
        ensures
            r@ == self@.verdict(ok, code, out@),
    {
        if !ok {
            Notice::Refused(
                cat4(
                    "❌ 远端处理失败，退出码: ",
                    exit_code_text(code).as_str(),
                    "，输出: ",
                    trimmed(out).as_str(),
                ),
            )
        } else if contains_part(out, "already-present") {
            Notice::Done(cat2("公钥已存在于 ", self.login.as_str()))
        } else if contains_part(out, "added") {
            Notice::Done(
                cat3("已将本地公钥添加到 ", self.login.as_str(), " 的 authorized_keys"),
            )
        } else {
            Notice::Done(cat3("已完成公钥安装（远端输出: ", trimmed(out).as_str(), "）"))
        }
    }

    /// Takes in what was found out, and says what to do next.
    pub fn advance(&mut self, event: LinkEvent) -> (r: LinkStep)
        requires
            old(self)@.expects(event@),
        ensures
            (final(self)@, r@) == old(self)@.next(event@),
    {
        match event {
            LinkEvent::KeyFound(found) => {
                if found {
                    self.stage = LinkStage::Content;
                    LinkStep::ReadKey(self.key_path.clone())
                } else {
                    self.stage = LinkStage::Over;
                    LinkStep::End(
                        Notice::Refused(
                            cat3(
                                "🔑 本地公钥不存在: ",
                                self.key_path.as_str(),
                                "\n请先使用 ssh-keygen 生成公钥，或在 config.json 配置 pub_key_path",
                            ),
                        ),
                    )
                }
            },
            LinkEvent::KeyUnreadable(e) => {
                self.stage = LinkStage::Over;
                LinkStep::End(Notice::Refused(cat2("❌ 读取本地公钥失败: ", e.as_str())))
            },
            LinkEvent::KeyText(content) => {
                let line = key_line_of(content.as_str());
                if line.as_str().is_empty() {
                    self.stage = LinkStage::Over;
                    LinkStep::End(
                        Notice::Refused(cat2("⚠️ 公钥文件为空: ", self.key_path.as_str())),
                    )
                } else {
                    self.line = line;
                    self.stage = LinkStage::Finder;
                    LinkStep::FindCopyId
                }
            },
            LinkEvent::CopyIdFound(found) => {
                if found {
                    self.stage = LinkStage::Copy;
                    let args = listed(
                        listed(
                            listed(list1("-i".to_owned()), self.key_path.clone()),
                            self.port.clone(),
                        ),
                        self.login.clone(),
                    );
                    proof {
                        assert(texts(args@) =~= seq![
                            "-i"@,
                            self.key_path@,
                            self.port@,
                            self.login@,
                        ]);
                    }
                    LinkStep::RunCopyId(args)
                } else {
                    self.stage = LinkStage::Send;
                    self.by_shell(None)
                }
            },
            LinkEvent::CopyIdRan(ok, code) => {
                if ok {
                    self.stage = LinkStage::Over;
                    LinkStep::End(
                        Notice::Done(
                            cat2("已使用 ssh-copy-id 安装公钥到 ", self.login.as_str()),
                        ),
                    )
                } else {
                    self.stage = LinkStage::Send;
                    self.by_shell(
                        Some(
                            cat2(
                                "ssh-copy-id 执行失败，退出码: ",
                                exit_code_text(code).as_str(),
                            ),
                        ),
                    )
                }
            },
            LinkEvent::CopyIdNotRun(e) => {
                self.stage = LinkStage::Send;
                self.by_shell(Some(cat2("无法执行 ssh-copy-id: ", e.as_str())))
            },
            LinkEvent::SshNotRun(e) => {
                self.stage = LinkStage::Over;
                LinkStep::End(
                    Notice::Refused(
                        cat5("⚠️ 无法执行 ssh: ", e.as_str(), " (路径: ", self.ssh.as_str(), ")"),
                    ),
                )
            },
            LinkEvent::SshLost(e) => {
                self.stage = LinkStage::Over;
                LinkStep::End(Notice::Refused(cat2("❌ 等待 ssh 进程失败: ", e.as_str())))
            },
            LinkEvent::SshRan(ok, code, out) => {
                self.stage = LinkStage::Over;
                LinkStep::End(self.outcome(ok, code, out.as_str()))
            },
        }
    }
}

/// Starts the installation of the public key on the server under an alias:
/// the installation, which first finds out whether there is a key, or the
/// message where there is no such alias.
pub fn handle_link(config: &Config, collection: &ServerCollection, alias: &str) -> (r: Result<
    Link,
    Notice,
>)
    ensures
        match r {
            Ok(link) => host(collection@, alias@) is Some && link@ == (Link {
                key_path: config@.pub_key_path,
                ssh: config@.ssh_client_app_path,
                login: login(host(collection@, alias@)->Some_0),
                port: port_argument(host(collection@, alias@)->Some_0),
                line: Seq::empty(),
                stage: LinkStage::Key,
            }),
            Err(n) => host(collection@, alias@) is None && n@ == Notice::Refused(
                "❌ 别名 '"@ + alias@ + "' 不存在"@,
            ),
        },
{
    match collection.get(alias) {
        None => Err(Notice::Refused(cat3("❌ 别名 '", alias, "' 不存在"))),
        Some(server) => {
            let link = Link {
                key_path: config.pub_key_path.clone(),
                ssh: config.ssh_client_app_path.clone(),
                login: login_of(server),
                port: port_argument_of(server),
                line: String::new(),
                stage: LinkStage::Key,
            };
            proof {
                assert(link@.line =~= Seq::<char>::empty());
            }
            Ok(link)
        },
    }
}

/// Whether what is known of a key fits the stage: from the search for
/// `ssh-copy-id` on, the key is a non-empty line.
pub open spec fn link_sound(link: Link<Seq<char>>) -> bool {
    link.stage == LinkStage::Finder || link.stage == LinkStage::Copy || link.stage
        == LinkStage::Send ==> link.line.len() > 0 && !link.line.contains('\n')
}

/// Every step keeps that a key that is sent is a non-empty line, and a server
/// is only ever given such a key, where its script reads it.
pub proof fn only_a_whole_key_is_sent(link: Link<Seq<char>>, event: LinkEvent<Seq<char>>)
    requires
        link_sound(link),
        link.expects(event),
    ensures
        link_sound(link.next(event).0),
        link.next(event).1 matches LinkStep::RunSsh { note, program, args, input } ==> {
            &&& link.line.len() > 0
            &&& !link.line.contains('\n')
            &&& input == SCRIPT_START@ + link.line + "\n"@ + SCRIPT_END@
        },
{
    if let LinkEvent::KeyText(content) = event {
        key_is_one_line(content);
    }
}

/// How far the installation is from its end.
pub open spec fn link_distance(stage: LinkStage) -> nat {
    match stage {
        LinkStage::Key => 5,
        LinkStage::Content => 4,
        LinkStage::Finder => 3,
        LinkStage::Copy => 2,
        LinkStage::Send => 1,
        LinkStage::Over => 0,
    }
}

/// Every step brings the installation nearer to its end, and it says how it
/// ended exactly when it gets there.
pub proof fn installation_ends(link: Link<Seq<char>>, event: LinkEvent<Seq<char>>)
    requires
        link.expects(event),
    ensures
        link_distance(link.next(event).0.stage) < link_distance(link.stage),
        link.next(event).0.stage == LinkStage::Over <==> link.next(event).1 is End,
{
}

/// A key file that starts with the key on a line of its own holds that key,
/// whatever follows and whichever way its lines end.
pub proof fn key_is_the_first_line(key: Seq<char>, rest: Seq<char>)
    requires
        trim(key) == key,
        !key.contains('\n'),
        !key.contains('\r'),
    ensures
        key_line(key + seq!['\n'] + rest) == key,
        key_line(key + seq!['\r', '\n'] + rest) == key,
        key_line(key) == key,
{
    let kept = remove_char(rest, '\r');
    lemma_removed_apart(key + seq!['\n'], rest, '\r');
    lemma_removed_apart(key, seq!['\n'], '\r');
    lemma_nothing_removed(key, '\r');
    assert(!seq!['\n'].contains('\r'));
    lemma_nothing_removed(seq!['\n'], '\r');
    let s = key + seq!['\n'] + kept;
    assert(remove_char(key + seq!['\n'] + rest, '\r') == s);
    assert(key + seq!['\r', '\n'] + rest =~= (key + seq!['\r'] + seq!['\n']) + rest);
    lemma_removed_apart(key + seq!['\r'] + seq!['\n'], rest, '\r');
    lemma_removed_apart(key + seq!['\r'], seq!['\n'], '\r');
    assert((key + seq!['\r']).drop_last() =~= key);
    assert(remove_char(key + seq!['\r'], '\r') == key);
    assert(remove_char(key + seq!['\r', '\n'] + rest, '\r') == s);
    assert forall|j: int| 0 <= j < key.len() implies s[j] != '\n' by {
        assert(s[j] == key[j]);
        assert(key.contains(key[j]));
    }
    lemma_first_pos_is(s, '\n', key.len() as int);
    assert(s.take(key.len() as int) =~= key);
    if key.len() > 0 {
        assert(key.contains(key.last()));
        assert forall|j: int| 0 <= j < key.len() implies key[j] != '\n' by {
            assert(key.contains(key[j]));
        }
        lemma_first_pos_is(key, '\n', key.len() as int);
        assert(key.take(key.len() as int) =~= key);
    } else {
        assert(key =~= Seq::<char>::empty());
    }
}

/// Characters are taken out of the parts of a text one by one.
proof fn lemma_removed_apart(a: Seq<char>, b: Seq<char>, c: char)
    ensures
        remove_char(a + b, c) == remove_char(a, c) + remove_char(b, c),
    decreases b.len(),
{
    if b.len() == 0 {
        assert(a + b =~= a);
        assert(remove_char(a, c) + remove_char(b, c) =~= remove_char(a, c));
    } else {
        lemma_removed_apart(a, b.drop_last(), c);
        assert((a + b).drop_last() =~= a + b.drop_last());
        assert((a + b).last() == b.last());
        assert(remove_char(a + b, c) =~= remove_char(a, c) + remove_char(b, c));
    }
}

/// A text that does not hold a character keeps all it has.
proof fn lemma_nothing_removed(a: Seq<char>, c: char)
    requires
        !a.contains(c),
    ensures
        remove_char(a, c) == a,
    decreases a.len(),
{
    if a.len() > 0 {
        assert(a.contains(a.last()));
        assert(!a.drop_last().contains(c)) by {
            if a.drop_last().contains(c) {
                let i = a.drop_last().index_of(c);
                assert(a[i] == c);
            }
        }
        lemma_nothing_removed(a.drop_last(), c);
        assert(a.drop_last().push(a.last()) =~= a);
    }
}

/// Whatever is found out, the installation stays with its key, its client and
/// its server. The file that it reads is the key's; `ssh-copy-id` gets that
/// file, the port and the login; the client runs on the server with the key
/// as a line of its input.
pub proof fn installation_stays_with_its_server(
    link: Link<Seq<char>>,
    event: LinkEvent<Seq<char>>,
)
    requires
        link.expects(event),
    ensures
        ({
            let (after, step) = link.next(event);
            &&& after.key_path == link.key_path
            &&& after.ssh == link.ssh
            &&& after.login == link.login
            &&& after.port == link.port
            &&& after.line != link.line ==> event is KeyText
            &&& step matches LinkStep::ReadKey(p) ==> p == link.key_path
            &&& step matches LinkStep::RunCopyId(args) ==> args.len() == 4 && args[0]
                == seq!['-', 'i'] && args[1] == link.key_path && args[2] == link.port && args[3]
                == link.login
            &&& step matches LinkStep::RunSsh { note, program, args, input } ==> {
                &&& program == link.ssh
                &&& args.len() == 3
                &&& args[0] == link.login
                &&& args[1] == link.port
                &&& args[2] == "bash -s"@
                &&& has_part(input, link.line)
                &&& input.take(SCRIPT_START@.len() as int) == SCRIPT_START@
                &&& input.skip(SCRIPT_START@.len() as int) == link.line + seq!['\n'] + SCRIPT_END@
            }
        }),
{
    reveal_strlit("-i");
    assert("-i"@ =~= seq!['-', 'i']);
    reveal_strlit("\n");
    assert("\n"@ =~= seq!['\n']);
    let input = SCRIPT_START@ + link.line + "\n"@ + SCRIPT_END@;
    lemma_part_between(SCRIPT_START@, link.line, "\n"@ + SCRIPT_END@);
    assert(input =~= SCRIPT_START@ + link.line + ("\n"@ + SCRIPT_END@));
    assert(input.take(SCRIPT_START@.len() as int) =~= SCRIPT_START@);
    assert(input.skip(SCRIPT_START@.len() as int) =~= link.line + seq!['\n'] + SCRIPT_END@);
}

/// The course of an installation. A key that is there is read, one that is not
/// ends it; a key that holds nothing ends it too, and any other is kept and
/// `ssh-copy-id` looked for. That is run where it is found; where it is not, or
/// does not do it, the script is run instead. Every refusal tells the cause.
pub proof fn course_of_an_installation(link: Link<Seq<char>>, event: LinkEvent<Seq<char>>)
    requires
        link.expects(event),
    ensures
        ({
            let (after, step) = link.next(event);
            &&& after.stage == LinkStage::Over <==> step is End
            &&& after.stage == LinkStage::Content <==> step is ReadKey
            &&& after.stage == LinkStage::Finder <==> step is FindCopyId
            &&& after.stage == LinkStage::Copy <==> step is RunCopyId
            &&& after.stage == LinkStage::Send <==> step is RunSsh
            &&& event == LinkEvent::<Seq<char>>::KeyFound(true) ==> step is ReadKey
            &&& event == LinkEvent::<Seq<char>>::KeyFound(false) ==> step is End
            &&& event is KeyText ==> (step is FindCopyId <==> key_line(event->KeyText_0).len() > 0)
            &&& step is FindCopyId ==> event is KeyText && after.line == key_line(
                event->KeyText_0,
            )
            &&& event == LinkEvent::<Seq<char>>::CopyIdFound(true) ==> step is RunCopyId
            &&& event == LinkEvent::<Seq<char>>::CopyIdFound(false) ==> step is RunSsh
                && step->note is None
            &&& event is CopyIdRan ==> (step is End <==> event->CopyIdRan_0)
            &&& event is CopyIdRan && !event->CopyIdRan_0 ==> step is RunSsh && step->note is Some
                && has_part(
                step->note->Some_0,
                decimal_int(
                    if event->CopyIdRan_1 is Some {
                        event->CopyIdRan_1->Some_0 as int
                    } else {
                        -1
                    },
                ),
            )
            &&& event is CopyIdNotRun ==> step is RunSsh && step->note is Some && has_part(
                step->note->Some_0,
                event->CopyIdNotRun_0,
            )
        }),
{
    match event {
        LinkEvent::CopyIdRan(ok, code) => {
            lemma_part_behind(
                "ssh-copy-id 执行失败，退出码: "@,
                decimal_int(exit_code(code)),
            );
        },
        LinkEvent::CopyIdNotRun(e) => {
            lemma_part_behind("无法执行 ssh-copy-id: "@, e);
        },
        _ => {},
    }
}

/// How an installation ends. It is done just where `ssh-copy-id` or the script
/// succeeded, which names the server unless the script said something of its
/// own; a refusal names the file, the client or the exit code, and hands on
/// the error or the output.
pub proof fn end_of_an_installation(link: Link<Seq<char>>, event: LinkEvent<Seq<char>>)
    requires
        link.expects(event),
        link.next(event).1 is End,
    ensures
        ({
            let end = link.next(event).1->End_0;
            &&& end is Done <==> ((event is CopyIdRan && event->CopyIdRan_0) || (event is SshRan
                && event->SshRan_0))
            &&& event is CopyIdRan ==> end is Done && has_part(end->Done_0, link.login)
            &&& event is SshRan && event->SshRan_0 ==> has_part(end->Done_0, link.login)
                || has_part(end->Done_0, trim(event->SshRan_2))
            &&& event is SshRan && event->SshRan_0 && (has_part(
                event->SshRan_2,
                "already-present"@,
            ) || has_part(event->SshRan_2, "added"@)) ==> has_part(end->Done_0, link.login)
            &&& event is SshRan && !event->SshRan_0 ==> has_part(
                end->Refused_0,
                trim(event->SshRan_2),
            ) && has_part(
                end->Refused_0,
                decimal_int(
                    if event->SshRan_1 is Some {
                        event->SshRan_1->Some_0 as int
                    } else {
                        -1
                    },
                ),
            )
            &&& event is KeyFound || event is KeyText ==> has_part(end->Refused_0, link.key_path)
            &&& event is KeyUnreadable ==> has_part(end->Refused_0, event->KeyUnreadable_0)
            &&& event is SshNotRun ==> has_part(end->Refused_0, event->SshNotRun_0) && has_part(
                end->Refused_0,
                link.ssh,
            )
            &&& event is SshLost ==> has_part(end->Refused_0, event->SshLost_0)
        }),
{
    match event {
        LinkEvent::KeyFound(_) => {
            lemma_part_between(
                "🔑 本地公钥不存在: "@,
                link.key_path,
                "\n请先使用 ssh-keygen 生成公钥，或在 config.json 配置 pub_key_path"@,
            );
        },
        LinkEvent::KeyUnreadable(e) => {
            lemma_part_behind("❌ 读取本地公钥失败: "@, e);
        },
        LinkEvent::KeyText(_) => {
            lemma_part_behind("⚠️ 公钥文件为空: "@, link.key_path);
        },
        LinkEvent::CopyIdRan(_, _) => {
            lemma_part_behind("已使用 ssh-copy-id 安装公钥到 "@, link.login);
        },
        LinkEvent::SshNotRun(e) => {
            let told = "⚠️ 无法执行 ssh: "@ + e + " (路径: "@ + link.ssh + ")"@;
            lemma_part_between("⚠️ 无法执行 ssh: "@ + e + " (路径: "@, link.ssh, ")"@);
            lemma_part_between("⚠️ 无法执行 ssh: "@, e, " (路径: "@ + link.ssh + ")"@);
            assert(told =~= "⚠️ 无法执行 ssh: "@ + e + (" (路径: "@ + link.ssh + ")"@));
        },
        LinkEvent::SshLost(e) => {
            lemma_part_behind("❌ 等待 ssh 进程失败: "@, e);
        },
        LinkEvent::SshRan(ok, code, out) => {
            let number = decimal_int(exit_code(code));
            let told = "❌ 远端处理失败，退出码: "@ + number + "，输出: "@ + trim(out);
            lemma_part_behind("❌ 远端处理失败，退出码: "@ + number + "，输出: "@, trim(out));
            lemma_part_between("❌ 远端处理失败，退出码: "@, number, "，输出: "@ + trim(out));
            assert(told =~= "❌ 远端处理失败，退出码: "@ + number + ("，输出: "@ + trim(out)));
            lemma_part_behind("公钥已存在于 "@, link.login);
            lemma_part_between("已将本地公钥添加到 "@, link.login, " 的 authorized_keys"@);
            lemma_part_between("已完成公钥安装（远端输出: "@, trim(out), "）"@);
        },
        _ => {},
    }
}

} // verus!
