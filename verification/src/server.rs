//! Servers, the collection that keeps them under their aliases, and the rows
//! that a database holds of them.
use vstd::prelude::*;
use vstd::string::*;

use crate::number::{decimal, decimal_int, parse_i64, read_i64, to_decimal_signed};
use crate::text::{
    cat2, comes_before, lemma_text_less_asymmetric, lemma_text_less_irreflexive,
    lemma_text_less_total, lemma_text_less_transitive, list1, listed, same, text_less, texts,
};

verus! {

/// The version of the stored configuration and data.
pub const PROTOCOL_VERSION: u32 = 2;

/// The version of the stored configuration and data.
pub fn get_protocol_version() -> (r: u32)
    ensures
        r == PROTOCOL_VERSION,
{
    PROTOCOL_VERSION
}

// ---------------------------------------------------------------------------
// A server
// ---------------------------------------------------------------------------

/// A server that can be reached under an alias.
#[derive(Debug)]
pub struct Server<S = String> {
    /// The number that the database gave it.
    pub id: Option<i64>,
    pub alias: Option<S>,
    pub username: S,
    pub address: S,
    pub port: u16,
    /// When it was last connected to, in seconds since 1970.
    pub last_connect: Option<S>,
}

/// The view of a text that may be missing.
pub open spec fn opt(t: Option<String>) -> Option<Seq<char>> {
    match t {
        Some(s) => Some(s@),
        None => None,
    }
}

/// Copies a text that may be missing.
pub fn copy_opt(t: &Option<String>) -> (r: Option<String>)
    ensures
        r == *t,
{
    match t {
        Some(s) => Some(s.clone()),
        None => None,
    }
}

impl View for Server<String> {
    type V = Server<Seq<char>>;

    open spec fn view(&self) -> Server<Seq<char>> {
        Server {
            id: self.id,
            alias: opt(self.alias),
            username: self.username@,
            address: self.address@,
            port: self.port,
            last_connect: opt(self.last_connect),
        }
    }
}

impl Clone for Server<String> {
    fn clone(&self) -> (r: Self)
        ensures
            r == *self,
    {
        Server {
            id: self.id,
            alias: copy_opt(&self.alias),
            username: self.username.clone(),
            address: self.address.clone(),
            port: self.port,
            last_connect: copy_opt(&self.last_connect),
        }
    }
}

/// How long ago a connection was, in words. `diff` is in seconds.
pub open spec fn ago(diff: int) -> Seq<char> {
    if diff < 60 {
        "刚刚"@
    } else if diff < 3600 {
        decimal((diff / 60) as nat) + "分钟前"@
    } else if diff < 86400 {
        decimal((diff / 3600) as nat) + "小时前"@
    } else if diff < 2 * 86400 {
        "昨天"@
    } else if diff < 3 * 86400 {
        "前天"@
    } else {
        decimal((diff / 86400) as nat) + "天前"@
    }
}

/// When the last connection was, in words, at the time `now`. What is no
/// number of seconds is shown as it stands.
pub open spec fn last_seen(last: Option<Seq<char>>, now: int) -> Seq<char> {
    match last {
        Some(t) => if t.len() == 0 {
            "从未"@
        } else {
            match read_i64(t) {
                Some(ts) => ago(now - ts),
                None => t,
            }
        },
        None => "从未"@,
    }
}

/// Puts into words when the last connection was, at the time `now`.
pub fn last_connect_display(last: &Option<String>, now: i64) -> (r: String)
    ensures
        r@ == last_seen(opt(*last), now as int),
{
    match last {
        Some(t) => {
            if t.as_str().is_empty() {
                return "从未".to_owned();
            }
            match parse_i64(t.as_str()) {
                Some(ts) => {
                    let diff: i128 = now as i128 - ts as i128;
                    if diff < 60 {
                        "刚刚".to_owned()
                    } else if diff < 3600 {
                        cat2(to_decimal_signed(diff / 60).as_str(), "分钟前")
                    } else if diff < 86400 {
                        cat2(to_decimal_signed(diff / 3600).as_str(), "小时前")
                    } else if diff < 2 * 86400 {
                        "昨天".to_owned()
                    } else if diff < 3 * 86400 {
                        "前天".to_owned()
                    } else {
                        cat2(to_decimal_signed(diff / 86400).as_str(), "天前")
                    }
                },
                None => t.clone(),
            }
        },
        None => "从未".to_owned(),
    }
}

/// The present time in seconds since 1970, by `chrono::Local::now` and
/// `timestamp`. Nothing is claimed of it: it depends on the clock.
#[verifier::external_body]
pub(crate) fn seconds_now() -> (r: i64) {
    chrono::Local::now().timestamp()
}

impl Server {
    /// When the last connection was, in words.
    pub fn get_last_connect_display(&self) -> (r: String)
        ensures
            exists|now: i64| r@ == #[trigger] last_seen(self@.last_connect, now as int),
    {
        let now: i64 = seconds_now();
        last_connect_display(&self.last_connect, now)
    }

    /// Notes `now` as the time of the last connection.
    pub fn set_last_connect(&mut self, now: i64)
        ensures
            final(self)@ == (Server {
                last_connect: Some(decimal_int(now as int)),
                ..old(self)@
            }),
    {
        self.last_connect = Some(to_decimal_signed(now as i128));
    }

    /// Notes the present as the time of the last connection.
    pub fn set_last_connect_now(&mut self)
        ensures
            exists|now: i64|
                final(self)@ == (Server {
                    last_connect: Some(#[trigger] decimal_int(now as int)),
                    ..old(self)@
                }),
    {
        let now: i64 = seconds_now();
        self.set_last_connect(now);
    }
}

/// A connection that was just noted shows as one that was just made.
pub proof fn noted_connection_shows_as_new(now: i64)
    ensures
        last_seen(Some(decimal_int(now as int)), now as int) == "刚刚"@,
{
    let d = decimal_int(now as int);
    if now < 0 {
        crate::number::decimal_reads_back((-now) as nat);
        assert(d.drop_first() =~= decimal((-now) as nat));
    } else {
        crate::number::decimal_reads_back(now as nat);
        assert(crate::number::is_digit(d[0]));
    }
    assert(read_i64(d) == Some(now as int));
}

/// A connection that was noted some time ago is shown by how long ago it was:
/// in full minutes within the hour, in full hours within the day, and in full
/// days from the third on. One that is not over for a minute, or is noted in
/// the future, has just been.
pub proof fn noted_connection_shows_its_age(then: i64, now: i64, n: nat)
    ensures
        ({
            let age = now - then;
            let shown = last_seen(Some(decimal_int(then as int)), now as int);
            &&& age < 60 ==> shown == "刚刚"@
            &&& age >= 60 && 60 * n <= age < 60 * (n + 1) && n < 60 ==> shown == decimal(n)
                + "分钟前"@
            &&& n >= 1 && 3600 * n <= age < 3600 * (n + 1) && n < 24 ==> shown == decimal(n)
                + "小时前"@
            &&& 24 * 3600 <= age < 48 * 3600 ==> shown == "昨天"@
            &&& 48 * 3600 <= age < 72 * 3600 ==> shown == "前天"@
            &&& n >= 3 && 86400 * n <= age < 86400 * (n + 1) ==> shown == decimal(n) + "天前"@
        }),
{
    let d = decimal_int(then as int);
    if then < 0 {
        crate::number::decimal_reads_back((-then) as nat);
        assert(d.drop_first() =~= decimal((-then) as nat));
    } else {
        crate::number::decimal_reads_back(then as nat);
        assert(crate::number::is_digit(d[0]));
    }
    assert(read_i64(d) == Some(then as int));
}

/// Where no connection was noted, that is said; what is no time is shown as it
/// stands.
pub proof fn other_notes_are_shown_as_they_are(text: Seq<char>, now: int)
    ensures
        last_seen(None, now) == "从未"@,
        text.len() == 0 ==> last_seen(Some(text), now) == "从未"@,
        text.len() > 0 && read_i64(text) is None ==> last_seen(Some(text), now) == text,
{
}

// ---------------------------------------------------------------------------
// The collection
// ---------------------------------------------------------------------------

/// A server with the alias that it is kept under.
#[derive(Debug)]
pub struct HostEntry<S = String> {
    pub key: S,
    pub server: Server<S>,
}

impl View for HostEntry<String> {
    type V = HostEntry<Seq<char>>;

    open spec fn view(&self) -> HostEntry<Seq<char>> {
        HostEntry { key: self.key@, server: self.server@ }
    }
}

/// Servers with their aliases, in the order of the aliases.
pub type Hosts = Seq<HostEntry<Seq<char>>>;

/// Whether the aliases ascend, so that none occurs twice.
pub open spec fn ascending(h: Hosts) -> bool {
    forall|i: int, j: int|
        0 <= i < j < h.len() ==> text_less((#[trigger] h[i]).key, (#[trigger] h[j]).key)
}

/// The position of an alias; the length where it does not occur.
pub open spec fn place_of(h: Hosts, key: Seq<char>) -> nat
    decreases h.len(),
{
    if h.len() == 0 || h[0].key == key {
        0
    } else {
        1 + place_of(h.drop_first(), key)
    }
}

/// Whether an alias occurs.
pub open spec fn has_host(h: Hosts, key: Seq<char>) -> bool {
    place_of(h, key) < h.len()
}

/// The server under an alias.
pub open spec fn host(h: Hosts, key: Seq<char>) -> Option<Server<Seq<char>>> {
    if has_host(h, key) {
        Some(h[place_of(h, key) as int].server)
    } else {
        None
    }
}

/// With a server put under an alias: in the place of the one that is there,
/// or else before the first alias that comes later.
pub open spec fn put(h: Hosts, key: Seq<char>, server: Server<Seq<char>>) -> Hosts
    decreases h.len(),
{
    if h.len() == 0 || text_less(key, h[0].key) {
        seq![HostEntry { key, server }] + h
    } else if h[0].key == key {
        seq![HostEntry { key, server }] + h.drop_first()
    } else {
        seq![h[0]] + put(h.drop_first(), key, server)
    }
}

/// Without the server under an alias.
pub open spec fn without(h: Hosts, key: Seq<char>) -> Hosts {
    if has_host(h, key) {
        h.remove(place_of(h, key) as int)
    } else {
        h
    }
}

/// A server with its alias filled in where it has none.
pub open spec fn with_alias(server: Server<Seq<char>>, key: Seq<char>) -> Server<Seq<char>> {
    if server.alias is None {
        Server { alias: Some(key), ..server }
    } else {
        server
    }
}

proof fn lemma_place_of(h: Hosts, key: Seq<char>)
    ensures
        place_of(h, key) <= h.len(),
        place_of(h, key) < h.len() ==> h[place_of(h, key) as int].key == key,
        forall|j: int| 0 <= j < place_of(h, key) ==> (#[trigger] h[j]).key != key,
    decreases h.len(),
{
    if h.len() > 0 && h[0].key != key {
        let rest = h.drop_first();
        lemma_place_of(rest, key);
        assert forall|j: int| 0 <= j < place_of(h, key) implies (#[trigger] h[j]).key != key by {
            if j > 0 {
                assert(h[j] == rest[j - 1]);
            }
        }
    }
}

proof fn lemma_place_is(h: Hosts, key: Seq<char>, p: int)
    requires
        0 <= p <= h.len(),
        p < h.len() ==> h[p].key == key,
        forall|j: int| 0 <= j < p ==> (#[trigger] h[j]).key != key,
    ensures
        place_of(h, key) == p,
{
    lemma_place_of(h, key);
    let q = place_of(h, key) as int;
    if q < p {
        assert(h[q].key != key);
    }
    if p < q {
        assert(h[p].key != key);
    }
}

/// Where the key goes: every earlier entry is before it, and the entry there,
/// if any, is not.
proof fn lemma_put_at(h: Hosts, key: Seq<char>, server: Server<Seq<char>>, i: int)
    requires
        0 <= i <= h.len(),
        forall|j: int|
            0 <= j < i ==> !text_less(key, (#[trigger] h[j]).key) && h[j].key != key,
        i < h.len() ==> text_less(key, h[i].key) || h[i].key == key,
    ensures
        put(h, key, server) == if i < h.len() && h[i].key == key {
            h.update(i, HostEntry { key, server })
        } else {
            h.insert(i, HostEntry { key, server })
        },
    decreases h.len(),
{
    let e = HostEntry { key, server };
    if i < h.len() && h[i].key == key {
        lemma_text_less_irreflexive(key);
    }
    if i == 0 {
        if h.len() > 0 && h[0].key == key {
            assert(put(h, key, server) =~= h.update(0, e));
        } else {
            assert(put(h, key, server) =~= h.insert(0, e));
        }
    } else {
        let rest = h.drop_first();
        assert(h[0].key != key && !text_less(key, h[0].key));
        assert forall|j: int| 0 <= j < i - 1 implies !text_less(key, (#[trigger] rest[j]).key)
            && rest[j].key != key by {
            assert(rest[j] == h[j + 1]);
        }
        lemma_put_at(rest, key, server, i - 1);
        if i < h.len() && h[i].key == key {
            assert(seq![h[0]] + rest.update(i - 1, e) =~= h.update(i, e));
        } else {
            assert(seq![h[0]] + rest.insert(i - 1, e) =~= h.insert(i, e));
        }
    }
}

proof fn lemma_put_place(h: Hosts, key: Seq<char>) -> (i: int)
    requires
        ascending(h),
    ensures
        0 <= i <= h.len(),
        forall|j: int| 0 <= j < i ==> text_less((#[trigger] h[j]).key, key),
        forall|j: int| 0 <= j < i ==> !text_less(key, (#[trigger] h[j]).key) && h[j].key != key,
        i < h.len() ==> text_less(key, h[i].key) || h[i].key == key,
        forall|j: int| i < j < h.len() ==> text_less(key, (#[trigger] h[j]).key),
    decreases h.len(),
{
    if h.len() == 0 {
        0
    } else {
        let front = h.drop_last();
        let last = h.last().key;
        lemma_text_less_total(key, last);
        if text_less(last, key) {
            assert forall|j: int| 0 <= j < h.len() implies text_less((#[trigger] h[j]).key, key)
                && !text_less(key, h[j].key) && h[j].key != key by {
                if j < h.len() - 1 {
                    assert(text_less(h[j].key, h[h.len() - 1].key));
                    lemma_text_less_transitive(h[j].key, last, key);
                }
                lemma_text_less_asymmetric(h[j].key, key);
            }
            h.len() as int
        } else {
            assert(ascending(front)) by {
                assert forall|i: int, j: int| 0 <= i < j < front.len() implies text_less(
                    (#[trigger] front[i]).key,
                    (#[trigger] front[j]).key,
                ) by {
                    assert(front[i] == h[i] && front[j] == h[j]);
                }
            }
            let i = lemma_put_place(front, key);
            assert forall|j: int| 0 <= j < i implies text_less((#[trigger] h[j]).key, key)
                && !text_less(key, h[j].key) && h[j].key != key by {
                assert(front[j] == h[j]);
            }
            if i < front.len() {
                assert(front[i] == h[i]);
                assert(text_less(h[i].key, h[h.len() - 1].key));
                if text_less(key, h[i].key) {
                    lemma_text_less_transitive(key, h[i].key, last);
                }
                assert forall|j: int| i < j < h.len() implies text_less(
                    key,
                    (#[trigger] h[j]).key,
                ) by {
                    if j < front.len() {
                        assert(front[j] == h[j]);
                    }
                }
            }
            i
        }
    }
}

/// Putting a server in keeps the aliases in order.
pub proof fn put_keeps_order(h: Hosts, key: Seq<char>, server: Server<Seq<char>>)
    requires
        ascending(h),
    ensures
        ascending(put(h, key, server)),
{
    let i = lemma_put_place(h, key);
    lemma_put_at(h, key, server, i);
    let p = put(h, key, server);
    assert forall|a: int, b: int| 0 <= a < b < p.len() implies text_less(
        (#[trigger] p[a]).key,
        (#[trigger] p[b]).key,
    ) by {
        if i < h.len() && h[i].key == key {
            assert(p[a].key == h[a].key && p[b].key == h[b].key);
            assert(text_less(h[a].key, h[b].key));
        } else {
            if b < i {
                assert(p[a] == h[a] && p[b] == h[b]);
            } else if b == i {
                assert(p[a] == h[a]);
            } else if a < i {
                assert(p[a] == h[a] && p[b] == h[b - 1]);
            } else if a == i {
                assert(p[b] == h[b - 1]);
            } else {
                assert(p[a] == h[a - 1] && p[b] == h[b - 1]);
            }
        }
    }
}

/// Taking a server out keeps the aliases in order.
pub proof fn removal_keeps_order(h: Hosts, key: Seq<char>)
    requires
        ascending(h),
    ensures
        ascending(without(h, key)),
{
    if has_host(h, key) {
        lemma_place_of(h, key);
        let q = place_of(h, key) as int;
        let w = without(h, key);
        assert forall|a: int, b: int| 0 <= a < b < w.len() implies text_less(
            (#[trigger] w[a]).key,
            (#[trigger] w[b]).key,
        ) by {
            let x = if a < q { a } else { a + 1 };
            let y = if b < q { b } else { b + 1 };
            assert(w[a] == h[x] && w[b] == h[y]);
        }
    }
}

proof fn lemma_unique(h: Hosts, i: int, j: int)
    requires
        ascending(h),
        0 <= i < h.len(),
        0 <= j < h.len(),
        h[i].key == h[j].key,
    ensures
        i == j,
{
    lemma_text_less_irreflexive(h[i].key);
    if i < j {
        assert(text_less(h[i].key, h[j].key));
    }
    if j < i {
        assert(text_less(h[j].key, h[i].key));
    }
}

/// What was put under an alias is found there, and every other alias leads
/// where it led before.
pub proof fn put_then_find(
    h: Hosts,
    key: Seq<char>,
    server: Server<Seq<char>>,
    other: Seq<char>,
)
    requires
        ascending(h),
    ensures
        host(put(h, key, server), key) == Some(server),
        other != key ==> host(put(h, key, server), other) == host(h, other),
{
    let i = lemma_put_place(h, key);
    lemma_put_at(h, key, server, i);
    let p = put(h, key, server);
    assert forall|j: int| 0 <= j < i implies (#[trigger] p[j]).key != key by {
        assert(p[j] == h[j]);
    }
    lemma_place_is(p, key, i);
    if other != key {
        lemma_place_of(h, other);
        let q = place_of(h, other) as int;
        let replaced = i < h.len() && h[i].key == key;
        let t = if replaced || q < i { q } else { q + 1 };
        assert forall|j: int| 0 <= j < t implies (#[trigger] p[j]).key != other by {
            if replaced {
                if j != i {
                    assert(p[j] == h[j]);
                }
            } else if j < i {
                assert(p[j] == h[j]);
            } else if j > i {
                assert(p[j] == h[j - 1]);
            }
        }
        if q < h.len() {
            assert(p[t] == h[q]);
        }
        lemma_place_is(p, other, t);
    }
}

/// An alias that occurs stands in its place.
pub proof fn host_is_at_its_place(h: Hosts, key: Seq<char>)
    ensures
        place_of(h, key) <= h.len(),
        has_host(h, key) ==> h[place_of(h, key) as int].key == key,
{
    lemma_place_of(h, key);
}

/// Every server is found under the alias that it stands with.
pub proof fn each_server_is_found(h: Hosts, i: int)
    requires
        ascending(h),
        0 <= i < h.len(),
    ensures
        host(h, h[i].key) == Some(h[i].server),
        place_of(h, h[i].key) == i,
{
    assert forall|j: int| 0 <= j < i implies (#[trigger] h[j]).key != h[i].key by {
        if h[j].key == h[i].key {
            lemma_unique(h, j, i);
        }
    }
    lemma_place_is(h, h[i].key, i);
}

/// Putting a server in adds one at most.
pub proof fn put_length(h: Hosts, key: Seq<char>, server: Server<Seq<char>>)
    ensures
        h.len() <= put(h, key, server).len() <= h.len() + 1,
        put(h, key, server).len() > 0,
    decreases h.len(),
{
    if !(h.len() == 0 || text_less(key, h[0].key) || h[0].key == key) {
        put_length(h.drop_first(), key, server);
    }
}

/// What was taken out is found no more, and every other alias leads where it
/// led before.
pub proof fn removed_then_find(h: Hosts, key: Seq<char>, other: Seq<char>)
    requires
        ascending(h),
    ensures
        host(without(h, key), key) is None,
        other != key ==> host(without(h, key), other) == host(h, other),
{
    lemma_place_of(h, key);
    lemma_place_of(h, other);
    let w = without(h, key);
    if has_host(h, key) {
        let q = place_of(h, key) as int;
        assert forall|j: int| 0 <= j < w.len() implies (#[trigger] w[j]).key != key by {
            let x = if j < q { j } else { j + 1 };
            assert(w[j] == h[x]);
            if h[x].key == key {
                lemma_unique(h, x, q);
            }
        }
        lemma_place_is(w, key, w.len() as int);
        if other != key {
            let o = place_of(h, other) as int;
            let t = if o < q { o } else { o - 1 };
            assert forall|j: int| 0 <= j < t implies (#[trigger] w[j]).key != other by {
                let x = if j < q { j } else { j + 1 };
                assert(w[j] == h[x]);
            }
            if o < h.len() {
                assert(w[t] == h[o]);
            }
            lemma_place_is(w, other, t);
        }
    }
}

/// The servers that are known, each under its alias.
pub struct ServerCollection {
    hosts: Vec<HostEntry>,
}

impl View for ServerCollection {
    type V = Hosts;

    closed spec fn view(&self) -> Hosts {
        self.hosts@.map_values(|e: HostEntry| e@)
    }
}

impl ServerCollection {
    /// The servers are in the order of their aliases, each alias once.
    #[verifier::type_invariant]
    pub open spec fn in_order(self) -> bool {
        ascending(self@)
    }
}

impl Default for ServerCollection {
    /// No servers.
    fn default() -> (r: Self)
        ensures
            r@ == Hosts::empty(),
    {
        let hosts: Vec<HostEntry> = Vec::new();
        proof {
            assert(hosts@.map_values(|e: HostEntry| e@) =~= Hosts::empty());
        }
        ServerCollection { hosts }
    }
}

impl Clone for ServerCollection {
    fn clone(&self) -> (r: Self)
        ensures
            r@ == self@,
    {
        let mut hosts: Vec<HostEntry> = Vec::new();
        let mut i: usize = 0;
        while i < self.hosts.len()
            invariant
                i <= self.hosts.len(),
                hosts.len() == i,
                forall|j: int| 0 <= j < i ==> (#[trigger] hosts[j]) == self.hosts[j],
            decreases self.hosts.len() - i,
        {
            hosts.push(
                HostEntry { key: self.hosts[i].key.clone(), server: self.hosts[i].server.clone() },
            );
            i = i + 1;
        }
        proof {
            use_type_invariant(self);
            assert(hosts@.map_values(|e: HostEntry| e@) =~= self@);
        }
        ServerCollection { hosts }
    }
}

impl ServerCollection {
    /// The position of an alias.
    pub fn position(&self, key: &str) -> (r: Option<usize>)
        ensures
            match r {
                Some(i) => i == place_of(self@, key@) && i < self@.len() && self@[i as int].key
                    == key@,
                None => !has_host(self@, key@),
            },
    {
        let mut i: usize = 0;
        while i < self.hosts.len()
            invariant
                i <= self.hosts.len(),
                forall|j: int| 0 <= j < i ==> (#[trigger] self@[j]).key != key@,
            decreases self.hosts.len() - i,
        {
            proof {
                assert(self@[i as int] == self.hosts@[i as int]@);
            }
            if same(self.hosts[i].key.as_str(), key) {
                proof {
                    lemma_place_is(self@, key@, i as int);
                }
                return Some(i);
            }
            i = i + 1;
        }
        proof {
            lemma_place_is(self@, key@, i as int);
        }
        None
    }

    /// The server under an alias.
    pub fn get(&self, key: &str) -> (r: Option<&Server>)
        ensures
            match r {
                Some(s) => host(self@, key@) == Some(s@),
                None => host(self@, key@) is None,
            },
    {
        match self.position(key) {
            Some(i) => {
                proof {
                    assert(self@[i as int] == self.hosts@[i as int]@);
                }
                Some(&self.hosts[i].server)
            },
            None => None,
        }
    }

    /// Puts a server under an alias, which becomes its own where it has none.
    pub fn insert(&mut self, key: &str, server: Server) -> (r: &mut Self)
        ensures
            r@ == put(old(self)@, key@, with_alias(server@, key@)),
            ascending(r@),
            *final(self) == *final(r),
    {
        let mut server = server;
        if server.alias.is_none() {
            server.alias = Some(key.to_owned());
        }
        let ghost before = self@;
        let ghost filled = server@;
        let ghost view = |e: HostEntry| e@;
        proof {
            use_type_invariant(&*self);
            put_keeps_order(before, key@, filled);
            assert(Seq::<HostEntry>::empty().map_values(view) =~= Hosts::empty());
        }
        let mut hosts: Vec<HostEntry> = Vec::new();
        std::mem::swap(&mut hosts, &mut self.hosts);
        let mut i: usize = 0;
        while i < hosts.len() && !comes_before(key, hosts[i].key.as_str()) && !same(
            hosts[i].key.as_str(),
            key,
        )
            invariant
                i <= hosts.len(),
                view == (|e: HostEntry| e@),
                hosts@.map_values(view) == before,
                forall|j: int|
                    0 <= j < i ==> !text_less(key@, (#[trigger] before[j]).key) && before[j].key
                        != key@,
            decreases hosts.len() - i,
        {
            proof {
                assert(before[i as int] == hosts@[i as int]@);
            }
            i = i + 1;
        }
        proof {
            if i < hosts.len() {
                assert(before[i as int] == hosts@[i as int]@);
            }
            lemma_put_at(before, key@, filled, i as int);
        }
        let entry = HostEntry { key: key.to_owned(), server };
        if i < hosts.len() && same(hosts[i].key.as_str(), key) {
            hosts.set(i, entry);
            proof {
                assert(hosts@.map_values(view) =~= before.update(
                    i as int,
                    HostEntry { key: key@, server: filled },
                ));
            }
        } else {
            hosts.insert(i, entry);
            proof {
                assert(hosts@.map_values(view) =~= before.insert(
                    i as int,
                    HostEntry { key: key@, server: filled },
                ));
            }
        }
        self.hosts = hosts;
        self
    }

    /// Takes the server under an alias out.
    pub fn remove(&mut self, key: &str) -> (r: &mut Self)
        ensures
            r@ == without(old(self)@, key@),
            ascending(r@),
            *final(self) == *final(r),
    {
        let ghost before = self@;
        let ghost view = |e: HostEntry| e@;
        proof {
            use_type_invariant(&*self);
            removal_keeps_order(before, key@);
            assert(Seq::<HostEntry>::empty().map_values(view) =~= Hosts::empty());
        }
        match self.position(key) {
            Some(i) => {
                let mut hosts: Vec<HostEntry> = Vec::new();
                std::mem::swap(&mut hosts, &mut self.hosts);
                let _gone = hosts.remove(i);
                proof {
                    assert(hosts@.map_values(view) =~= before.remove(i as int));
                }
                self.hosts = hosts;
            },
            None => {},
        }
        self
    }

    /// Whether no server is known.
    pub fn is_empty(&self) -> (r: bool)
        ensures
            r == (self@.len() == 0),
    {
        self.hosts.len() == 0
    }

    /// The servers in the order of their aliases.
    pub fn hosts(&self) -> (r: &Vec<HostEntry>)
        ensures
            r@.map_values(|e: HostEntry| e@) == self@,
            r.len() == self@.len(),
            forall|i: int| 0 <= i < r.len() ==> (#[trigger] r@[i])@ == self@[i],
            ascending(self@),
    {
        proof {
            use_type_invariant(self);
        }
        &self.hosts
    }
}

// ---------------------------------------------------------------------------
// Rows of the database
// ---------------------------------------------------------------------------

/// A server as a row of the database. A row that is written has no number
/// yet: the database assigns one.
#[derive(Debug)]
pub struct ServerRow<S = String> {
    pub id: Option<i64>,
    pub alias: S,
    pub username: S,
    pub address: S,
    pub port: u16,
    pub last_connect: Option<S>,
}

impl View for ServerRow<String> {
    type V = ServerRow<Seq<char>>;

    open spec fn view(&self) -> ServerRow<Seq<char>> {
        ServerRow {
            id: self.id,
            alias: self.alias@,
            username: self.username@,
            address: self.address@,
            port: self.port,
            last_connect: opt(self.last_connect),
        }
    }
}

/// The server that a row stands for.
pub open spec fn server_of(row: ServerRow<Seq<char>>) -> Server<Seq<char>> {
    Server {
        id: row.id,
        alias: Some(row.alias),
        username: row.username,
        address: row.address,
        port: row.port,
        last_connect: row.last_connect,
    }
}

/// The row that a server is written as: under the alias that it is kept under,
/// and without a number.
pub open spec fn row_of(e: HostEntry<Seq<char>>) -> ServerRow<Seq<char>> {
    ServerRow {
        id: None,
        alias: e.key,
        username: e.server.username,
        address: e.server.address,
        port: e.server.port,
        last_connect: e.server.last_connect,
    }
}

/// The servers of a series of rows, of which a later one replaces an earlier
/// one with its alias.
pub open spec fn collected(rows: Seq<ServerRow<Seq<char>>>) -> Hosts
    decreases rows.len(),
{
    if rows.len() == 0 {
        Seq::empty()
    } else {
        put(collected(rows.drop_last()), rows.last().alias, server_of(rows.last()))
    }
}

/// The servers of a series of rows are in order.
pub proof fn collected_in_order(rows: Seq<ServerRow<Seq<char>>>)
    ensures
        ascending(collected(rows)),
    decreases rows.len(),
{
    if rows.len() > 0 {
        collected_in_order(rows.drop_last());
        put_keeps_order(
            collected(rows.drop_last()),
            rows.last().alias,
            server_of(rows.last()),
        );
    }
}

/// A table for people: a server's alias, user, address and port, and when the
/// last connection was.
pub struct TableRow<S = String> {
    pub alias: S,
    pub username: S,
    pub address: S,
    pub port: u16,
    pub last_connect: S,
}

/// The titles of the columns of the table.
pub fn table_title() -> (r: Vec<String>)
    ensures
        texts(r@) == seq!["Alias"@, "Username"@, "Address"@, "Port"@, "Last Connect"@],
{
    let v = listed(
        listed(
            listed(
                listed(list1("Alias".to_owned()), "Username".to_owned()),
                "Address".to_owned(),
            ),
            "Port".to_owned(),
        ),
        "Last Connect".to_owned(),
    );
    proof {
        assert(texts(v@) =~= seq!["Alias"@, "Username"@, "Address"@, "Port"@, "Last Connect"@]);
    }
    v
}

/// Whether a row shows a server, at some time.
pub open spec fn shows(row: TableRow, e: HostEntry<Seq<char>>) -> bool {
    &&& row.alias@ == e.key
    &&& row.username@ == e.server.username
    &&& row.address@ == e.server.address
    &&& row.port == e.server.port
    &&& exists|now: i64| row.last_connect@ == #[trigger] last_seen(e.server.last_connect, now as int)
}

impl ServerCollection {
    /// The collection that rows of the database hold.
    pub fn read_from_storage(rows: Vec<ServerRow>) -> (r: Self)
        ensures
            r@ == collected(rows@.map_values(|row: ServerRow| row@)),
    {
        let ghost view = |row: ServerRow| row@;
        let ghost all = rows@.map_values(view);
        let mut r = ServerCollection::default();
        let mut i: usize = 0;
        while i < rows.len()
            invariant
                i <= rows.len(),
                view == (|row: ServerRow| row@),
                all == rows@.map_values(view),
                r@ == collected(all.take(i as int)),
            decreases rows.len() - i,
        {
            let server = Server {
                id: rows[i].id,
                alias: Some(rows[i].alias.clone()),
                username: rows[i].username.clone(),
                address: rows[i].address.clone(),
                port: rows[i].port,
                last_connect: copy_opt(&rows[i].last_connect),
            };
            proof {
                let next = all.take(i + 1);
                assert(next.drop_last() =~= all.take(i as int));
                assert(next.last() == rows@[i as int]@);
                assert(server@ == server_of(next.last()));
            }
            r.insert(rows[i].alias.as_str(), server);
            i = i + 1;
        }
        proof {
            assert(all.take(i as int) =~= all);
        }
        r
    }

    /// The rows that replace those in the database.
    pub fn save_to_storage(&self) -> (r: Vec<ServerRow>)
        ensures
            r@.map_values(|row: ServerRow| row@) == self@.map_values(
                |e: HostEntry<Seq<char>>| row_of(e),
            ),
    {
        let mut r: Vec<ServerRow> = Vec::new();
        let mut i: usize = 0;
        while i < self.hosts.len()
            invariant
                i <= self.hosts.len(),
                r.len() == i,
                forall|j: int| 0 <= j < i ==> (#[trigger] r@[j])@ == row_of(self@[j]),
            decreases self.hosts.len() - i,
        {
            let e = &self.hosts[i];
            proof {
                assert(self@[i as int] == self.hosts@[i as int]@);
            }
            r.push(
                ServerRow {
                    id: None,
                    alias: e.key.clone(),
                    username: e.server.username.clone(),
                    address: e.server.address.clone(),
                    port: e.server.port,
                    last_connect: copy_opt(&e.server.last_connect),
                },
            );
            i = i + 1;
        }
        proof {
            assert(r@.map_values(|row: ServerRow| row@) =~= self@.map_values(
                |e: HostEntry<Seq<char>>| row_of(e),
            ));
        }
        r
    }

    /// The rows of a table of all servers.
    pub fn show_table(&self) -> (r: Vec<TableRow>)
        ensures
            r.len() == self@.len(),
            forall|i: int| 0 <= i < r.len() ==> shows(#[trigger] r@[i], self@[i]),
    {
        let mut r: Vec<TableRow> = Vec::new();
        let mut i: usize = 0;
        while i < self.hosts.len()
            invariant
                i <= self.hosts.len(),
                r.len() == i,
                forall|j: int| 0 <= j < i ==> shows(#[trigger] r@[j], self@[j]),
            decreases self.hosts.len() - i,
        {
            let e = &self.hosts[i];
            proof {
                assert(self@[i as int] == self.hosts@[i as int]@);
            }
            r.push(
                TableRow {
                    alias: e.key.clone(),
                    username: e.server.username.clone(),
                    address: e.server.address.clone(),
                    port: e.server.port,
                    last_connect: e.server.get_last_connect_display(),
                },
            );
            i = i + 1;
        }
        r
    }
}

/// Whether a row is what became of a server in the database: a number may have
/// been assigned, the rest is as it was written.
pub open spec fn stored_as(row: ServerRow<Seq<char>>, e: HostEntry<Seq<char>>) -> bool {
    row == ServerRow { id: row.id, ..row_of(e) }
}

proof fn lemma_collected_host(rows: Seq<ServerRow<Seq<char>>>, key: Seq<char>)
    ensures
        match host(collected(rows), key) {
            Some(s) => exists|j: int|
                0 <= j < rows.len() && s == server_of(#[trigger] rows[j]) && rows[j].alias == key,
            None => forall|j: int| 0 <= j < rows.len() ==> (#[trigger] rows[j]).alias != key,
        },
    decreases rows.len(),
{
    if rows.len() == 0 {
        assert(!has_host(collected(rows), key));
    } else {
        let front = rows.drop_last();
        let last = rows.last();
        lemma_collected_host(front, key);
        collected_in_order(front);
        put_then_find(collected(front), last.alias, server_of(last), key);
        if last.alias == key {
            assert(rows[rows.len() - 1] == last);
        } else {
            match host(collected(front), key) {
                Some(s) => {
                    let j = choose|j: int|
                        0 <= j < front.len() && s == server_of(#[trigger] front[j])
                            && front[j].alias == key;
                    assert(rows[j] == front[j]);
                },
                None => {
                    assert forall|j: int| 0 <= j < rows.len() implies (#[trigger] rows[j]).alias
                        != key by {
                        if j < front.len() {
                            assert(rows[j] == front[j]);
                        }
                    }
                },
            }
        }
    }
}

/// Two series of servers in order with the same aliases have them in the same
/// places.
proof fn lemma_same_places(a: Hosts, b: Hosts)
    requires
        ascending(a),
        ascending(b),
        forall|k: Seq<char>| has_host(a, k) <==> has_host(b, k),
    ensures
        a.len() == b.len(),
        forall|i: int| 0 <= i < a.len() ==> (#[trigger] a[i]).key == b[i].key,
    decreases a.len(),
{
    if a.len() == 0 {
        if b.len() > 0 {
            lemma_place_is(b, b[0].key, 0);
            assert(has_host(a, b[0].key));
        }
    } else {
        let ka = a[0].key;
        lemma_place_is(a, ka, 0);
        assert(has_host(b, ka));
        lemma_place_of(b, ka);
        let kb = b[0].key;
        lemma_place_is(b, kb, 0);
        assert(has_host(a, kb));
        lemma_place_of(a, kb);
        if ka != kb {
            let p = place_of(b, ka) as int;
            let q = place_of(a, kb) as int;
            assert(text_less(b[0].key, b[p].key));
            assert(text_less(a[0].key, a[q].key));
            lemma_text_less_asymmetric(ka, kb);
        }
        let ra = a.drop_first();
        let rb = b.drop_first();
        lemma_drop_first(a);
        lemma_drop_first(b);
        assert forall|k: Seq<char>| has_host(ra, k) <==> has_host(rb, k) by {
            assert(has_host(ra, k) <==> has_host(a, k) && k != ka);
            assert(has_host(rb, k) <==> has_host(b, k) && k != kb);
        }
        lemma_same_places(ra, rb);
        assert forall|i: int| 0 <= i < a.len() implies (#[trigger] a[i]).key == b[i].key by {
            if i > 0 {
                assert(a[i] == ra[i - 1] && b[i] == rb[i - 1]);
            }
        }
    }
}

proof fn lemma_drop_first(h: Hosts)
    requires
        ascending(h),
        h.len() > 0,
    ensures
        ascending(h.drop_first()),
        forall|k: Seq<char>|
            #[trigger] has_host(h.drop_first(), k) <==> has_host(h, k) && k != h[0].key,
{
    let r = h.drop_first();
    assert forall|i: int, j: int| 0 <= i < j < r.len() implies text_less(
        (#[trigger] r[i]).key,
        (#[trigger] r[j]).key,
    ) by {
        assert(r[i] == h[i + 1] && r[j] == h[j + 1]);
    }
    assert forall|k: Seq<char>| #[trigger] has_host(r, k) <==> has_host(h, k) && k != h[0].key by {
        lemma_place_of(r, k);
        lemma_place_of(h, k);
        if has_host(r, k) {
            let p = place_of(r, k) as int;
            assert(h[p + 1] == r[p]);
            if k == h[0].key {
                lemma_unique(h, 0, p + 1);
            }
        }
    }
}

/// Whether a server has the number of a row with that alias.
pub open spec fn number_of_row(
    rows: Seq<ServerRow<Seq<char>>>,
    alias: Seq<char>,
    id: Option<i64>,
) -> bool {
    exists|j: int| 0 <= j < rows.len() && (#[trigger] rows[j]).alias == alias && rows[j].id == id
}

/// Whether every row has a number, and no two the same, as in a database that
/// assigns them.
pub open spec fn numbered(rows: Seq<ServerRow<Seq<char>>>) -> bool {
    &&& forall|j: int| 0 <= j < rows.len() ==> (#[trigger] rows[j]).id is Some
    &&& forall|j: int, k: int|
        0 <= j < k < rows.len() ==> (#[trigger] rows[j]).id != (#[trigger] rows[k]).id
}

proof fn lemma_numbers_differ(h: Hosts, c: Hosts, rows: Seq<ServerRow<Seq<char>>>)
    requires
        ascending(h),
        c.len() == h.len(),
        numbered(rows),
        forall|i: int|
            0 <= i < h.len() ==> number_of_row(rows, h[i].key, (#[trigger] c[i]).server.id),
    ensures
        forall|i: int| 0 <= i < c.len() ==> (#[trigger] c[i]).server.id is Some,
        forall|i: int, k: int|
            0 <= i < k < c.len() ==> (#[trigger] c[i]).server.id != (#[trigger] c[k]).server.id,
{
    assert forall|i: int, k: int| 0 <= i < k < c.len() implies (#[trigger] c[i]).server.id != (
    #[trigger] c[k]).server.id by {
        let a = choose|j: int|
            0 <= j < rows.len() && (#[trigger] rows[j]).alias == h[i].key && rows[j].id
                == c[i].server.id;
        let b = choose|j: int|
            0 <= j < rows.len() && (#[trigger] rows[j]).alias == h[k].key && rows[j].id
                == c[k].server.id;
        assert(text_less(h[i].key, h[k].key));
        lemma_text_less_irreflexive(h[i].key);
        if a < b {
            assert(rows[a].id != rows[b].id);
        } else {
            assert(rows[b].id != rows[a].id);
        }
    }
}

/// What a collection gives to the database it gets back, in whatever order the
/// rows come: the same aliases in the same places, each with the same user,
/// address, port and last connection, and with the number of a row with that
/// alias. Where the database has assigned the numbers, every server has one,
/// and no two the same.
pub proof fn storage_gives_back(h: Hosts, rows: Seq<ServerRow<Seq<char>>>)
    requires
        ascending(h),
        forall|i: int|
            0 <= i < h.len() ==> exists|j: int|
                0 <= j < rows.len() && stored_as(#[trigger] rows[j], #[trigger] h[i]),
        forall|j: int|
            0 <= j < rows.len() ==> exists|i: int|
                0 <= i < h.len() && stored_as(#[trigger] rows[j], #[trigger] h[i]),
    ensures
        collected(rows).len() == h.len(),
        forall|i: int|
            0 <= i < h.len() ==> {
                let back = #[trigger] collected(rows)[i];
                &&& back.key == h[i].key
                &&& back.server == Server {
                    id: back.server.id,
                    alias: Some(h[i].key),
                    ..h[i].server
                }
                &&& number_of_row(rows, h[i].key, back.server.id)
            },
        numbered(rows) ==> forall|i: int|
            0 <= i < h.len() ==> (#[trigger] collected(rows)[i]).server.id is Some,
        numbered(rows) ==> forall|i: int, k: int|
            0 <= i < k < h.len() ==> (#[trigger] collected(rows)[i]).server.id != (
            #[trigger] collected(rows)[k]).server.id,
{
    let c = collected(rows);
    collected_in_order(rows);
    assert forall|k: Seq<char>| has_host(c, k) <==> has_host(h, k) by {
        lemma_collected_host(rows, k);
        lemma_place_of(h, k);
        if has_host(c, k) {
            let s = host(c, k)->Some_0;
            let j = choose|j: int|
                0 <= j < rows.len() && s == server_of(#[trigger] rows[j]) && rows[j].alias == k;
            let i = choose|i: int| 0 <= i < h.len() && stored_as(rows[j], #[trigger] h[i]);
            assert(h[i].key == k);
            if !has_host(h, k) {
                assert(h[i].key != k);
            }
        }
        if has_host(h, k) {
            let i = place_of(h, k) as int;
            let j = choose|j: int| 0 <= j < rows.len() && stored_as(#[trigger] rows[j], h[i]);
            assert(rows[j].alias == k);
        }
    }
    lemma_same_places(c, h);
    assert forall|i: int| 0 <= i < h.len() implies {
        let back = #[trigger] c[i];
        &&& back.key == h[i].key
        &&& back.server == Server { id: back.server.id, alias: Some(h[i].key), ..h[i].server }
        &&& number_of_row(rows, h[i].key, back.server.id)
    } by {
        let k = h[i].key;
        assert(c[i].key == k);
        lemma_place_of(c, k);
        assert(has_host(c, k)) by {
            if !has_host(c, k) {
                assert(c[i].key != k);
            }
        }
        lemma_unique(c, i, place_of(c, k) as int);
        lemma_collected_host(rows, k);
        let s = host(c, k)->Some_0;
        let j = choose|j: int|
            0 <= j < rows.len() && s == server_of(#[trigger] rows[j]) && rows[j].alias == k;
        let m = choose|m: int| 0 <= m < h.len() && stored_as(rows[j], #[trigger] h[m]);
        lemma_unique(h, m, i);
    }
    if numbered(rows) {
        lemma_numbers_differ(h, c, rows);
    }
}

/// Rows are taken in turn: the last one with an alias is what that alias leads
/// to, and another alias leads where it led before.
pub proof fn rows_are_taken_in_turn(
    rows: Seq<ServerRow<Seq<char>>>,
    row: ServerRow<Seq<char>>,
    other: Seq<char>,
)
    ensures
        host(collected(rows.push(row)), row.alias) matches Some(s) && s.id == row.id && s.alias
            == Some(row.alias) && s.username == row.username && s.address == row.address
            && s.port == row.port && s.last_connect == row.last_connect,
        other != row.alias ==> host(collected(rows.push(row)), other) == host(
            collected(rows),
            other,
        ),
        collected(Seq::<ServerRow<Seq<char>>>::empty()).len() == 0,
{
    assert(rows.push(row).drop_last() =~= rows);
    collected_in_order(rows);
    put_then_find(collected(rows), row.alias, server_of(row), other);
}

/// A row holds the alias that a server is kept under, and its user, address,
/// port and last connection, each in its own column.
pub proof fn rows_hold_the_server(e: HostEntry<Seq<char>>)
    ensures
        row_of(e).id is None,
        row_of(e).alias == e.key,
        row_of(e).username == e.server.username,
        row_of(e).address == e.server.address,
        row_of(e).port == e.server.port,
        row_of(e).last_connect == e.server.last_connect,
{
}

/// A server is put in under its own alias, or where it has none under the one
/// that is given; the rest of it stays.
pub proof fn alias_is_filled_in(server: Server<Seq<char>>, key: Seq<char>)
    ensures
        with_alias(server, key).alias == (if server.alias is Some {
            server.alias
        } else {
            Some(key)
        }),
        with_alias(server, key) == (Server {
            alias: with_alias(server, key).alias,
            ..server
        }),
{
}

/// A row of the table for people shows the alias, user, address and port of the
/// server, and when it was last connected to.
pub proof fn table_rows_show_the_server(row: TableRow, e: HostEntry<Seq<char>>)
    requires
        shows(row, e),
    ensures
        row.alias@ == e.key,
        row.username@ == e.server.username,
        row.address@ == e.server.address,
        row.port == e.server.port,
        e.server.last_connect is None ==> row.last_connect@ == "从未"@,
{
}

} // verus!
