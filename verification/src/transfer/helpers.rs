//! Names and patterns: glob matching, remote specifications, path normal form.
use vstd::prelude::*;
use vstd::string::*;

use crate::text::{
    contains_char, contains_part, find_char, first_pos, has_part, lemma_first_pos, replace_char,
    split, split_on, text_of, to_chars, with_char_replaced,
};

verus! {

// ---------------------------------------------------------------------------
// Glob matching
// ---------------------------------------------------------------------------

/// Whether the whole of `text` fits `pat`: `?` stands for one character, `*`
/// for any run of characters, and every other character for itself.
pub open spec fn glob_matches(pat: Seq<char>, text: Seq<char>) -> bool
    decreases pat.len(),
{
    if pat.len() == 0 {
        text.len() == 0
    } else if pat[0] == '*' {
        exists|k: int|
            0 <= k <= text.len() && glob_matches(pat.drop_first(), #[trigger] text.skip(k))
    } else {
        text.len() > 0 && (pat[0] == '?' || pat[0] == text[0]) && glob_matches(
            pat.drop_first(),
            text.drop_first(),
        )
    }
}

/// Whether `s` holds a wildcard.
pub open spec fn has_wildcard(s: Seq<char>) -> bool {
    s.contains('*') || s.contains('?')
}

/// A leading `*` takes up either nothing or one character more.
proof fn lemma_star(pat: Seq<char>, text: Seq<char>)
    requires
        pat.len() > 0,
        pat[0] == '*',
    ensures
        glob_matches(pat, text) == (glob_matches(pat.drop_first(), text) || (text.len() > 0
            && glob_matches(pat, text.drop_first()))),
{
    let rest = pat.drop_first();
    if glob_matches(pat, text) {
        let k = choose|k: int| 0 <= k <= text.len() && glob_matches(rest, #[trigger] text.skip(k));
        if k == 0 {
            assert(text.skip(0) =~= text);
        } else {
            assert(text.skip(k) =~= text.drop_first().skip(k - 1));
        }
    }
    if glob_matches(rest, text) {
        assert(text.skip(0) =~= text);
        assert(glob_matches(rest, text.skip(0)));
    }
    if text.len() > 0 && glob_matches(pat, text.drop_first()) {
        let t = text.drop_first();
        let k = choose|k: int| 0 <= k <= t.len() && glob_matches(rest, #[trigger] t.skip(k));
        assert(t.skip(k) =~= text.skip(k + 1));
        assert(glob_matches(rest, text.skip(k + 1)));
    }
}

/// A pattern without wildcards matches itself and nothing else.
pub proof fn plain_pattern_matches_itself_only(pat: Seq<char>, text: Seq<char>)
    requires
        !has_wildcard(pat),
    ensures
        glob_matches(pat, text) == (pat == text),
    decreases pat.len(),
{
    if pat.len() == 0 {
        if text.len() == 0 {
            assert(pat =~= text);
        }
    } else {
        assert(pat.contains(pat[0]));
        let rest = pat.drop_first();
        assert(!has_wildcard(rest)) by {
            if rest.contains('*') {
                let i = choose|i: int| 0 <= i < rest.len() && rest[i] == '*';
                assert(pat[i + 1] == '*');
            }
            if rest.contains('?') {
                let i = choose|i: int| 0 <= i < rest.len() && rest[i] == '?';
                assert(pat[i + 1] == '?');
            }
        }
        if text.len() > 0 {
            plain_pattern_matches_itself_only(rest, text.drop_first());
            if pat[0] == text[0] && rest == text.drop_first() {
                assert(pat =~= seq![pat[0]] + rest);
                assert(text =~= seq![text[0]] + text.drop_first());
            }
        }
    }
}

/// A star alone matches every text.
pub proof fn star_matches_everything(text: Seq<char>)
    ensures
        glob_matches(seq!['*'], text),
{
    let rest = seq!['*'].drop_first();
    assert(rest =~= Seq::<char>::empty());
    assert(text.skip(text.len() as int).len() == 0);
    assert(glob_matches(rest, text.skip(text.len() as int)));
}

/// Whether the whole of `text` fits the pattern `pat`.
pub fn wildcard_match(pat: &str, text: &str) -> (r: bool)
    ensures
        r == glob_matches(pat@, text@),
{
    let p = to_chars(pat);
    let t = to_chars(text);
    let n = t.len();
    // `row[j]` tells whether the pattern from `i` on fits the text from `j` on.
    let mut row: Vec<bool> = Vec::new();
    let mut j: usize = 0;
    proof {
        assert(p@.skip(p@.len() as int) =~= Seq::<char>::empty());
    }
    while j < n
        invariant
            n == t.len(),
            j <= n,
            row.len() == j,
            p@.skip(p@.len() as int) == Seq::<char>::empty(),
            forall|k: int|
                0 <= k < j ==> #[trigger] row@[k] == glob_matches(
                    p@.skip(p@.len() as int),
                    t@.skip(k),
                ),
        decreases n - j,
    {
        row.push(false);
        j = j + 1;
    }
    row.push(true);
    let mut i: usize = p.len();
    while i > 0
        invariant
            n == t.len(),
            i <= p.len(),
            row.len() == n + 1,
            forall|k: int|
                0 <= k <= n ==> #[trigger] row@[k] == glob_matches(p@.skip(i as int), t@.skip(k)),
        decreases i,
    {
        let c = p[i - 1];
        let ghost whole = p@.skip(i - 1);
        proof {
            assert(whole[0] == c);
            assert(whole.drop_first() =~= p@.skip(i as int));
        }
        let mut next: Vec<bool> = Vec::new();
        // Filled from the end of the text: `next[m]` stands for position `n - m`.
        next.push(c == '*' && row[n]);
        proof {
            if c == '*' {
                lemma_star(whole, t@.skip(n as int));
            }
        }
        let mut m: usize = 0;
        while m < n
            invariant
                n == t.len(),
                0 < i <= p.len(),
                m <= n,
                c == p@[i - 1],
                whole == p@.skip(i - 1),
                whole.drop_first() == p@.skip(i as int),
                row.len() == n + 1,
                next.len() == m + 1,
                forall|k: int|
                    0 <= k <= n ==> #[trigger] row@[k] == glob_matches(
                        p@.skip(i as int),
                        t@.skip(k),
                    ),
                forall|k: int|
                    0 <= k <= m ==> #[trigger] next@[k] == glob_matches(whole, t@.skip(n - k)),
            decreases n - m,
        {
            let at: usize = n - m - 1;
            let ghost here = t@.skip(at as int);
            proof {
                assert(here.drop_first() =~= t@.skip(at + 1));
                assert(here[0] == t@[at as int]);
                assert(next@[m as int] == glob_matches(whole, t@.skip(n - m)));
                if c == '*' {
                    lemma_star(whole, here);
                }
            }
            let fits = if c == '*' {
                row[at] || next[m]
            } else {
                (c == '?' || c == t[at]) && row[at + 1]
            };
            next.push(fits);
            m = m + 1;
        }
        let mut back: Vec<bool> = Vec::new();
        let mut q: usize = 0;
        while q < n
            invariant
                q <= n,
                next.len() == n + 1,
                back.len() == q,
                forall|k: int|
                    0 <= k <= n ==> #[trigger] next@[k] == glob_matches(whole, t@.skip(n - k)),
                forall|k: int|
                    0 <= k < q ==> #[trigger] back@[k] == glob_matches(whole, t@.skip(k)),
            decreases n - q,
        {
            proof {
                assert(next@[n - q] == glob_matches(whole, t@.skip(n - (n - q))));
            }
            back.push(next[n - q]);
            q = q + 1;
        }
        proof {
            assert(next@[0] == glob_matches(whole, t@.skip(n - 0)));
        }
        back.push(next[0]);
        row = back;
        i = i - 1;
    }
    proof {
        assert(p@.skip(0) =~= p@);
        assert(t@.skip(0) =~= t@);
    }
    row[0]
}

/// A question mark stands for exactly one character, whichever it is.
pub proof fn question_mark_is_one_character(pat: Seq<char>, c: char, text: Seq<char>)
    ensures
        glob_matches(seq!['?'] + pat, seq![c] + text) == glob_matches(pat, text),
        !glob_matches(seq!['?'] + pat, Seq::<char>::empty()),
{
    assert((seq!['?'] + pat).drop_first() =~= pat);
    assert((seq![c] + text).drop_first() =~= text);
}

/// A character that is no wildcard stands for itself alone.
pub proof fn plain_characters_stand_for_themselves(
    pat: Seq<char>,
    c: char,
    d: char,
    text: Seq<char>,
)
    requires
        c != '*',
        c != '?',
    ensures
        glob_matches(seq![c] + pat, seq![d] + text) <==> c == d && glob_matches(pat, text),
        !glob_matches(seq![c] + pat, Seq::<char>::empty()),
{
    assert((seq![c] + pat).drop_first() =~= pat);
    assert((seq![d] + text).drop_first() =~= text);
}

/// A star before a text fits what ends with that text, whatever comes before.
pub proof fn star_before_text_fits_endings(end: Seq<char>, text: Seq<char>)
    requires
        !has_wildcard(end),
    ensures
        glob_matches(seq!['*'] + end, text) <==> text.len() >= end.len() && text.skip(
            text.len() - end.len(),
        ) == end,
{
    let pat = seq!['*'] + end;
    assert(pat.drop_first() =~= end);
    if glob_matches(pat, text) {
        let k = choose|k: int| 0 <= k <= text.len() && glob_matches(end, #[trigger] text.skip(k));
        plain_pattern_matches_itself_only(end, text.skip(k));
        assert(text.skip(k) == end);
    }
    if text.len() >= end.len() && text.skip(text.len() - end.len()) == end {
        plain_pattern_matches_itself_only(end, end);
        assert(glob_matches(end, text.skip(text.len() - end.len())));
    }
}

/// A star behind a text fits what starts with that text, whatever follows.
pub proof fn star_behind_text_fits_beginnings(start: Seq<char>, text: Seq<char>)
    requires
        !has_wildcard(start),
    ensures
        glob_matches(start + seq!['*'], text) <==> text.len() >= start.len() && text.take(
            start.len() as int,
        ) == start,
    decreases start.len(),
{
    let pat = start + seq!['*'];
    if start.len() == 0 {
        assert(pat =~= seq!['*']);
        star_matches_everything(text);
        assert(text.take(0) =~= start);
    } else {
        let rest = start.drop_first();
        assert(start[0] != '*' && start[0] != '?') by {
            assert(start.contains(start[0]));
        }
        assert(!has_wildcard(rest)) by {
            if rest.contains('*') {
                let i = choose|i: int| 0 <= i < rest.len() && rest[i] == '*';
                assert(start[i + 1] == '*');
                assert(start.contains('*'));
            }
            if rest.contains('?') {
                let i = choose|i: int| 0 <= i < rest.len() && rest[i] == '?';
                assert(start[i + 1] == '?');
                assert(start.contains('?'));
            }
        }
        assert(pat.drop_first() =~= rest + seq!['*']);
        assert(pat[0] == start[0]);
        if text.len() > 0 {
            let t = text.drop_first();
            star_behind_text_fits_beginnings(rest, t);
            if text.len() >= start.len() && text.take(start.len() as int) == start {
                assert(t.take(rest.len() as int) =~= rest);
                assert(text[0] == text.take(start.len() as int)[0]);
            }
            if t.len() >= rest.len() && t.take(rest.len() as int) == rest && text[0] == start[0] {
                assert forall|i: int| 0 <= i < start.len() implies text[i] == start[i] by {
                    if i > 0 {
                        assert(text[i] == t.take(rest.len() as int)[i - 1]);
                    }
                }
                assert(text.take(start.len() as int) =~= start);
            }
        }
    }
}

// ---------------------------------------------------------------------------
// Remote specifications and glob rules
// ---------------------------------------------------------------------------

/// Whether `c` is an ASCII letter.
pub open spec fn is_letter(c: char) -> bool {
    ('A' <= c <= 'Z') || ('a' <= c <= 'z')
}

/// Whether `s` starts with a Windows drive: one letter and a colon.
pub open spec fn starts_with_drive(s: Seq<char>) -> bool {
    s.len() >= 2 && s[1] == ':' && is_letter(s[0])
}

/// Whether `s` names something on a remote host: a colon comes before any
/// slash, and it is not that of a drive.
pub open spec fn names_remote(s: Seq<char>) -> bool {
    &&& !starts_with_drive(s)
    &&& s.contains(':')
    &&& first_pos(s, ':') < first_pos(s, '/')
}

/// Whether `s` uses wildcards in a way that is not supported: two stars in a
/// row, or a wildcard before the last slash.
pub open spec fn bad_glob(s: Seq<char>) -> bool {
    ||| has_part(s, seq!['*', '*'])
    ||| exists|i: int|
        0 <= i < split(s, '/').len() - 1 && has_wildcard(#[trigger] split(s, '/')[i])
}

/// Whether `s` starts with a Windows drive.
pub fn is_windows_drive(s: &str) -> (r: bool)
    ensures
        r == starts_with_drive(s@),
{
    let v = to_chars(s);
    v.len() >= 2 && v[1] == ':' && (('A' <= v[0] && v[0] <= 'Z') || ('a' <= v[0] && v[0] <= 'z'))
}

/// Whether `s` has the form `alias:path`.
pub fn is_remote_spec(s: &str) -> (r: bool)
    ensures
        r == names_remote(s@),
{
    if is_windows_drive(s) {
        return false;
    }
    let v = to_chars(s);
    let colon = find_char(&v, ':');
    let slash = find_char(&v, '/');
    proof {
        lemma_first_pos(v@, ':');
    }
    colon < v.len() && colon < slash
}

/// Whether `s` holds `*` or `?`.
pub fn has_glob(s: &str) -> (r: bool)
    ensures
        r == has_wildcard(s@),
{
    contains_char(s, '*') || contains_char(s, '?')
}

/// Whether `s` uses wildcards in a way that is not supported.
pub fn is_disallowed_glob(s: &str) -> (r: bool)
    ensures
        r == bad_glob(s@),
{
    proof {
        reveal_strlit("**");
        assert("**"@ =~= seq!['*', '*']);
    }
    if contains_part(s, "**") {
        return true;
    }
    let parts = split_on(s, '/');
    let ghost view = |d: String| d@;
    let ghost segs = split(s@, '/');
    assert(parts@.map_values(view) == segs);
    let mut i: usize = 0;
    let n = parts.len();
    while i < n && n - i > 1
        invariant
            i <= n,
            n == parts.len(),
            segs == split(s@, '/'),
            view == (|d: String| d@),
            parts@.map_values(view) == segs,
            forall|k: int| 0 <= k < i ==> !has_wildcard(#[trigger] segs[k]),
        decreases n - i,
    {
        proof {
            assert(segs[i as int] == parts@[i as int]@);
        }
        if has_glob(parts[i].as_str()) {
            return true;
        }
        i = i + 1;
    }
    false
}

/// `alias:path` is remote, where the alias is no drive's letter and holds
/// neither a colon nor a slash; what starts with a slash, a dot or a drive is
/// not, nor is what holds no colon.
pub proof fn remote_ends_are_told_apart(alias: Seq<char>, path: Seq<char>, s: Seq<char>)
    requires
        !alias.contains(':'),
        !alias.contains('/'),
        alias.len() != 1 || !is_letter(alias[0]),
    ensures
        names_remote(alias + seq![':'] + path),
        !s.contains(':') ==> !names_remote(s),
        s.len() > 0 && s[0] == '/' ==> !names_remote(s),
        s.len() > 1 && s[0] == '.' && s[1] == '/' ==> !names_remote(s),
        s.len() > 1 && is_letter(s[0]) && s[1] == ':' ==> !names_remote(s),
{
    let r = alias + seq![':'] + path;
    assert forall|j: int| 0 <= j < alias.len() implies r[j] != ':' && r[j] != '/' by {
        assert(alias.contains(alias[j]));
        assert(r[j] == alias[j]);
    }
    assert(r[alias.len() as int] == ':');
    assert(r.contains(':'));
    crate::text::lemma_first_pos_is(r, ':', alias.len() as int);
    lemma_first_pos(r, '/');
    if first_pos(r, '/') <= alias.len() {
        let q = first_pos(r, '/') as int;
        assert(q < r.len());
        assert(r[q] == '/');
    }
    if alias.len() == 0 {
        assert(r[0] == ':');
    } else if alias.len() >= 2 {
        assert(r[1] == alias[1]);
    }
    if s.len() > 0 && s[0] == '/' {
        crate::text::lemma_first_pos_is(s, '/', 0);
    }
    if s.len() > 1 && s[0] == '.' && s[1] == '/' {
        crate::text::lemma_first_pos_is(s, '/', 1);
        lemma_first_pos(s, ':');
        if first_pos(s, ':') < 1 {
            assert(s[0] == ':');
        }
    }
}

/// Wildcards are supported in the last segment alone, and no two stars in a
/// row.
pub proof fn wildcards_stand_in_the_last_segment(s: Seq<char>)
    ensures
        bad_glob(s) <==> has_part(s, seq!['*', '*']) || exists|i: int, j: int|
            0 <= i < j < s.len() && (#[trigger] s[i] == '*' || s[i] == '?') && #[trigger] s[j]
                == '/',
{
    lemma_early_wildcard(s);
}

proof fn lemma_early_wildcard(s: Seq<char>)
    ensures
        (exists|i: int|
            0 <= i < split(s, '/').len() - 1 && has_wildcard(#[trigger] split(s, '/')[i]))
            <==> exists|i: int, j: int|
            0 <= i < j < s.len() && (#[trigger] s[i] == '*' || s[i] == '?') && #[trigger] s[j]
                == '/',
        split(s, '/').len() >= 1,
    decreases s.len(),
{
    let p = first_pos(s, '/') as int;
    lemma_first_pos(s, '/');
    if p < s.len() {
        let first = s.take(p);
        let rest = s.skip(p + 1);
        lemma_early_wildcard(rest);
        let all = split(s, '/');
        let after = split(rest, '/');
        assert(all =~= seq![first] + after);
        if exists|i: int| 0 <= i < all.len() - 1 && has_wildcard(#[trigger] all[i]) {
            let i = choose|i: int| 0 <= i < all.len() - 1 && has_wildcard(#[trigger] all[i]);
            if i == 0 {
                let k = if first.contains('*') {
                    choose|k: int| 0 <= k < first.len() && first[k] == '*'
                } else {
                    choose|k: int| 0 <= k < first.len() && first[k] == '?'
                };
                assert(s[k] == first[k] && s[p] == '/');
            } else {
                assert(after[i - 1] == all[i]);
                let (a, b) = choose|a: int, b: int|
                    0 <= a < b < rest.len() && (#[trigger] rest[a] == '*' || rest[a] == '?')
                        && #[trigger] rest[b] == '/';
                assert(s[a + p + 1] == rest[a] && s[b + p + 1] == rest[b]);
            }
        }
        if exists|i: int, j: int|
            0 <= i < j < s.len() && (#[trigger] s[i] == '*' || s[i] == '?') && #[trigger] s[j]
                == '/' {
            let (a, b) = choose|i: int, j: int|
                0 <= i < j < s.len() && (#[trigger] s[i] == '*' || s[i] == '?') && #[trigger] s[j]
                    == '/';
            if a < p {
                assert(first[a] == s[a]);
                assert(first.contains(s[a]));
                assert(all[0] == first);
            } else {
                assert(a != p);
                assert(rest[a - p - 1] == s[a] && rest[b - p - 1] == s[b]);
                let i = choose|i: int| 0 <= i < after.len() - 1 && has_wildcard(
                    #[trigger] after[i],
                );
                assert(all[i + 1] == after[i]);
            }
        }
    } else {
        assert(split(s, '/').len() == 1);
        if exists|i: int, j: int|
            0 <= i < j < s.len() && (#[trigger] s[i] == '*' || s[i] == '?') && #[trigger] s[j]
                == '/' {
            let (a, b) = choose|i: int, j: int|
                0 <= i < j < s.len() && (#[trigger] s[i] == '*' || s[i] == '?') && #[trigger] s[j]
                    == '/';
            assert(s[b] != '/');
        }
    }
}

// ---------------------------------------------------------------------------
// Normal form of paths
// ---------------------------------------------------------------------------

/// `s` with every run of slashes written as one.
pub open spec fn collapse(s: Seq<char>) -> Seq<char>
    decreases s.len(),
{
    if s.len() == 0 {
        s
    } else if s.len() > 1 && s.last() == '/' && s[s.len() - 2] == '/' {
        collapse(s.drop_last())
    } else {
        collapse(s.drop_last()).push(s.last())
    }
}

/// The normal form of a path: forward slashes only, no two in a row, and, where
/// `keep_slash` is not set, none at the end of anything but the root.
pub open spec fn normal_form(p: Seq<char>, keep_slash: bool) -> Seq<char> {
    let s = collapse(replace_char(p, '\\', '/'));
    if !keep_slash && s.len() > 1 && s.last() == '/' {
        s.drop_last()
    } else {
        s
    }
}

/// Whether no two slashes stand in a row.
pub open spec fn single_slashes(s: Seq<char>) -> bool {
    forall|i: int| 0 <= i < s.len() - 1 && #[trigger] s[i] == '/' ==> s[i + 1] != '/'
}

proof fn lemma_collapse(s: Seq<char>)
    ensures
        collapse(s).len() <= s.len(),
        s.len() > 0 ==> collapse(s).len() > 0 && collapse(s).last() == s.last(),
        single_slashes(collapse(s)),
        forall|c: char| #[trigger] collapse(s).contains(c) ==> s.contains(c),
    decreases s.len(),
{
    if s.len() > 0 {
        let t = s.drop_last();
        lemma_collapse(t);
        let r = collapse(s);
        assert forall|c: char| #[trigger] r.contains(c) implies s.contains(c) by {
            let i = choose|i: int| 0 <= i < r.len() && r[i] == c;
            if i < collapse(t).len() {
                assert(collapse(t)[i] == c);
                assert(collapse(t).contains(c));
                let k = choose|k: int| 0 <= k < t.len() && t[k] == c;
                assert(s[k] == c);
            } else {
                assert(s[s.len() - 1] == c);
            }
        }
    }
}

proof fn lemma_collapse_fixed(s: Seq<char>)
    requires
        single_slashes(s),
    ensures
        collapse(s) == s,
    decreases s.len(),
{
    if s.len() > 0 {
        let t = s.drop_last();
        assert forall|i: int| 0 <= i < t.len() - 1 && #[trigger] t[i] == '/' implies t[i + 1]
            != '/' by {
            assert(s[i] == '/');
        }
        lemma_collapse_fixed(t);
        if s.len() > 1 && s.last() == '/' && s[s.len() - 2] == '/' {
            assert(s[s.len() - 2 + 1] != '/');
        }
        assert(t.push(s.last()) =~= s);
    }
}

proof fn lemma_no_backslash(p: Seq<char>)
    ensures
        !replace_char(p, '\\', '/').contains('\\'),
{
    let s = replace_char(p, '\\', '/');
    if s.contains('\\') {
        let i = choose|i: int| 0 <= i < s.len() && s[i] == '\\';
        assert(s[i] != '\\');
    }
}

/// A path in normal form holds no backslash and no two slashes in a row, and
/// where the trailing slash is not kept only the root ends with one.
pub proof fn normal_form_is_clean(p: Seq<char>, keep_slash: bool)
    ensures
        !normal_form(p, keep_slash).contains('\\'),
        single_slashes(normal_form(p, keep_slash)),
        !keep_slash && normal_form(p, keep_slash).len() > 1 ==> normal_form(p, keep_slash).last()
            != '/',
{
    let r = replace_char(p, '\\', '/');
    let s = collapse(r);
    lemma_no_backslash(p);
    lemma_collapse(r);
    let n = normal_form(p, keep_slash);
    assert forall|i: int| 0 <= i < n.len() - 1 && #[trigger] n[i] == '/' implies n[i + 1]
        != '/' by {
        assert(s[i] == '/');
    }
    if n.contains('\\') {
        let i = choose|i: int| 0 <= i < n.len() && n[i] == '\\';
        assert(s[i] == '\\');
        assert(s.contains('\\'));
    }
    if !keep_slash && n.len() > 1 && n.last() == '/' {
        if s.last() == '/' {
            assert(s[s.len() - 2] == n.last());
            assert(s[s.len() - 2 + 1] != '/');
        }
    }
}

/// Normalising a second time, with the same setting, changes nothing.
pub proof fn normal_form_is_stable(p: Seq<char>, keep_slash: bool)
    ensures
        normal_form(normal_form(p, keep_slash), keep_slash) == normal_form(p, keep_slash),
{
    let n = normal_form(p, keep_slash);
    normal_form_is_clean(p, keep_slash);
    assert(replace_char(n, '\\', '/') =~= n) by {
        assert forall|i: int| 0 <= i < n.len() implies n[i] != '\\' by {
            if n[i] == '\\' {
                assert(n.contains('\\'));
            }
        }
    }
    lemma_collapse_fixed(n);
}

/// The two settings differ in the trailing slash only.
pub proof fn kept_slash_is_the_only_difference(p: Seq<char>)
    ensures
        normal_form(normal_form(p, true), false) == normal_form(p, false),
        normal_form(p, true) == normal_form(p, false) || normal_form(p, true) == normal_form(
            p,
            false,
        ).push('/'),
{
    normal_form_is_stable(p, true);
    let s = normal_form(p, true);
    if s.len() > 1 && s.last() == '/' {
        assert(s.drop_last().push('/') =~= s);
    }
}

/// A name without slashes of either kind is its own normal form.
pub proof fn names_are_in_normal_form(name: Seq<char>, keep_slash: bool)
    requires
        !name.contains('/'),
        !name.contains('\\'),
    ensures
        normal_form(name, keep_slash) == name,
{
    assert forall|i: int| 0 <= i < name.len() implies name[i] != '/' && name[i] != '\\' by {
        assert(name.contains(name[i]));
    }
    assert(replace_char(name, '\\', '/') =~= name);
    lemma_collapse_fixed(name);
}

/// The normal form of a path that is not empty is not empty.
pub proof fn normal_form_is_nonempty(p: Seq<char>, keep_slash: bool)
    requires
        p.len() > 0,
    ensures
        normal_form(p, keep_slash).len() > 0,
{
    lemma_collapse(replace_char(p, '\\', '/'));
}

/// A slash at the end of a path that is not empty does not change its normal
/// form, where the trailing slash is not kept.
pub proof fn trailing_slash_is_dropped(p: Seq<char>)
    requires
        p.len() > 0,
    ensures
        normal_form(p.push('/'), false) == normal_form(p, false),
        normal_form(p.push('/'), true).last() == '/',
{
    let r = replace_char(p, '\\', '/');
    let q = replace_char(p.push('/'), '\\', '/');
    assert(q =~= r.push('/'));
    assert(q.drop_last() =~= r);
    lemma_collapse(r);
    lemma_collapse(q);
    let s = collapse(r);
    if r.last() == '/' {
        assert(collapse(q) == s);
    } else {
        assert(collapse(q) == s.push('/'));
        assert(s.push('/').drop_last() =~= s);
    }
}

/// A path with single forward slashes, and none at its end, is its own normal
/// form; with one at its end it is so where that is kept.
pub proof fn clean_paths_are_in_normal_form(p: Seq<char>, keep_slash: bool)
    requires
        !p.contains('\\'),
        single_slashes(p),
        keep_slash || p.len() <= 1 || p.last() != '/',
    ensures
        normal_form(p, keep_slash) == p,
{
    assert forall|i: int| 0 <= i < p.len() implies p[i] != '\\' by {
        assert(p.contains(p[i]));
    }
    assert(replace_char(p, '\\', '/') =~= p);
    lemma_collapse_fixed(p);
}

/// A backslash counts as a slash, and two slashes in a row as one.
pub proof fn slashes_of_all_kinds_are_one(a: Seq<char>, b: Seq<char>, keep_slash: bool)
    ensures
        normal_form(a + seq!['\\'] + b, keep_slash) == normal_form(
            a + seq!['/'] + b,
            keep_slash,
        ),
        normal_form(a + seq!['/', '/'] + b, keep_slash) == normal_form(
            a + seq!['/'] + b,
            keep_slash,
        ),
{
    assert(replace_char(a + seq!['\\'] + b, '\\', '/') =~= replace_char(
        a + seq!['/'] + b,
        '\\',
        '/',
    ));
    let ra = replace_char(a, '\\', '/');
    let rb = replace_char(b, '\\', '/');
    assert(replace_char(a + seq!['/', '/'] + b, '\\', '/') =~= ra + seq!['/', '/'] + rb);
    assert(replace_char(a + seq!['/'] + b, '\\', '/') =~= ra + seq!['/'] + rb);
    lemma_collapse_twice(ra, rb);
}

proof fn lemma_collapse_twice(a: Seq<char>, b: Seq<char>)
    ensures
        collapse(a + seq!['/', '/'] + b) == collapse(a + seq!['/'] + b),
    decreases b.len(),
{
    let two = a + seq!['/', '/'] + b;
    let one = a + seq!['/'] + b;
    if b.len() == 0 {
        assert(two.drop_last() =~= one);
    } else {
        let c = b.drop_last();
        lemma_collapse_twice(a, c);
        assert(two.drop_last() =~= a + seq!['/', '/'] + c);
        assert(one.drop_last() =~= a + seq!['/'] + c);
        assert(two.last() == one.last());
        assert(two[two.len() - 2] == one[one.len() - 2]);
    }
}

/// A path-like text in normal form: backslashes become slashes, repeated
/// slashes collapse, and a trailing slash is kept only on request or on the root.
pub fn normalize_path(p: &str, preserve_trailing_slash: bool) -> (r: String)
    ensures
        r@ == normal_form(p@, preserve_trailing_slash),
{
    let s = with_char_replaced(p, '\\', '/');
    let v = to_chars(s.as_str());
    let mut out: Vec<char> = Vec::new();
    let mut i: usize = 0;
    proof {
        assert(v@.take(0) =~= Seq::<char>::empty());
    }
    while i < v.len()
        invariant
            i <= v.len(),
            out@ == collapse(v@.take(i as int)),
            i > 0 ==> out.len() > 0 && out@.last() == v@[i - 1],
        decreases v.len() - i,
    {
        proof {
            assert(v@.take(i + 1).drop_last() =~= v@.take(i as int));
        }
        if !(i > 0 && v[i] == '/' && v[i - 1] == '/') {
            out.push(v[i]);
        }
        i = i + 1;
    }
    proof {
        assert(v@.take(v@.len() as int) =~= v@);
    }
    let n = out.len();
    if !preserve_trailing_slash && n > 1 && out[n - 1] == '/' {
        proof {
            assert(out@.subrange(0, n - 1) =~= out@.drop_last());
        }
        text_of(&out, 0, n - 1)
    } else {
        proof {
            assert(out@.subrange(0, n as int) =~= out@);
        }
        text_of(&out, 0, n)
    }
}

/// A path as messages show it: with forward slashes, a trailing slash kept.
pub fn display_path(p: &str) -> (r: String)
    ensures
        r@ == normal_form(p@, true),
{
    normalize_path(p, true)
}

} // verus!
