//! Paths written with forward slashes, taken apart and put together as text.
use vstd::prelude::*;
use vstd::string::*;

use crate::text::{
    cat2, cat3, last_pos, replace_char, rfind_char, same, split, split_on, text_of, to_chars,
    with_char_replaced,
};

verus! {

/// A path of the machine, written with forward slashes. On Windows a backslash
/// is one too; elsewhere it is a character like any other.
pub open spec fn with_forward_slashes(p: Seq<char>, windows: bool) -> Seq<char> {
    if windows {
        replace_char(p, '\\', '/')
    } else {
        p
    }
}

/// Whether `p` starts at the root.
pub open spec fn is_absolute(p: Seq<char>) -> bool {
    p.len() > 0 && p[0] == '/'
}

/// `p` without trailing slashes and trailing `.` segments. The root slash
/// stays, and so does a `.` that stands alone.
pub open spec fn bare(p: Seq<char>) -> Seq<char>
    decreases p.len(),
{
    if p.len() > 1 && p.last() == '/' {
        bare(p.drop_last())
    } else if p.len() > 1 && p.last() == '.' && p[p.len() - 2] == '/' {
        bare(p.drop_last())
    } else {
        p
    }
}

/// The last segment of a path that has no trailing slash.
pub open spec fn tail_segment(p: Seq<char>) -> Seq<char> {
    p.skip(last_pos(p, '/') + 1)
}

/// The directory that holds the last component of `p`; none for the root and
/// for the empty path. A single relative segment lies in the empty path.
pub open spec fn parent_of(p: Seq<char>) -> Option<Seq<char>> {
    let b = bare(p);
    if b.len() == 0 || b == seq!['/'] {
        None
    } else {
        Some(bare(b.take(last_pos(b, '/') + 1)))
    }
}

/// The last component of `p`, where it names something: not the root, `.` or `..`.
pub open spec fn file_name_of(p: Seq<char>) -> Option<Seq<char>> {
    let b = bare(p);
    let name = tail_segment(b);
    if b.len() == 0 || b == seq!['/'] || name == seq!['.'] || name == seq!['.', '.'] {
        None
    } else {
        Some(name)
    }
}

/// A file name without its extension; a name whose only dot comes first has none.
pub open spec fn stem_of(name: Seq<char>) -> Seq<char> {
    if name == seq!['.', '.'] || last_pos(name, '.') <= 0 {
        name
    } else {
        name.take(last_pos(name, '.'))
    }
}

/// `rel` below `base`; an absolute `rel` stands for itself.
pub open spec fn joined(base: Seq<char>, rel: Seq<char>) -> Seq<char> {
    if is_absolute(rel) {
        rel
    } else if base.len() == 0 || base.last() == '/' {
        base + rel
    } else {
        base + seq!['/'] + rel
    }
}

/// Whether a segment between slashes leads one level down.
pub open spec fn is_step_down(seg: Seq<char>) -> bool {
    seg.len() > 0 && seg != seq!['.'] && seg != seq!['.', '.']
}

/// The directory reached after the segments `segs`, starting from `from`.
/// Segments that are empty, `.` or `..` lead nowhere.
pub open spec fn reached(from: Seq<char>, segs: Seq<Seq<char>>) -> Seq<char>
    decreases segs.len(),
{
    if segs.len() == 0 {
        from
    } else {
        let before = reached(from, segs.drop_last());
        if is_step_down(segs.last()) {
            joined(before, segs.last())
        } else {
            before
        }
    }
}

/// The directories that lie on the way down `segs` from `from`, each one that
/// has to be there before the next: one for every segment that goes down, and
/// once more the same directory for every `..`.
pub open spec fn way_down(from: Seq<char>, segs: Seq<Seq<char>>) -> Seq<Seq<char>>
    decreases segs.len(),
{
    if segs.len() == 0 {
        Seq::empty()
    } else {
        let before = way_down(from, segs.drop_last());
        let here = reached(from, segs);
        if segs.last().len() == 0 || segs.last() == seq!['.'] || here.len() == 0 {
            before
        } else {
            before.push(here)
        }
    }
}

/// Where a path starts: at the root, or at the empty relative path.
pub open spec fn start_of(p: Seq<char>) -> Seq<char> {
    if is_absolute(p) {
        seq!['/']
    } else {
        Seq::empty()
    }
}

/// All directories on the way to `p`, `p` itself last. An absolute path
/// starts with the root.
pub open spec fn directory_chain(p: Seq<char>) -> Seq<Seq<char>> {
    let below = way_down(start_of(p), split(p, '/'));
    if is_absolute(p) {
        seq![seq!['/']] + below
    } else {
        below
    }
}

/// Taking off what `bare` takes off leaves nothing more to take off.
pub proof fn bare_is_settled(p: Seq<char>)
    ensures
        bare(bare(p)) == bare(p),
    decreases p.len(),
{
    if p.len() > 1 && (p.last() == '/' || (p.last() == '.' && p[p.len() - 2] == '/')) {
        bare_is_settled(p.drop_last());
    }
}

/// A path is the join of its parent and its file name: joining a parent that
/// does not end with a slash and a relative name, and taking the parent and
/// the name again, gives both back.
pub proof fn join_then_split(dir: Seq<char>, name: Seq<char>)
    requires
        dir.len() > 0,
        dir.last() != '/',
        bare(dir) == dir,
        is_step_down(name),
        !name.contains('/'),
    ensures
        parent_of(joined(dir, name)) == Some(dir),
        file_name_of(joined(dir, name)) == Some(name),
{
    let p = joined(dir, name);
    assert(name[0] != '/') by {
        if name[0] == '/' {
            assert(name.contains(name[0]));
        }
    }
    assert(p == dir + seq!['/'] + name);
    assert(p.last() == name.last());
    assert(name.last() != '/') by {
        assert(name.contains(name.last()));
    }
    assert(bare(p) == p) by {
        if name.last() == '.' && p[p.len() - 2] == '/' {
            if name.len() == 1 {
                assert(name =~= seq!['.']);
            } else {
                assert(p[p.len() - 2] == name[name.len() - 2]);
                assert(name.contains(name[name.len() - 2]));
            }
        }
    }
    assert(last_pos(p, '/') == dir.len()) by {
        assert forall|j: int| dir.len() < j < p.len() implies p[j] != '/' by {
            assert(p[j] == name[j - dir.len() - 1]);
            assert(name.contains(name[j - dir.len() - 1]));
        }
        crate::text::lemma_last_pos_is(p, '/', dir.len() as int);
    }
    assert(p.take(dir.len() as int + 1) =~= dir.push('/'));
    assert(dir.push('/').drop_last() =~= dir);
    assert(tail_segment(p) =~= name);
    assert(p != seq!['/']) by {
        assert(p.len() >= 3);
    }
}

/// A single name lies in the empty path, and below the root in the root.
pub proof fn name_stands_alone(name: Seq<char>)
    requires
        is_step_down(name),
        !name.contains('/'),
    ensures
        parent_of(name) == Some(Seq::<char>::empty()),
        file_name_of(name) == Some(name),
        parent_of(seq!['/'] + name) == Some(seq!['/']),
        file_name_of(seq!['/'] + name) == Some(name),
{
    assert forall|j: int| 0 <= j < name.len() implies name[j] != '/' by {
        assert(name.contains(name[j]));
    }
    assert(bare(name) == name) by {
        assert(name.last() != '/');
    }
    crate::text::lemma_last_pos_is(name, '/', -1);
    assert(name.take(0) =~= Seq::<char>::empty());
    assert(tail_segment(name) =~= name);
    assert(name != seq!['/']);
    let p = seq!['/'] + name;
    assert(p.last() == name.last());
    assert(bare(p) == p) by {
        if name.last() == '.' && p[p.len() - 2] == '/' {
            if name.len() == 1 {
                assert(name =~= seq!['.']);
            } else {
                assert(p[p.len() - 2] == name[name.len() - 2]);
            }
        }
    }
    assert forall|j: int| 0 < j < p.len() implies p[j] != '/' by {
        assert(p[j] == name[j - 1]);
    }
    crate::text::lemma_last_pos_is(p, '/', 0);
    assert(p.take(1) =~= seq!['/']);
    assert(tail_segment(p) =~= name);
    assert(p.len() >= 2);
}

/// What a path is taken apart into is joined to it again: the directory that
/// holds it and its name.
pub proof fn split_then_join(dir: Seq<char>, name: Seq<char>)
    requires
        dir.len() > 0,
        dir.last() != '/',
        bare(dir) == dir,
        is_step_down(name),
        !name.contains('/'),
    ensures
        ({
            let p = joined(dir, name);
            joined(parent_of(p)->Some_0, file_name_of(p)->Some_0) == p
        }),
        joined(dir, name).take(dir.len() as int) == dir,
        joined(dir, name).skip(dir.len() as int + 1) == name,
        joined(dir, name).len() == dir.len() + 1 + name.len(),
        joined(dir, name)[dir.len() as int] == '/',
{
    join_then_split(dir, name);
    assert(name[0] != '/') by {
        if name[0] == '/' {
            assert(name.contains(name[0]));
        }
    }
    assert(joined(dir, name).take(dir.len() as int) =~= dir);
    assert(joined(dir, name).skip(dir.len() as int + 1) =~= name);
}

proof fn lemma_split_push(s: Seq<char>, name: Seq<char>)
    requires
        !name.contains('/'),
    ensures
        split(s + seq!['/'] + name, '/') == split(s, '/').push(name),
        split(name, '/') == seq![name],
    decreases s.len(),
{
    assert forall|j: int| 0 <= j < name.len() implies name[j] != '/' by {
        assert(name.contains(name[j]));
    }
    crate::text::lemma_first_pos_is(name, '/', name.len() as int);
    let t = s + seq!['/'] + name;
    crate::text::lemma_first_pos(s, '/');
    let p = crate::text::first_pos(s, '/') as int;
    if p >= s.len() {
        assert forall|j: int| 0 <= j < s.len() implies t[j] != '/' by {
            assert(t[j] == s[j]);
        }
        crate::text::lemma_first_pos_is(t, '/', s.len() as int);
        assert(t.take(s.len() as int) =~= s);
        assert(t.skip(s.len() as int + 1) =~= name);
        assert(split(name, '/') == seq![name]);
        assert(split(t, '/') == seq![s] + split(name, '/'));
        assert(split(s, '/') == seq![s]);
        assert(seq![s] + seq![name] =~= seq![s].push(name));
    } else {
        assert forall|j: int| 0 <= j < p implies t[j] != '/' by {
            assert(t[j] == s[j]);
        }
        assert(t[p] == '/');
        crate::text::lemma_first_pos_is(t, '/', p);
        assert(t.take(p) =~= s.take(p));
        let rest = s.skip(p + 1);
        assert(t.skip(p + 1) =~= rest + seq!['/'] + name);
        lemma_split_push(rest, name);
        assert(split(t, '/') == seq![t.take(p)] + split(t.skip(p + 1), '/'));
        assert(split(s, '/') == seq![s.take(p)] + split(rest, '/'));
        assert(seq![s.take(p)] + split(rest, '/').push(name) =~= (seq![s.take(p)] + split(
            rest,
            '/',
        )).push(name));
    }
}

/// Whether a path is written plainly: going down its segments leads to it.
pub open spec fn is_plain(p: Seq<char>) -> bool {
    &&& p.len() > 0
    &&& p.last() != '/'
    &&& reached(start_of(p), split(p, '/')) == p
}

/// The directories on the way to a path are those on the way to the directory
/// that holds it, and then the path itself; a single name is alone on its way,
/// and below the root comes after the root.
pub proof fn way_goes_one_step_at_a_time(dir: Seq<char>, name: Seq<char>)
    requires
        is_plain(dir),
        is_step_down(name),
        !name.contains('/'),
    ensures
        is_plain(dir + seq!['/'] + name),
        directory_chain(dir + seq!['/'] + name) == directory_chain(dir).push(
            dir + seq!['/'] + name,
        ),
        is_plain(name),
        directory_chain(name) == seq![name],
        is_plain(seq!['/'] + name),
        directory_chain(seq!['/'] + name) == seq![seq!['/'], seq!['/'] + name],
{
    assert forall|j: int| 0 <= j < name.len() implies name[j] != '/' by {
        assert(name.contains(name[j]));
    }
    let p = dir + seq!['/'] + name;
    lemma_split_push(dir, name);
    let segs = split(dir, '/');
    let from = start_of(dir);
    assert(segs.push(name).drop_last() =~= segs);
    assert(start_of(p) == from);
    assert(joined(dir, name) == p);
    assert(reached(from, segs.push(name)) == p);
    assert(way_down(from, segs.push(name)) == way_down(from, segs).push(p));
    if is_absolute(dir) {
        assert((seq![seq!['/']] + way_down(from, segs)).push(p) =~= seq![seq!['/']] + way_down(
            from,
            segs,
        ).push(p));
    }
    let none = Seq::<Seq<char>>::empty();
    assert(seq![name].drop_last() =~= none);
    assert(joined(Seq::empty(), name) =~= name);
    assert(reached(Seq::empty(), none) == Seq::<char>::empty());
    assert(reached(Seq::empty(), seq![name]) == name);
    assert(way_down(Seq::empty(), none) == none);
    assert(none.push(name) =~= seq![name]);
    let q = seq!['/'] + name;
    let e = Seq::<char>::empty();
    lemma_split_push(e, name);
    assert(e + seq!['/'] + name =~= q);
    crate::text::lemma_first_pos_is(e, '/', 0);
    assert(split(e, '/') == seq![e]);
    assert(seq![e].push(name).drop_last() =~= seq![e]);
    assert(seq![e].drop_last() =~= none);
    let root = seq!['/'];
    assert(reached(root, none) == root);
    assert(reached(root, seq![e]) == root);
    assert(joined(root, name) =~= q);
    assert(reached(root, seq![e].push(name)) == q);
    assert(way_down(root, none) == none);
    assert(way_down(root, seq![e]) == none);
    assert(way_down(root, seq![e].push(name)) == none.push(q));
    assert(seq![root] + none.push(q) =~= seq![root, q]);
}

/// `v` without the trailing slashes and `.` segments.
fn bare_len(v: &Vec<char>, len: usize) -> (n: usize)
    requires
        len <= v.len(),
    ensures
        n <= len,
        v@.take(n as int) == bare(v@.take(len as int)),
{
    let mut n: usize = len;
    while n > 1 && (v[n - 1] == '/' || (v[n - 1] == '.' && v[n - 2] == '/'))
        invariant
            n <= len <= v.len(),
            bare(v@.take(n as int)) == bare(v@.take(len as int)),
        decreases n,
    {
        proof {
            assert(v@.take(n as int).drop_last() =~= v@.take(n - 1));
        }
        n = n - 1;
    }
    n
}

fn chars_to(v: &Vec<char>, n: usize) -> (r: Vec<char>)
    requires
        n <= v.len(),
    ensures
        r@ == v@.take(n as int),
{
    let mut r: Vec<char> = Vec::new();
    let mut i: usize = 0;
    while i < n
        invariant
            i <= n <= v.len(),
            r@ == v@.take(i as int),
        decreases n - i,
    {
        r.push(v[i]);
        proof {
            assert(v@.take(i + 1) =~= v@.take(i as int).push(v@[i as int]));
        }
        i = i + 1;
    }
    r
}

/// Writes a path of the machine with forward slashes.
pub fn with_slashes(p: &str, windows: bool) -> (r: String)
    ensures
        r@ == with_forward_slashes(p@, windows),
{
    if windows {
        with_char_replaced(p, '\\', '/')
    } else {
        p.to_owned()
    }
}

/// The directory that holds the last component of `p`.
pub fn parent(p: &str) -> (r: Option<String>)
    ensures
        match r {
            Some(t) => parent_of(p@) == Some(t@),
            None => parent_of(p@) is None,
        },
{
    let all = to_chars(p);
    let n = bare_len(&all, all.len());
    proof {
        assert(all@.take(all@.len() as int) =~= all@);
    }
    let b = chars_to(&all, n);
    if b.len() == 0 {
        return None;
    }
    if b.len() == 1 && b[0] == '/' {
        proof {
            assert(b@ =~= seq!['/']);
        }
        return None;
    }
    proof {
        assert(b@ != seq!['/']) by {
            if b@ == seq!['/'] {
                assert(b@.len() == 1 && b@[0] == '/');
            }
        }
        crate::text::lemma_last_pos(b@, '/');
    }
    let cut: usize = match rfind_char(&b, '/') {
        Some(i) => i + 1,
        None => 0,
    };
    let m = bare_len(&b, cut);
    proof {
        assert(b@.take(m as int) =~= b@.subrange(0, m as int));
    }
    Some(text_of(&b, 0, m))
}

/// The last component of `p`, where it names something.
pub fn file_name(p: &str) -> (r: Option<String>)
    ensures
        match r {
            Some(t) => file_name_of(p@) == Some(t@),
            None => file_name_of(p@) is None,
        },
{
    let all = to_chars(p);
    let n = bare_len(&all, all.len());
    proof {
        assert(all@.take(all@.len() as int) =~= all@);
    }
    let b = chars_to(&all, n);
    if b.len() == 0 {
        return None;
    }
    if b.len() == 1 && b[0] == '/' {
        proof {
            assert(b@ =~= seq!['/']);
        }
        return None;
    }
    proof {
        assert(b@ != seq!['/']) by {
            if b@ == seq!['/'] {
                assert(b@.len() == 1 && b@[0] == '/');
            }
        }
        crate::text::lemma_last_pos(b@, '/');
    }
    let from: usize = match rfind_char(&b, '/') {
        Some(i) => i + 1,
        None => 0,
    };
    let name = text_of(&b, from, b.len());
    proof {
        reveal_strlit(".");
        reveal_strlit("..");
        assert("."@ =~= seq!['.']);
        assert(".."@ =~= seq!['.', '.']);
        assert(b@.subrange(from as int, b@.len() as int) =~= b@.skip(from as int));
    }
    if same(name.as_str(), ".") || same(name.as_str(), "..") {
        None
    } else {
        Some(name)
    }
}

/// A file name without its extension.
pub fn file_stem(name: &str) -> (r: String)
    ensures
        r@ == stem_of(name@),
{
    proof {
        reveal_strlit("..");
        assert(".."@ =~= seq!['.', '.']);
    }
    if same(name, "..") {
        return name.to_owned();
    }
    let v = to_chars(name);
    match rfind_char(&v, '.') {
        Some(i) => {
            if i == 0 {
                name.to_owned()
            } else {
                proof {
                    assert(v@.subrange(0, i as int) =~= v@.take(i as int));
                }
                text_of(&v, 0, i)
            }
        },
        None => name.to_owned(),
    }
}

/// `rel` below `base`.
pub fn join(base: &str, rel: &str) -> (r: String)
    ensures
        r@ == joined(base@, rel@),
{
    let b = to_chars(base);
    let l = to_chars(rel);
    if l.len() > 0 && l[0] == '/' {
        rel.to_owned()
    } else if b.len() == 0 || b[b.len() - 1] == '/' {
        cat2(base, rel)
    } else {
        proof {
            reveal_strlit("/");
            assert("/"@ =~= seq!['/']);
        }
        cat3(base, "/", rel)
    }
}

/// The directories on the way to `p`, the nearest to the root first.
pub fn chain(p: &str) -> (r: Vec<String>)
    ensures
        r@.map_values(|d: String| d@) == directory_chain(p@),
{
    let v = to_chars(p);
    let ghost view = |d: String| d@;
    let ghost start = start_of(p@);
    let mut r: Vec<String> = Vec::new();
    let mut here: String = String::new();
    proof {
        reveal_strlit("/");
        assert("/"@ =~= seq!['/']);
        reveal_strlit(".");
        assert("."@ =~= seq!['.']);
        reveal_strlit("..");
        assert(".."@ =~= seq!['.', '.']);
    }
    if v.len() > 0 && v[0] == '/' {
        here = "/".to_owned();
        r.push("/".to_owned());
    }
    let ghost base = r@.map_values(view);
    proof {
        if is_absolute(p@) {
            assert(base =~= seq![seq!['/']]);
        } else {
            assert(base =~= Seq::<Seq<char>>::empty());
        }
    }
    let parts = split_on(p, '/');
    let ghost segs = parts@.map_values(view);
    let mut i: usize = 0;
    proof {
        assert(segs.take(0) =~= Seq::<Seq<char>>::empty());
        assert(base + way_down(start, segs.take(0)) =~= base);
    }
    while i < parts.len()
        invariant
            i <= parts.len(),
            view == (|d: String| d@),
            segs == parts@.map_values(view),
            "."@ == seq!['.'],
            ".."@ == seq!['.', '.'],
            here@ == reached(start, segs.take(i as int)),
            r@.map_values(view) == base + way_down(start, segs.take(i as int)),
        decreases parts.len() - i,
    {
        let seg = parts[i].as_str();
        let ghost before = segs.take(i as int);
        let ghost after = segs.take(i + 1);
        proof {
            assert(segs[i as int] == seg@);
            assert(after.drop_last() =~= before);
            assert(after.last() == seg@);
        }
        let empty = seg.is_empty();
        let dot = same(seg, ".");
        let dots = same(seg, "..");
        if !empty && !dot && !dots {
            here = join(here.as_str(), seg);
        }
        if !empty && !dot && !here.as_str().is_empty() {
            let ghost old_r = r@;
            r.push(here.clone());
            proof {
                assert(r@.map_values(view) =~= old_r.map_values(view).push(here@));
                assert(base + way_down(start, before).push(here@) =~= (base + way_down(
                    start,
                    before,
                )).push(here@));
            }
        }
        i = i + 1;
    }
    proof {
        assert(segs.take(segs.len() as int) =~= segs);
        if !is_absolute(p@) {
            assert(base + way_down(start, segs) =~= way_down(start, segs));
        }
    }
    r
}

/// Backward slashes count as separators on Windows, and as they are elsewhere.
pub proof fn backward_slashes_part_on_windows(a: Seq<char>, b: Seq<char>)
    requires
        !a.contains('\\'),
        !b.contains('\\'),
    ensures
        with_forward_slashes(a + seq!['\\'] + b, true) == a + seq!['/'] + b,
        with_forward_slashes(a + seq!['\\'] + b, false) == a + seq!['\\'] + b,
{
    assert forall|j: int| 0 <= j < a.len() implies a[j] != '\\' by {
        assert(a.contains(a[j]));
    }
    assert forall|j: int| 0 <= j < b.len() implies b[j] != '\\' by {
        assert(b.contains(b[j]));
    }
    assert(with_forward_slashes(a + seq!['\\'] + b, true) =~= a + seq!['/'] + b);
}

/// Slashes behind a path, and a dot behind such a slash, change neither where
/// it lies nor what it is called.
pub proof fn slashes_behind_a_path_do_not_count(p: Seq<char>)
    requires
        p.len() > 0,
    ensures
        parent_of(p + seq!['/']) == parent_of(p),
        file_name_of(p + seq!['/']) == file_name_of(p),
        parent_of(p + seq!['/', '.']) == parent_of(p),
        file_name_of(p + seq!['/', '.']) == file_name_of(p),
{
    let a = p + seq!['/'];
    assert(a.drop_last() =~= p);
    assert(bare(a) == bare(p));
    let b = p + seq!['/', '.'];
    assert(b.drop_last() =~= a);
    assert(bare(b) == bare(a));
}

/// A path is absolute where it starts with a slash, and stands for itself then;
/// any other lies below what it is joined to.
pub proof fn absolute_paths_stand_for_themselves(base: Seq<char>, rest: Seq<char>)
    ensures
        is_absolute(seq!['/'] + rest),
        joined(base, seq!['/'] + rest) == seq!['/'] + rest,
        rest.len() > 0 && rest[0] != '/' ==> joined(base, rest).take(base.len() as int) == base
            && joined(base, rest).skip(joined(base, rest).len() - rest.len()) == rest,
{
    if rest.len() > 0 && rest[0] != '/' {
        assert(joined(base, rest).take(base.len() as int) =~= base);
        assert(joined(base, rest).skip(joined(base, rest).len() - rest.len()) =~= rest);
    }
}

/// A name loses what stands behind its last dot; a name with no dot, or with
/// none but the first character, keeps all.
pub proof fn extension_is_left_off(stem: Seq<char>, ext: Seq<char>)
    requires
        !ext.contains('.'),
    ensures
        stem.len() > 0 && (ext.len() > 0 || stem != seq!['.']) ==> stem_of(
            stem + seq!['.'] + ext,
        ) == stem,
        stem_of(ext) == ext,
        stem_of(seq!['.'] + ext) == seq!['.'] + ext,
{
    let name = stem + seq!['.'] + ext;
    assert forall|j: int| 0 <= j < ext.len() implies ext[j] != '.' by {
        assert(ext.contains(ext[j]));
    }
    crate::text::lemma_last_pos_is(name, '.', stem.len() as int);
    assert(name.take(stem.len() as int) =~= stem);
    if stem.len() > 0 && (ext.len() > 0 || stem != seq!['.']) {
        if name == seq!['.', '.'] {
            assert(name.len() == 2);
            if ext.len() > 0 {
                assert(name[1] == '.');
                assert(stem.len() == 0);
            } else {
                assert(stem =~= seq!['.']);
            }
        }
    }
    crate::text::lemma_last_pos_is(ext, '.', -1);
    let hidden = seq!['.'] + ext;
    crate::text::lemma_last_pos_is(hidden, '.', 0);
}

} // verus!
