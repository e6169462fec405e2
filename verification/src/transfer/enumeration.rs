//! What a source stands for: the entries of local sources, and of a remote
//! one.
use std::collections::VecDeque;
use vstd::prelude::*;
use vstd::string::*;

use super::helpers::{
    glob_matches, has_glob, has_wildcard, normal_form, normalize_path, trailing_slash_is_dropped,
    wildcard_match,
};
use super::{
    download_plan, entries_of, no_directory_target, refuse_file_target, EntryKind, FileEntry, Sizes,
};
use crate::error::TransferError;
use crate::paths::{file_name, file_name_of, join, joined, parent, parent_of};
use crate::text::{
    cat2, cat3, cat4, ends_with_char, lemma_strip_end_is, lemma_strip_start_is, same, strip_end,
    strip_start, text_of, texts, to_chars, without_end, without_start,
};

verus! {

// ---------------------------------------------------------------------------
// Local sources
// ---------------------------------------------------------------------------

/// What a local source asks for.
pub enum LocalSource<S = String> {
    /// The entries of a directory whose names fit a pattern.
    Pattern { dir: S, pattern: S },
    /// A path; whether it has to be a directory.
    Path { path: S, as_dir: bool },
}

impl View for LocalSource<String> {
    type V = LocalSource<Seq<char>>;

    open spec fn view(&self) -> LocalSource<Seq<char>> {
        match self {
            LocalSource::Pattern { dir, pattern } => LocalSource::Pattern {
                dir: dir@,
                pattern: pattern@,
            },
            LocalSource::Path { path, as_dir } => LocalSource::Path {
                path: path@,
                as_dir: *as_dir,
            },
        }
    }
}

/// What a local source asks for. One with a slash at its end has to be a
/// directory.
pub open spec fn local_source(src: Seq<char>) -> LocalSource<Seq<char>> {
    let n = normal_form(src, false);
    if has_wildcard(n) {
        LocalSource::Pattern {
            dir: match parent_of(n) {
                Some(p) => p,
                None => "."@,
            },
            pattern: match file_name_of(n) {
                Some(name) => name,
                None => Seq::empty(),
            },
        }
    } else {
        LocalSource::Path {
            path: n,
            as_dir: normal_form(src, true).len() > 0 && normal_form(src, true).last() == '/',
        }
    }
}

/// Finds out what a local source asks for.
pub fn read_local_source(src: &str) -> (r: LocalSource)
    ensures
        r@ == local_source(src@),
{
    let n = normalize_path(src, false);
    if has_glob(n.as_str()) {
        let dir = match parent(n.as_str()) {
            Some(p) => p,
            None => ".".to_owned(),
        };
        let pattern = match file_name(n.as_str()) {
            Some(name) => name,
            None => {
                let none = String::new();
                proof {
                    assert(none@ =~= Seq::<char>::empty());
                }
                none
            },
        };
        LocalSource::Pattern { dir, pattern }
    } else {
        let kept = normalize_path(src, true);
        LocalSource::Path { path: n, as_dir: ends_with_char(kept.as_str(), '/') }
    }
}

/// What is done with the path of a local source.
#[derive(Debug, Clone, Copy, PartialEq, Eq, Structural)]
pub enum PathStep {
    /// Take all entries below it.
    Walk,
    /// Take it as a file.
    Take,
}

/// What is done with the path of a local source, or why it is refused.
pub open spec fn path_step(src: Seq<char>, as_dir: bool, found: bool, is_dir: bool) -> Result<
    PathStep,
    TransferError<Seq<char>>,
> {
    if as_dir && !(found && is_dir) {
        Err(TransferError::WorkerIo("源以 '/' 结尾但不是目录: "@ + src + " (本地)"@))
    } else if !found {
        Err(TransferError::WorkerIo("源不存在: "@ + src + " (本地)"@))
    } else if is_dir {
        Ok(PathStep::Walk)
    } else {
        Ok(PathStep::Take)
    }
}

/// Decides what is done with the path of a local source.
pub fn decide_path(src: &str, as_dir: bool, found: bool, is_dir: bool) -> (r: Result<
    PathStep,
    TransferError,
>)
    ensures
        match r {
            Ok(step) => path_step(src@, as_dir, found, is_dir) == Ok::<
                PathStep,
                TransferError<Seq<char>>,
            >(step),
            Err(e) => path_step(src@, as_dir, found, is_dir) == Err::<
                PathStep,
                TransferError<Seq<char>>,
            >(e@),
        },
{
    if as_dir && !(found && is_dir) {
        Err(TransferError::WorkerIo(cat3("源以 '/' 结尾但不是目录: ", src, " (本地)")))
    } else if !found {
        Err(TransferError::WorkerIo(cat3("源不存在: ", src, " (本地)")))
    } else if is_dir {
        Ok(PathStep::Walk)
    } else {
        Ok(PathStep::Take)
    }
}

/// A directory and the same directory with a slash at its end ask for the
/// same: all entries below it.
pub proof fn slash_after_directory_changes_nothing(src: Seq<char>)
    requires
        src.len() > 0,
        !has_wildcard(normal_form(src, false)),
    ensures
        local_source(src.push('/')) == (LocalSource::Path {
            path: normal_form(src, false),
            as_dir: true,
        }),
        local_source(src) matches LocalSource::Path { path, as_dir } && path == normal_form(
            src,
            false,
        ),
        path_step(src.push('/'), true, true, true) == path_step(src, false, true, true),
        path_step(src, false, true, true) == Ok::<PathStep, TransferError<Seq<char>>>(
            PathStep::Walk,
        ),
{
    trailing_slash_is_dropped(src);
    assert(normal_form(src.push('/'), true).len() > 0) by {
        super::helpers::normal_form_is_nonempty(src.push('/'), true);
    }
}

/// A local entry.
pub open spec fn local_entry(
    kind: EntryKind,
    full: Seq<char>,
    rel: Seq<char>,
    size: Option<u64>,
) -> FileEntry<Seq<char>> {
    FileEntry { remote_full: Seq::empty(), rel, size, kind, local_full: Some(full) }
}

/// Makes a local entry.
pub fn make_local_entry(kind: EntryKind, full: &str, rel: &str, size: Option<u64>) -> (r: FileEntry)
    ensures
        r@ == local_entry(kind, full@, rel@, size),
{
    let r = FileEntry {
        remote_full: String::new(),
        rel: rel.to_owned(),
        size,
        kind,
        local_full: Some(full.to_owned()),
    };
    proof {
        assert(r@.remote_full =~= Seq::<char>::empty());
    }
    r
}

/// The sizes of entries added up.
pub open spec fn size_sum(entries: Seq<FileEntry<Seq<char>>>) -> nat
    decreases entries.len(),
{
    if entries.len() == 0 {
        0
    } else {
        size_sum(entries.drop_last()) + match entries.last().size {
            Some(n) => n as nat,
            None => 0,
        }
    }
}

/// The entries that were found so far, and their size.
pub struct Enumeration {
    pub entries: Vec<FileEntry>,
    pub total_size: u64,
}

impl Enumeration {
    /// The size is that of the entries.
    pub open spec fn wf(self) -> bool {
        self.total_size == size_sum(entries_of(self.entries@))
    }

    pub fn new() -> (r: Self)
        ensures
            entries_of(r.entries@) == Seq::<FileEntry<Seq<char>>>::empty(),
            r.wf(),
    {
        let r = Enumeration { entries: Vec::new(), total_size: 0 };
        proof {
            assert(entries_of(r.entries@) =~= Seq::<FileEntry<Seq<char>>>::empty());
        }
        r
    }
}

/// Whether a text starts with another one.
pub open spec fn starts_with(s: Seq<char>, start: Seq<char>) -> bool {
    s.len() >= start.len() && s.take(start.len() as int) == start
}

/// Whether a path is that of a directory, or of something below it.
pub open spec fn leads_through(root: Seq<char>, path: Seq<char>) -> bool {
    &&& root.len() > 0
    &&& starts_with(path, root)
    &&& path.len() == root.len() || root.last() == '/' || path[root.len() as int] == '/'
}

/// The path of an entry below the directory that is walked.
pub open spec fn below(root: Seq<char>, path: Seq<char>) -> Seq<char> {
    if leads_through(root, path) {
        strip_start(path.skip(root.len() as int), '/')
    } else {
        path
    }
}

/// Finds the path of an entry below the directory that is walked.
pub fn path_below(root: &str, path: &str) -> (r: String)
    ensures
        r@ == below(root@, path@),
{
    let v = to_chars(path);
    let w = to_chars(root);
    if w.len() == 0 || v.len() < w.len() {
        return path.to_owned();
    }
    let start = text_of(&v, 0, w.len());
    proof {
        assert(v@.subrange(0, w@.len() as int) =~= path@.take(root@.len() as int));
    }
    if !same(start.as_str(), root) {
        return path.to_owned();
    }
    if v.len() > w.len() && w[w.len() - 1] != '/' && v[w.len()] != '/' {
        return path.to_owned();
    }
    let rest = text_of(&v, w.len(), v.len());
    proof {
        assert(v@.subrange(w@.len() as int, v@.len() as int) =~= path@.skip(root@.len() as int));
    }
    without_start(rest.as_str(), '/')
}

/// What was joined to a directory is its path below that directory.
pub proof fn joined_path_is_below(root: Seq<char>, rel: Seq<char>)
    requires
        rel.len() > 0,
        rel[0] != '/',
        root.len() > 0,
    ensures
        below(root, joined(root, rel)) == rel,
{
    let p = joined(root, rel);
    assert(p.take(root.len() as int) =~= root);
    let rest = p.skip(root.len() as int);
    if root.last() == '/' {
        assert(rest =~= rel);
        lemma_strip_start_is(rest, '/', 0);
        assert(rest.skip(0) =~= rel);
    } else {
        assert(rest =~= seq!['/'] + rel);
        lemma_strip_start_is(rest, '/', 1);
        assert(rest.skip(1) =~= rel);
    }
}

/// The error where the directory of a pattern cannot be read.
pub fn unreadable_directory(dir: &str) -> (r: TransferError)
    ensures
        r@ == TransferError::WorkerIo("无法读取目录: "@ + dir@),
{
    TransferError::WorkerIo(cat2("无法读取目录: ", dir))
}

/// The error where an entry that fits a pattern cannot be looked at.
pub fn unreadable_entry(full: &str, error: &str) -> (r: TransferError)
    ensures
        r@ == TransferError::WorkerIo("本地 stat 失败: "@ + full@ + " — "@ + error@),
{
    TransferError::WorkerIo(cat4("本地 stat 失败: ", full, " — ", error))
}

/// What a look at a local path shows.
#[derive(Debug, Clone, Copy, PartialEq, Eq, Structural)]
pub struct Facts {
    pub is_dir: bool,
    pub is_file: bool,
    pub size: u64,
}

/// A name in a directory that was listed, and what a look at it shows, or why
/// it could not be looked at.
pub struct Child<S = String> {
    pub name: S,
    pub seen: Result<Facts, S>,
}

impl View for Child<String> {
    type V = Child<Seq<char>>;

    open spec fn view(&self) -> Child<Seq<char>> {
        Child {
            name: self.name@,
            seen: match self.seen {
                Ok(facts) => Ok(facts),
                Err(e) => Err(e@),
            },
        }
    }
}

/// A path that a walk has come to.
pub struct Walked<S = String> {
    pub path: S,
    pub facts: Facts,
}

impl View for Walked<String> {
    type V = Walked<Seq<char>>;

    open spec fn view(&self) -> Walked<Seq<char>> {
        Walked { path: self.path@, facts: self.facts }
    }
}

/// What was found on disk for a local source.
pub struct Found<C = Vec<Child>, W = Vec<Walked>> {
    /// What is in the directory of a pattern, where it can be read.
    pub listing: Option<C>,
    /// What is at the path of a source that is no pattern.
    pub here: Option<Facts>,
    /// What a walk from there comes to.
    pub walked: W,
}

impl View for Found<Vec<Child>, Vec<Walked>> {
    type V = Found<Seq<Child<Seq<char>>>, Seq<Walked<Seq<char>>>>;

    open spec fn view(&self) -> Found<Seq<Child<Seq<char>>>, Seq<Walked<Seq<char>>>> {
        Found {
            listing: match self.listing {
                Some(v) => Some(v@.map_values(|c: Child| c@)),
                None => None,
            },
            here: self.here,
            walked: self.walked@.map_values(|w: Walked| w@),
        }
    }
}

/// Whether a name fits a pattern.
pub open spec fn fits(pattern: Seq<char>) -> spec_fn(Child<Seq<char>>) -> bool {
    |c: Child<Seq<char>>| glob_matches(pattern, c.name)
}

/// The entry of a name that fits a pattern. A directory is not entered.
pub open spec fn fitting_entry(dir: Seq<char>) -> spec_fn(Child<Seq<char>>) -> FileEntry<Seq<char>> {
    |c: Child<Seq<char>>|
        match c.seen {
            Ok(facts) if facts.is_file => local_entry(
                EntryKind::File,
                joined(dir, c.name),
                c.name,
                Some(facts.size),
            ),
            _ => local_entry(EntryKind::Dir, joined(dir, c.name), c.name, None),
        }
}

/// The error of the first name that fits a pattern and could not be looked at.
pub open spec fn first_failure(
    dir: Seq<char>,
    pattern: Seq<char>,
    children: Seq<Child<Seq<char>>>,
) -> Option<TransferError<Seq<char>>>
    decreases children.len(),
{
    if children.len() == 0 {
        None
    } else {
        match first_failure(dir, pattern, children.drop_last()) {
            Some(e) => Some(e),
            None => match children.last().seen {
                Err(e) if glob_matches(pattern, children.last().name) => Some(
                    TransferError::WorkerIo(
                        "本地 stat 失败: "@ + joined(dir, children.last().name) + " — "@ + e,
                    ),
                ),
                _ => None,
            },
        }
    }
}

/// The entries of a pattern: one for every name in its directory that fits, in
/// the order of the listing. It has to fit something.
pub open spec fn pattern_entries(
    src: Seq<char>,
    dir: Seq<char>,
    pattern: Seq<char>,
    listing: Option<Seq<Child<Seq<char>>>>,
) -> Result<Seq<FileEntry<Seq<char>>>, TransferError<Seq<char>>> {
    match listing {
        None => Err(TransferError::WorkerIo("无法读取目录: "@ + dir)),
        Some(children) => match first_failure(dir, pattern, children) {
            Some(e) => Err(e),
            None => if children.filter(fits(pattern)).len() == 0 {
                Err(TransferError::GlobNoMatches(src))
            } else {
                Ok(children.filter(fits(pattern)).map_values(fitting_entry(dir)))
            },
        },
    }
}

/// Whether a path that a walk has come to is an entry. The directory where the
/// walk starts is none, nor is what is neither a file nor a directory.
pub open spec fn counts(root: Seq<char>) -> spec_fn(Walked<Seq<char>>) -> bool {
    |w: Walked<Seq<char>>|
        if w.facts.is_dir {
            below(root, w.path).len() > 0
        } else {
            w.facts.is_file
        }
}

/// The entry of a path that a walk has come to.
pub open spec fn walked_entry(root: Seq<char>) -> spec_fn(Walked<Seq<char>>) -> FileEntry<Seq<char>> {
    |w: Walked<Seq<char>>|
        if w.facts.is_dir {
            local_entry(EntryKind::Dir, w.path, below(root, w.path), None)
        } else {
            local_entry(EntryKind::File, w.path, below(root, w.path), Some(w.facts.size))
        }
}

/// The entries below a directory, in the order of the walk.
pub open spec fn walked_entries(
    root: Seq<char>,
    walked: Seq<Walked<Seq<char>>>,
) -> Seq<FileEntry<Seq<char>>> {
    walked.filter(counts(root)).map_values(walked_entry(root))
}

/// The entries of a local source, from what was found on disk for it.
pub open spec fn source_entries(
    src: Seq<char>,
    found: Found<Seq<Child<Seq<char>>>, Seq<Walked<Seq<char>>>>,
) -> Result<Seq<FileEntry<Seq<char>>>, TransferError<Seq<char>>> {
    match local_source(src) {
        LocalSource::Pattern { dir, pattern } => pattern_entries(src, dir, pattern, found.listing),
        LocalSource::Path { path, as_dir } => match path_step(
            src,
            as_dir,
            found.here is Some,
            found.here matches Some(facts) && facts.is_dir,
        ) {
            Err(e) => Err(e),
            Ok(PathStep::Walk) => Ok(walked_entries(path, found.walked)),
            Ok(PathStep::Take) => Ok(
                seq![
                    local_entry(
                        EntryKind::File,
                        path,
                        match file_name_of(path) {
                            Some(name) => name,
                            None => Seq::empty(),
                        },
                        Some(found.here->Some_0.size),
                    ),
                ],
            ),
        },
    }
}

/// The entries of local sources, source by source, or the error of the first
/// source that has one.
pub open spec fn all_entries(
    sources: Seq<Seq<char>>,
    found: Seq<Found<Seq<Child<Seq<char>>>, Seq<Walked<Seq<char>>>>>,
) -> Result<Seq<FileEntry<Seq<char>>>, TransferError<Seq<char>>>
    decreases sources.len(),
{
    if sources.len() == 0 {
        Ok(Seq::empty())
    } else {
        match all_entries(sources.drop_last(), found.drop_last()) {
            Err(e) => Err(e),
            Ok(before) => match source_entries(sources.last(), found.last()) {
                Err(e) => Err(e),
                Ok(more) => Ok(before + more),
            },
        }
    }
}

/// What the making of a list of entries has come to.
pub open spec fn outcome(r: Result<Vec<FileEntry>, TransferError>) -> Result<
    Seq<FileEntry<Seq<char>>>,
    TransferError<Seq<char>>,
> {
    match r {
        Ok(v) => Ok(entries_of(v@)),
        Err(e) => Err(e@),
    }
}

proof fn lemma_failure_stays(
    dir: Seq<char>,
    pattern: Seq<char>,
    children: Seq<Child<Seq<char>>>,
    n: int,
)
    requires
        0 <= n <= children.len(),
        first_failure(dir, pattern, children.take(n)) is Some,
    ensures
        first_failure(dir, pattern, children) == first_failure(dir, pattern, children.take(n)),
    decreases children.len(),
{
    if n == children.len() {
        assert(children.take(n) =~= children);
    } else {
        assert(children.drop_last().take(n) =~= children.take(n));
        lemma_failure_stays(dir, pattern, children.drop_last(), n);
    }
}

/// Lists the entries of a pattern.
fn list_fitting(src: &str, dir: &str, pattern: &str, listing: &Option<Vec<Child>>) -> (r: Result<
    Vec<FileEntry>,
    TransferError,
>)
    ensures
        outcome(r) == pattern_entries(
            src@,
            dir@,
            pattern@,
            match listing {
                Some(v) => Some(v@.map_values(|c: Child| c@)),
                None => None,
            },
        ),
{
    let children = match listing {
        Some(children) => children,
        None => {
            return Err(unreadable_directory(dir));
        },
    };
    let ghost all = children@.map_values(|c: Child| c@);
    let mut out: Vec<FileEntry> = Vec::new();
    let mut i: usize = 0;
    proof {
        reveal(Seq::filter);
        assert(all.take(0) =~= Seq::<Child<Seq<char>>>::empty());
        assert(entries_of(out@) =~= all.take(0).filter(fits(pattern@)).map_values(
            fitting_entry(dir@),
        ));
    }
    while i < children.len()
        invariant
            i <= children.len(),
            listing matches Some(v) && v@ == children@,
            all == children@.map_values(|c: Child| c@),
            first_failure(dir@, pattern@, all.take(i as int)) is None,
            entries_of(out@) == all.take(i as int).filter(fits(pattern@)).map_values(
                fitting_entry(dir@),
            ),
        decreases children.len() - i,
    {
        let child = &children[i];
        let ghost done = all.take(i as int);
        let ghost so_far = all.take(i + 1);
        proof {
            reveal(Seq::filter);
            assert(child@ == all[i as int]);
            assert(so_far.drop_last() =~= done);
            assert(so_far.last() == child@);
        }
        if wildcard_match(pattern, child.name.as_str()) {
            proof {
                assert(fits(pattern@)(so_far.last()));
            }
            let full = join(dir, child.name.as_str());
            let e = match &child.seen {
                Ok(facts) => if facts.is_file {
                    make_local_entry(
                        EntryKind::File,
                        full.as_str(),
                        child.name.as_str(),
                        Some(facts.size),
                    )
                } else {
                    make_local_entry(EntryKind::Dir, full.as_str(), child.name.as_str(), None)
                },
                Err(error) => {
                    proof {
                        lemma_failure_stays(dir@, pattern@, all, i + 1);
                    }
                    return Err(unreadable_entry(full.as_str(), error.as_str()));
                },
            };
            let ghost before = entries_of(out@);
            out.push(e);
            proof {
                assert(entries_of(out@) =~= before.push(e@));
                assert(so_far.filter(fits(pattern@)) =~= done.filter(fits(pattern@)).push(child@));
                assert(e@ == fitting_entry(dir@)(child@));
                assert(entries_of(out@) =~= so_far.filter(fits(pattern@)).map_values(
                    fitting_entry(dir@),
                ));
            }
        } else {
            proof {
                assert(!fits(pattern@)(so_far.last()));
            }
        }
        i = i + 1;
    }
    proof {
        assert(all.take(i as int) =~= all);
        assert(entries_of(out@).len() == out@.len());
    }
    if out.len() == 0 {
        Err(TransferError::GlobNoMatches(src.to_owned()))
    } else {
        Ok(out)
    }
}

/// Lists the entries below a directory.
pub fn collect_dir_entries(root: &str, walked: &Vec<Walked>) -> (r: Vec<FileEntry>)
    ensures
        entries_of(r@) == walked_entries(root@, walked@.map_values(|w: Walked| w@)),
{
    let ghost all = walked@.map_values(|w: Walked| w@);
    let mut out: Vec<FileEntry> = Vec::new();
    let mut i: usize = 0;
    proof {
        reveal(Seq::filter);
        assert(all.take(0) =~= Seq::<Walked<Seq<char>>>::empty());
        assert(entries_of(out@) =~= walked_entries(root@, all.take(0)));
    }
    while i < walked.len()
        invariant
            i <= walked.len(),
            all == walked@.map_values(|w: Walked| w@),
            entries_of(out@) == walked_entries(root@, all.take(i as int)),
        decreases walked.len() - i,
    {
        let w = &walked[i];
        let rel = path_below(root, w.path.as_str());
        let ghost done = all.take(i as int);
        let ghost so_far = all.take(i + 1);
        proof {
            reveal(Seq::filter);
            assert(w@ == all[i as int]);
            assert(so_far.drop_last() =~= done);
            assert(so_far.last() == w@);
        }
        let taken = if w.facts.is_dir {
            !rel.as_str().is_empty()
        } else {
            w.facts.is_file
        };
        proof {
            assert(taken == counts(root@)(so_far.last()));
        }
        if taken {
            let e = if w.facts.is_dir {
                make_local_entry(EntryKind::Dir, w.path.as_str(), rel.as_str(), None)
            } else {
                make_local_entry(
                    EntryKind::File,
                    w.path.as_str(),
                    rel.as_str(),
                    Some(w.facts.size),
                )
            };
            let ghost before = entries_of(out@);
            out.push(e);
            proof {
                assert(entries_of(out@) =~= before.push(e@));
                assert(so_far.filter(counts(root@)) =~= done.filter(counts(root@)).push(w@));
                assert(e@ == walked_entry(root@)(w@));
                assert(entries_of(out@) =~= walked_entries(root@, so_far));
            }
        }
        i = i + 1;
    }
    proof {
        assert(all.take(i as int) =~= all);
    }
    out
}

/// Lists the entries of a local source, from what was found on disk for it.
pub fn enumerate_local_source(src: &str, found: &Found) -> (r: Result<
    Vec<FileEntry>,
    TransferError,
>)
    ensures
        outcome(r) == source_entries(src@, found@),
{
    match read_local_source(src) {
        LocalSource::Pattern { dir, pattern } => list_fitting(
            src,
            dir.as_str(),
            pattern.as_str(),
            &found.listing,
        ),
        LocalSource::Path { path, as_dir } => {
            let (there, is_dir, size) = match found.here {
                Some(facts) => (true, facts.is_dir, facts.size),
                None => (false, false, 0),
            };
            match decide_path(src, as_dir, there, is_dir) {
                Err(e) => Err(e),
                Ok(PathStep::Walk) => Ok(collect_dir_entries(path.as_str(), &found.walked)),
                Ok(PathStep::Take) => {
                    let name = match file_name(path.as_str()) {
                        Some(name) => name,
                        None => {
                            let none = String::new();
                            proof {
                                assert(none@ =~= Seq::<char>::empty());
                            }
                            none
                        },
                    };
                    let e = make_local_entry(
                        EntryKind::File,
                        path.as_str(),
                        name.as_str(),
                        Some(size),
                    );
                    let mut out: Vec<FileEntry> = Vec::new();
                    out.push(e);
                    proof {
                        assert(entries_of(out@) =~= seq![e@]);
                    }
                    Ok(out)
                },
            }
        },
    }
}

proof fn lemma_error_stays(
    sources: Seq<Seq<char>>,
    found: Seq<Found<Seq<Child<Seq<char>>>, Seq<Walked<Seq<char>>>>>,
    n: int,
)
    requires
        sources.len() == found.len(),
        0 <= n <= sources.len(),
        all_entries(sources.take(n), found.take(n)) is Err,
    ensures
        all_entries(sources, found) == all_entries(sources.take(n), found.take(n)),
    decreases sources.len(),
{
    if n == sources.len() {
        assert(sources.take(n) =~= sources);
        assert(found.take(n) =~= found);
    } else {
        assert(sources.drop_last().take(n) =~= sources.take(n));
        assert(found.drop_last().take(n) =~= found.take(n));
        lemma_error_stays(sources.drop_last(), found.drop_last(), n);
    }
}

proof fn lemma_part_of_sum(entries: Seq<FileEntry<Seq<char>>>, n: int)
    requires
        0 <= n <= entries.len(),
    ensures
        size_sum(entries.take(n)) <= size_sum(entries),
    decreases entries.len(),
{
    if n == entries.len() {
        assert(entries.take(n) =~= entries);
    } else {
        assert(entries.drop_last().take(n) =~= entries.take(n));
        lemma_part_of_sum(entries.drop_last(), n);
    }
}

/// Adds up the sizes of entries; none where the sum is too large.
fn add_sizes(entries: &Vec<FileEntry>) -> (r: Option<u64>)
    ensures
        match r {
            Some(n) => n == size_sum(entries_of(entries@)),
            None => size_sum(entries_of(entries@)) > u64::MAX,
        },
{
    let ghost all = entries_of(entries@);
    let mut sum: u64 = 0;
    let mut i: usize = 0;
    while i < entries.len()
        invariant
            i <= entries.len(),
            all == entries_of(entries@),
            sum == size_sum(all.take(i as int)),
        decreases entries.len() - i,
    {
        proof {
            assert(all.take(i + 1).drop_last() =~= all.take(i as int));
            assert(all.take(i + 1).last() == entries@[i as int]@);
            lemma_part_of_sum(all, i + 1);
        }
        if let Some(n) = entries[i].size {
            if n > u64::MAX - sum {
                return None;
            }
            sum = sum + n;
        }
        i = i + 1;
    }
    proof {
        assert(all.take(i as int) =~= all);
    }
    Some(sum)
}

/// The views of what was found for each source.
pub open spec fn all_found(v: Seq<Found>) -> Seq<
    Found<Seq<Child<Seq<char>>>, Seq<Walked<Seq<char>>>>,
> {
    v.map_values(|f: Found| f@)
}

/// Lists the entries of local sources, from what was found on disk for each of
/// them. There is no list where the sizes do not fit into their sum.
pub fn enumerate_local_sources(sources: &Vec<String>, found: &Vec<Found>) -> (r: Result<
    Option<Enumeration>,
    TransferError,
>)
    requires
        sources.len() == found.len(),
    ensures
        match all_entries(texts(sources@), all_found(found@)) {
            Err(e) => r matches Err(error) && error@ == e,
            Ok(entries) => match r {
                Err(_) => false,
                Ok(Some(all)) => entries_of(all.entries@) == entries && all.wf(),
                Ok(None) => size_sum(entries) > u64::MAX,
            },
        },
{
    let ghost srcs = texts(sources@);
    let ghost seen = all_found(found@);
    let mut all = Enumeration::new();
    let mut i: usize = 0;
    proof {
        assert(srcs.take(0) =~= Seq::<Seq<char>>::empty());
    }
    while i < sources.len()
        invariant
            i <= sources.len(),
            sources.len() == found.len(),
            srcs == texts(sources@),
            seen == all_found(found@),
            all_entries(srcs.take(i as int), seen.take(i as int)) == Ok::<
                Seq<FileEntry<Seq<char>>>,
                TransferError<Seq<char>>,
            >(entries_of(all.entries@)),
        decreases sources.len() - i,
    {
        proof {
            assert(srcs.take(i + 1).drop_last() =~= srcs.take(i as int));
            assert(seen.take(i + 1).drop_last() =~= seen.take(i as int));
            assert(srcs.take(i + 1).last() == sources@[i as int]@);
            assert(seen.take(i + 1).last() == found@[i as int]@);
        }
        match enumerate_local_source(sources[i].as_str(), &found[i]) {
            Err(e) => {
                proof {
                    lemma_error_stays(srcs, seen, i + 1);
                }
                return Err(e);
            },
            Ok(more) => {
                let mut more = more;
                let ghost before = all.entries@;
                let ghost added = more@;
                all.entries.append(&mut more);
                proof {
                    assert(entries_of(all.entries@) =~= entries_of(before) + entries_of(added));
                }
            },
        }
        i = i + 1;
    }
    proof {
        assert(srcs.take(i as int) =~= srcs);
        assert(seen.take(i as int) =~= seen);
    }
    match add_sizes(&all.entries) {
        Some(sum) => {
            all.total_size = sum;
            Ok(Some(all))
        },
        None => Ok(None),
    }
}

proof fn lemma_fitting(children: Seq<Child<Seq<char>>>, pattern: Seq<char>)
    ensures
        children.filter(fits(pattern)).len() == 0 <==> forall|i: int|
            0 <= i < children.len() ==> !glob_matches(pattern, (#[trigger] children[i]).name),
    decreases children.len(),
{
    reveal(Seq::filter);
    if children.len() > 0 {
        let rest = children.drop_last();
        lemma_fitting(rest, pattern);
        assert(fits(pattern)(children.last()) == glob_matches(pattern, children.last().name));
        assert(forall|i: int| 0 <= i < rest.len() ==> rest[i] == children[i]);
        assert(children.last() == children[children.len() - 1]);
        if forall|i: int|
            0 <= i < rest.len() ==> !glob_matches(pattern, (#[trigger] rest[i]).name) {
            assert forall|i: int|
                0 <= i < children.len() && !glob_matches(
                    pattern,
                    children.last().name,
                ) implies !glob_matches(pattern, (#[trigger] children[i]).name) by {
                if i < rest.len() {
                    assert(rest[i] == children[i]);
                }
            }
        } else {
            let k = choose|k: int|
                0 <= k < rest.len() && glob_matches(pattern, (#[trigger] rest[k]).name);
            assert(children[k] == rest[k]);
        }
    }
}

proof fn lemma_failure_is_no_miss(
    dir: Seq<char>,
    pattern: Seq<char>,
    children: Seq<Child<Seq<char>>>,
)
    ensures
        first_failure(dir, pattern, children) is Some <==> exists|i: int|
            0 <= i < children.len() && (#[trigger] children[i]).seen is Err && glob_matches(
                pattern,
                children[i].name,
            ),
        first_failure(dir, pattern, children) matches Some(e) ==> e is WorkerIo,
    decreases children.len(),
{
    if children.len() > 0 {
        let rest = children.drop_last();
        lemma_failure_is_no_miss(dir, pattern, rest);
        if first_failure(dir, pattern, rest) is Some {
            let k = choose|k: int|
                0 <= k < rest.len() && (#[trigger] rest[k]).seen is Err && glob_matches(
                    pattern,
                    rest[k].name,
                );
            assert(children[k] == rest[k]);
        } else {
            assert forall|i: int|
                0 <= i < rest.len() && (#[trigger] children[i]).seen is Err implies !glob_matches(
                pattern,
                children[i].name,
            ) by {
                assert(rest[i] == children[i]);
            }
            assert(children.last() == children[children.len() - 1]);
        }
    }
}

/// A pattern whose directory can be read is refused for want of a match exactly
/// where no name fits it. Otherwise it comes to a list exactly where every name
/// that fits could be looked at, and then there is one entry for each of them,
/// in the order of the listing and under that name.
pub proof fn patterns_take_what_fits(
    src: Seq<char>,
    dir: Seq<char>,
    pattern: Seq<char>,
    children: Seq<Child<Seq<char>>>,
)
    ensures
        pattern_entries(src, dir, pattern, Some(children)) == Err::<
            Seq<FileEntry<Seq<char>>>,
            TransferError<Seq<char>>,
        >(TransferError::GlobNoMatches(src)) <==> forall|i: int|
            0 <= i < children.len() ==> !glob_matches(pattern, (#[trigger] children[i]).name),
        pattern_entries(src, dir, pattern, Some(children)) matches Err(e) && e is WorkerIo
            <==> exists|i: int|
            0 <= i < children.len() && (#[trigger] children[i]).seen is Err && glob_matches(
                pattern,
                children[i].name,
            ),
        pattern_entries(src, dir, pattern, Some(children)) matches Ok(entries) ==> {
            let taken = children.filter(fits(pattern));
            &&& entries.len() == taken.len()
            &&& forall|i: int|
                0 <= i < taken.len() ==> (#[trigger] entries[i]).rel == taken[i].name
                    && entries[i].local_full == Some(joined(dir, taken[i].name))
        },
{
    lemma_fitting(children, pattern);
    lemma_failure_is_no_miss(dir, pattern, children);
}

/// A directory and the same directory with a slash at its end have the same
/// entries.
pub proof fn slash_after_directory_keeps_entries(
    src: Seq<char>,
    found: Found<Seq<Child<Seq<char>>>, Seq<Walked<Seq<char>>>>,
)
    requires
        src.len() > 0,
        !has_wildcard(normal_form(src, false)),
        found.here matches Some(facts) && facts.is_dir,
    ensures
        source_entries(src.push('/'), found) == source_entries(src, found),
        source_entries(src, found) == Ok::<
            Seq<FileEntry<Seq<char>>>,
            TransferError<Seq<char>>,
        >(walked_entries(normal_form(src, false), found.walked)),
{
    slash_after_directory_changes_nothing(src);
}

/// A source that names a file comes to one entry: the file at the path that was
/// looked at, under its name, with the size that was found there.
pub proof fn named_file_is_the_entry(
    src: Seq<char>,
    found: Found<Seq<Child<Seq<char>>>, Seq<Walked<Seq<char>>>>,
)
    requires
        !has_wildcard(normal_form(src, false)),
        !(normal_form(src, true).len() > 0 && normal_form(src, true).last() == '/'),
        found.here matches Some(facts) && !facts.is_dir,
    ensures
        source_entries(src, found) matches Ok(entries) && {
            &&& entries.len() == 1
            &&& entries[0].kind == EntryKind::File
            &&& entries[0].local_full == Some(normal_form(src, false))
            &&& entries[0].size == Some(found.here->Some_0.size)
            &&& file_name_of(normal_form(src, false)) matches Some(name) ==> entries[0].rel == name
        },
{
}

/// A file `dir/name` is opened at that path and sent under its name.
pub proof fn file_in_a_directory_is_sent_under_its_name(
    dir: Seq<char>,
    name: Seq<char>,
    found: Found<Seq<Child<Seq<char>>>, Seq<Walked<Seq<char>>>>,
)
    requires
        dir.len() > 0,
        dir.last() != '/',
        crate::paths::bare(dir) == dir,
        super::helpers::single_slashes(dir),
        !dir.contains('\\'),
        !has_wildcard(dir),
        !has_wildcard(name),
        crate::paths::is_step_down(name),
        !name.contains('/'),
        !name.contains('\\'),
        found.here matches Some(facts) && !facts.is_dir,
    ensures
        source_entries(joined(dir, name), found) matches Ok(entries) && entries.len() == 1
            && entries[0].local_full == Some(dir + seq!['/'] + name) && entries[0].rel == name,
{
    let p = joined(dir, name);
    lemma_clean_join(dir, name);
    crate::paths::join_then_split(dir, name);
    assert forall|i: int| 0 <= i < p.len() implies p[i] != '*' && p[i] != '?' by {
        if i < dir.len() {
            assert(dir.contains(dir[i]));
        } else if i > dir.len() {
            assert(p[i] == name[i - dir.len() - 1]);
            assert(name.contains(p[i]));
        }
    }
    named_file_is_the_entry(p, found);
}

proof fn lemma_clean_join(dir: Seq<char>, name: Seq<char>)
    requires
        dir.len() > 0,
        dir.last() != '/',
        super::helpers::single_slashes(dir),
        !dir.contains('\\'),
        name.len() > 0,
        !name.contains('/'),
        !name.contains('\\'),
    ensures
        joined(dir, name) == dir + seq!['/'] + name,
        normal_form(joined(dir, name), false) == joined(dir, name),
        normal_form(joined(dir, name), true) == joined(dir, name),
        joined(dir, name).last() == name.last() && name.last() != '/',
{
    let p = joined(dir, name);
    assert forall|i: int| 0 <= i < name.len() implies name[i] != '/' && name[i] != '\\' by {
        assert(name.contains(name[i]));
    }
    assert forall|i: int| 0 <= i < dir.len() implies dir[i] != '\\' by {
        assert(dir.contains(dir[i]));
    }
    assert(p == dir + seq!['/'] + name);
    assert forall|i: int| 0 <= i < p.len() - 1 && #[trigger] p[i] == '/' implies p[i + 1] != '/' by {
        if i < dir.len() - 1 {
            assert(dir[i] == '/');
            assert(p[i + 1] == dir[i + 1]);
        } else if i >= dir.len() {
            assert(p[i + 1] == name[i - dir.len()]);
        }
    }
    if p.contains('\\') {
        let i = choose|i: int| 0 <= i < p.len() && p[i] == '\\';
        if i > dir.len() {
            assert(p[i] == name[i - dir.len() - 1]);
        } else if i < dir.len() {
            assert(p[i] == dir[i]);
        }
    }
    super::helpers::clean_paths_are_in_normal_form(p, false);
    super::helpers::clean_paths_are_in_normal_form(p, true);
}

/// `dir/pattern` with a wildcard in the pattern asks for what is in that
/// directory and fits that pattern.
pub proof fn local_patterns_are_looked_for_in_their_directory(dir: Seq<char>, pattern: Seq<char>)
    requires
        dir.len() > 0,
        dir.last() != '/',
        crate::paths::bare(dir) == dir,
        super::helpers::single_slashes(dir),
        !dir.contains('\\'),
        has_wildcard(pattern),
        crate::paths::is_step_down(pattern),
        !pattern.contains('/'),
        !pattern.contains('\\'),
    ensures
        local_source(dir + seq!['/'] + pattern) == (LocalSource::Pattern { dir, pattern }),
{
    let p = dir + seq!['/'] + pattern;
    lemma_clean_join(dir, pattern);
    crate::paths::join_then_split(dir, pattern);
    lemma_wildcard_behind(dir + seq!['/'], pattern);
}

proof fn lemma_wildcard_behind(a: Seq<char>, b: Seq<char>)
    requires
        has_wildcard(b),
    ensures
        has_wildcard(a + b),
{
    let i = if b.contains('*') {
        choose|i: int| 0 <= i < b.len() && b[i] == '*'
    } else {
        choose|i: int| 0 <= i < b.len() && b[i] == '?'
    };
    assert((a + b)[a.len() + i] == b[i]);
}

/// A source without wildcards asks for the path that it names, which has to be a
/// directory exactly where a slash stands at its end.
pub proof fn plain_sources_are_their_paths(src: Seq<char>)
    requires
        src.len() > 0,
        src.last() != '/',
        super::helpers::single_slashes(src),
        !src.contains('\\'),
        !has_wildcard(src),
    ensures
        local_source(src) == (LocalSource::Path { path: src, as_dir: false }),
        local_source(src.push('/')) == (LocalSource::Path { path: src, as_dir: true }),
{
    super::helpers::clean_paths_are_in_normal_form(src, false);
    super::helpers::clean_paths_are_in_normal_form(src, true);
    slash_after_directory_changes_nothing(src);
}

/// The path of a source has to be there, and with a slash at its end it has to
/// be a directory; the refusal names the source. A directory is walked, and
/// anything else is taken as a file.
pub proof fn paths_have_to_be_what_they_say(
    src: Seq<char>,
    as_dir: bool,
    found: bool,
    is_dir: bool,
)
    ensures
        path_step(src, as_dir, found, is_dir) is Ok <==> found && (as_dir ==> is_dir),
        path_step(src, as_dir, found, is_dir) matches Ok(step) ==> (step == PathStep::Walk
            <==> is_dir),
        path_step(src, as_dir, found, is_dir) matches Err(e) ==> e is WorkerIo
            && crate::text::has_part(e->WorkerIo_0, src),
{
    if let Err(e) = path_step(src, as_dir, found, is_dir) {
        let m = e->WorkerIo_0;
        if as_dir && !(found && is_dir) {
            let at = "源以 '/' 结尾但不是目录: "@.len() as int;
            assert(m.subrange(at, at + src.len()) =~= src);
        } else {
            let at = "源不存在: "@.len() as int;
            assert(m.subrange(at, at + src.len()) =~= src);
        }
    }
}

/// Every file below a directory is an entry: it is opened where it was found,
/// and its path below the directory is the one that leads to it from there.
pub proof fn files_below_a_directory_are_entries(
    root: Seq<char>,
    walked: Seq<Walked<Seq<char>>>,
    j: int,
    rel: Seq<char>,
)
    requires
        0 <= j < walked.len(),
        root.len() > 0,
        rel.len() > 0,
        rel[0] != '/',
        walked[j].path == joined(root, rel),
    ensures
        walked[j].facts.is_file && !walked[j].facts.is_dir ==> walked_entries(
            root,
            walked,
        ).contains(
            FileEntry {
                remote_full: Seq::empty(),
                rel,
                size: Some(walked[j].facts.size),
                kind: EntryKind::File,
                local_full: Some(walked[j].path),
            },
        ),
        walked[j].facts.is_dir ==> walked_entries(root, walked).contains(
            FileEntry {
                remote_full: Seq::empty(),
                rel,
                size: None,
                kind: EntryKind::Dir,
                local_full: Some(walked[j].path),
            },
        ),
{
    joined_path_is_below(root, rel);
    let w = walked[j];
    if w.facts.is_dir || w.facts.is_file {
        assert(counts(root)(w));
        walked.lemma_filter_contains(counts(root), j);
        let kept = walked.filter(counts(root));
        let k = choose|k: int| 0 <= k < kept.len() && kept[k] == w;
        assert(walked_entries(root, walked)[k] == walked_entry(root)(w));
    }
}

/// There is no entry but for what was found: every entry of a directory is a
/// file or directory that the walk came to, and each such comes once.
pub proof fn entries_of_a_directory_were_found(
    root: Seq<char>,
    walked: Seq<Walked<Seq<char>>>,
    i: int,
)
    requires
        0 <= i < walked_entries(root, walked).len(),
    ensures
        walked_entries(root, walked).len() <= walked.len(),
        ({
            let e = walked_entries(root, walked)[i];
            exists|j: int|
                0 <= j < walked.len() && e.local_full == Some((#[trigger] walked[j]).path) && (e.kind
                    == EntryKind::Dir <==> walked[j].facts.is_dir) && (e.kind == EntryKind::File
                    ==> walked[j].facts.is_file && e.size == Some(walked[j].facts.size))
        }),
{
    let kept = walked.filter(counts(root));
    walked.lemma_filter_len(counts(root));
    walked.lemma_filter_pred(counts(root), i);
    lemma_filtered_comes_from(walked, counts(root), i);
    let j = choose|j: int| 0 <= j < walked.len() && #[trigger] walked[j] == kept[i];
    assert(walked[j] == kept[i]);
}

proof fn lemma_filtered_comes_from<A>(s: Seq<A>, f: spec_fn(A) -> bool, i: int)
    requires
        0 <= i < s.filter(f).len(),
    ensures
        exists|j: int| 0 <= j < s.len() && #[trigger] s[j] == s.filter(f)[i],
    decreases s.len(),
{
    reveal(Seq::filter);
    if s.len() > 0 {
        let t = s.drop_last();
        if i < t.filter(f).len() {
            lemma_filtered_comes_from(t, f, i);
            let j = choose|j: int| 0 <= j < t.len() && #[trigger] t[j] == t.filter(f)[i];
            assert(s[j] == t[j]);
        } else {
            assert(s[s.len() - 1] == s.filter(f)[i]);
        }
    }
}

/// An entry that fits a pattern is a file with the size that was found, or a
/// directory that is not entered.
pub proof fn fitting_names_are_what_was_found(
    src: Seq<char>,
    dir: Seq<char>,
    pattern: Seq<char>,
    children: Seq<Child<Seq<char>>>,
    j: int,
)
    requires
        0 <= j < children.len(),
        glob_matches(pattern, children[j].name),
        children[j].seen is Ok,
        pattern_entries(src, dir, pattern, Some(children)) is Ok,
    ensures
        pattern_entries(src, dir, pattern, Some(children))->Ok_0.contains(
            FileEntry {
                remote_full: Seq::empty(),
                rel: children[j].name,
                size: if children[j].seen->Ok_0.is_file {
                    Some(children[j].seen->Ok_0.size)
                } else {
                    None
                },
                kind: if children[j].seen->Ok_0.is_file {
                    EntryKind::File
                } else {
                    EntryKind::Dir
                },
                local_full: Some(joined(dir, children[j].name)),
            },
        ),
{
    let c = children[j];
    assert(fits(pattern)(c));
    children.lemma_filter_contains(fits(pattern), j);
    let kept = children.filter(fits(pattern));
    let k = choose|k: int| 0 <= k < kept.len() && kept[k] == c;
    let entries = pattern_entries(src, dir, pattern, Some(children))->Ok_0;
    assert(entries[k] == fitting_entry(dir)(c));
}

/// The first name that fits and could not be looked at is the one that is
/// named, with the reason; a directory that cannot be read is named too.
pub proof fn unreadable_names_are_told(
    src: Seq<char>,
    dir: Seq<char>,
    pattern: Seq<char>,
    children: Seq<Child<Seq<char>>>,
    j: int,
)
    requires
        0 <= j < children.len(),
        glob_matches(pattern, children[j].name),
        children[j].seen is Err,
        forall|i: int|
            0 <= i < j && glob_matches(pattern, (#[trigger] children[i]).name)
                ==> children[i].seen is Ok,
    ensures
        pattern_entries(src, dir, pattern, Some(children)) matches Err(e) && e
            == TransferError::WorkerIo(
            "本地 stat 失败: "@ + joined(dir, children[j].name) + " — "@ + children[j].seen->Err_0,
        ),
        pattern_entries(src, dir, pattern, None) matches Err(e) && e is WorkerIo
            && crate::text::has_part(e->WorkerIo_0, dir),
{
    let upto = children.take(j + 1);
    assert(upto.drop_last() =~= children.take(j));
    assert(upto.last() == children[j]);
    lemma_failure_is_no_miss(dir, pattern, children.take(j));
    if first_failure(dir, pattern, children.take(j)) is Some {
        let front = children.take(j);
        let i = choose|i: int|
            0 <= i < front.len() && (#[trigger] front[i]).seen is Err && glob_matches(
                pattern,
                front[i].name,
            );
        assert(children[i] == front[i]);
    }
    lemma_failure_stays(dir, pattern, children, j + 1);
    let m = "无法读取目录: "@ + dir;
    let at = "无法读取目录: "@.len() as int;
    assert(m.subrange(at, at + dir.len()) =~= dir);
}

/// Sources come one after another: their lists follow on each other, and the
/// first source that is refused is the one whose refusal is told.
pub proof fn lists_of_sources_follow_on_each_other(
    sources: Seq<Seq<char>>,
    found: Seq<Found<Seq<Child<Seq<char>>>, Seq<Walked<Seq<char>>>>>,
    src: Seq<char>,
    more: Found<Seq<Child<Seq<char>>>, Seq<Walked<Seq<char>>>>,
)
    requires
        sources.len() == found.len(),
    ensures
        match (all_entries(sources, found), source_entries(src, more)) {
            (Ok(a), Ok(b)) => all_entries(sources.push(src), found.push(more)) == Ok::<
                Seq<FileEntry<Seq<char>>>,
                TransferError<Seq<char>>,
            >(a + b),
            (Ok(_), Err(e)) => all_entries(sources.push(src), found.push(more)) == Err::<
                Seq<FileEntry<Seq<char>>>,
                TransferError<Seq<char>>,
            >(e),
            (Err(e), _) => all_entries(sources.push(src), found.push(more)) == Err::<
                Seq<FileEntry<Seq<char>>>,
                TransferError<Seq<char>>,
            >(e),
        },
        all_entries(Seq::empty(), Seq::empty()) == Ok::<
            Seq<FileEntry<Seq<char>>>,
            TransferError<Seq<char>>,
        >(Seq::empty()),
{
    assert(sources.push(src).drop_last() =~= sources);
    assert(found.push(more).drop_last() =~= found);
}

/// The size of entries is that of each of them added up.
pub proof fn sizes_add_up(entries: Seq<FileEntry<Seq<char>>>, e: FileEntry<Seq<char>>)
    ensures
        size_sum(Seq::<FileEntry<Seq<char>>>::empty()) == 0,
        e.size matches Some(n) ==> size_sum(entries.push(e)) == size_sum(entries) + n,
        e.size is None ==> size_sum(entries.push(e)) == size_sum(entries),
{
    assert(entries.push(e).drop_last() =~= entries);
}

// ---------------------------------------------------------------------------
// A remote source
// ---------------------------------------------------------------------------

/// What a remote source asks for.
pub enum RemoteSource<S = String> {
    /// All entries below a directory.
    Walk(S),
    /// The entries of a directory whose names fit a pattern.
    Pattern { dir: S, pattern: S },
    /// What a look at the path shows.
    Look(S),
}

impl View for RemoteSource<String> {
    type V = RemoteSource<Seq<char>>;

    open spec fn view(&self) -> RemoteSource<Seq<char>> {
        match self {
            RemoteSource::Walk(p) => RemoteSource::Walk(p@),
            RemoteSource::Pattern { dir, pattern } => RemoteSource::Pattern {
                dir: dir@,
                pattern: pattern@,
            },
            RemoteSource::Look(p) => RemoteSource::Look(p@),
        }
    }
}

/// What a remote source asks for.
pub open spec fn remote_source(root: Seq<char>) -> RemoteSource<Seq<char>> {
    if has_wildcard(root) {
        RemoteSource::Pattern {
            dir: match parent_of(root) {
                Some(p) => p,
                None => "/"@,
            },
            pattern: match file_name_of(root) {
                Some(name) => name,
                None => Seq::empty(),
            },
        }
    } else if root.len() > 0 && root.last() == '/' {
        RemoteSource::Walk(root)
    } else {
        RemoteSource::Look(root)
    }
}

/// Finds out what a remote source asks for.
pub fn read_remote_source(root: &str) -> (r: RemoteSource)
    ensures
        r@ == remote_source(root@),
{
    if has_glob(root) {
        let dir = match parent(root) {
            Some(p) => p,
            None => "/".to_owned(),
        };
        let pattern = match file_name(root) {
            Some(name) => name,
            None => {
                let none = String::new();
                proof {
                    assert(none@ =~= Seq::<char>::empty());
                }
                none
            },
        };
        RemoteSource::Pattern { dir, pattern }
    } else if ends_with_char(root, '/') {
        RemoteSource::Walk(root.to_owned())
    } else {
        RemoteSource::Look(root.to_owned())
    }
}

/// A remote entry.
pub open spec fn remote_entry(
    kind: EntryKind,
    full: Seq<char>,
    rel: Seq<char>,
    size: Option<u64>,
) -> FileEntry<Seq<char>> {
    FileEntry { remote_full: full, rel, size, kind, local_full: None }
}

fn make_remote_entry(kind: EntryKind, full: String, rel: String, size: Option<u64>) -> (r: FileEntry)
    ensures
        r@ == remote_entry(kind, full@, rel@, size),
{
    FileEntry { remote_full: full, rel, size, kind, local_full: None }
}

/// What a look at a remote source shows: the entry of a file; none where it is
/// a directory, whose entries are then taken. They cannot go onto a file.
pub open spec fn looked_at(
    root: Seq<char>,
    is_file: bool,
    size: Option<u64>,
    target_is_dir: bool,
) -> Result<Option<FileEntry<Seq<char>>>, TransferError<Seq<char>>> {
    if is_file {
        Ok(
            Some(
                remote_entry(
                    EntryKind::File,
                    root,
                    match file_name_of(root) {
                        Some(name) => name,
                        None => root,
                    },
                    size,
                ),
            ),
        )
    } else if target_is_dir {
        Ok(None)
    } else {
        Err(no_directory_target())
    }
}

/// Decides what a look at a remote source shows.
pub fn remote_file(root: &str, is_file: bool, size: Option<u64>, target_is_dir: bool) -> (r: Result<
    Option<FileEntry>,
    TransferError,
>)
    ensures
        match r {
            Ok(Some(e)) => looked_at(root@, is_file, size, target_is_dir) == Ok::<
                Option<FileEntry<Seq<char>>>,
                TransferError<Seq<char>>,
            >(Some(e@)),
            Ok(None) => looked_at(root@, is_file, size, target_is_dir) == Ok::<
                Option<FileEntry<Seq<char>>>,
                TransferError<Seq<char>>,
            >(None),
            Err(e) => looked_at(root@, is_file, size, target_is_dir) == Err::<
                Option<FileEntry<Seq<char>>>,
                TransferError<Seq<char>>,
            >(e@),
        },
{
    if is_file {
        let name = match file_name(root) {
            Some(name) => name,
            None => root.to_owned(),
        };
        Ok(Some(make_remote_entry(EntryKind::File, root.to_owned(), name, size)))
    } else if target_is_dir {
        Ok(None)
    } else {
        Err(refuse_file_target())
    }
}

/// A target that is a file takes a file and nothing else: a pattern, a
/// directory with a slash at its end and a directory without one are refused
/// alike, and a directory takes them all.
pub proof fn file_targets_take_files_only(
    root: Seq<char>,
    is_file: bool,
    size: Option<u64>,
    concurrency: Option<usize>,
)
    ensures
        !(remote_source(root) is Look) ==> download_plan(root, false, concurrency) == Err::<
            Sizes,
            TransferError<Seq<char>>,
        >(no_directory_target()),
        remote_source(root) is Look ==> download_plan(root, false, concurrency) is Ok,
        looked_at(root, false, size, false) == Err::<
            Option<FileEntry<Seq<char>>>,
            TransferError<Seq<char>>,
        >(no_directory_target()),
        looked_at(root, true, size, false) is Ok,
        download_plan(root, true, concurrency) is Ok,
        looked_at(root, is_file, size, true) is Ok,
{
}

/// Whether a name stands for the directory itself or the one above.
pub open spec fn is_dots(name: Seq<char>) -> bool {
    name == "."@ || name == ".."@
}

/// The path of a name in a remote directory.
pub open spec fn in_dir(dir: Seq<char>, name: Seq<char>) -> Seq<char> {
    strip_end(dir, '/') + "/"@ + name
}

/// The entry of a name in a remote directory, where it fits a pattern. A
/// directory is not entered.
pub fn remote_match(dir: &str, pattern: &str, name: &str, is_file: bool, size: Option<u64>) -> (r:
    Option<FileEntry>)
    ensures
        match r {
            Some(e) => !is_dots(name@) && glob_matches(pattern@, name@) && e@ == if is_file {
                remote_entry(EntryKind::File, in_dir(dir@, name@), name@, size)
            } else {
                remote_entry(EntryKind::Dir, in_dir(dir@, name@), name@, None)
            },
            None => is_dots(name@) || !glob_matches(pattern@, name@),
        },
{
    if same(name, ".") || same(name, "..") || !wildcard_match(pattern, name) {
        return None;
    }
    let full = cat3(without_end(dir, '/').as_str(), "/", name);
    if is_file {
        Some(make_remote_entry(EntryKind::File, full, name.to_owned(), size))
    } else {
        Some(make_remote_entry(EntryKind::Dir, full, name.to_owned(), None))
    }
}

/// A directory that is still to be read, with its path below the root.
pub struct WalkDir<S = String> {
    pub full: S,
    pub rel: S,
}

impl View for WalkDir<String> {
    type V = WalkDir<Seq<char>>;

    open spec fn view(&self) -> WalkDir<Seq<char>> {
        WalkDir { full: self.full@, rel: self.rel@ }
    }
}

/// The walk through all directories below a remote one, nearest first.
pub struct RemoteWalk {
    pub root: String,
    pub waiting: VecDeque<WalkDir>,
}

/// Whether a path is that of an entry below a root.
pub open spec fn lies_below(root: Seq<char>, full: Seq<char>, rel: Seq<char>) -> bool {
    &&& rel.len() > 0
    &&& rel.last() != '/'
    &&& full == in_dir(root, rel)
}

/// Whether a directory is the root or lies below it.
pub open spec fn in_walk(root: Seq<char>, d: WalkDir<Seq<char>>) -> bool {
    d.full == root && d.rel.len() == 0 || lies_below(root, d.full, d.rel)
}

impl RemoteWalk {
    /// The directories that are still to be read, nearest first.
    pub open spec fn todo(self) -> Seq<WalkDir<Seq<char>>> {
        self.waiting@.map_values(|d: WalkDir| d@)
    }

    /// Every directory that waits is the root or lies below it.
    pub open spec fn wf(self) -> bool {
        forall|i: int|
            0 <= i < self.todo().len() ==> in_walk(self.root@, #[trigger] self.todo()[i])
    }

    /// Starts with the root.
    pub fn new(root: &str) -> (r: Self)
        ensures
            r.root@ == root@,
            r.todo() == seq![WalkDir { full: root@, rel: Seq::<char>::empty() }],
            r.wf(),
    {
        let mut waiting: VecDeque<WalkDir> = VecDeque::new();
        let rel = String::new();
        proof {
            assert(rel@ =~= Seq::<char>::empty());
        }
        waiting.push_back(WalkDir { full: root.to_owned(), rel });
        let r = RemoteWalk { root: root.to_owned(), waiting };
        proof {
            assert(r.todo() =~= seq![WalkDir { full: root@, rel: Seq::<char>::empty() }]);
        }
        r
    }

    /// The next directory to read.
    pub fn next(&mut self) -> (r: Option<WalkDir>)
        requires
            old(self).wf(),
        ensures
            final(self).root == old(self).root,
            final(self).wf(),
            match r {
                Some(d) => old(self).todo().len() > 0 && d@ == old(self).todo()[0]
                    && final(self).todo() == old(self).todo().drop_first() && in_walk(
                    old(self).root@,
                    d@,
                ),
                None => old(self).todo().len() == 0 && final(self).todo() == old(self).todo(),
            },
    {
        let ghost before = self.todo();
        let r = self.waiting.pop_front();
        proof {
            if r is Some {
                assert(self.todo() =~= before.drop_first());
                assert(r->Some_0@ == before[0]);
                assert forall|i: int| 0 <= i < self.todo().len() implies in_walk(
                    self.root@,
                    #[trigger] self.todo()[i],
                ) by {
                    assert(self.todo()[i] == before[i + 1]);
                }
            } else {
                assert(self.todo() =~= before);
            }
        }
        r
    }

    /// Takes in a name in a directory that was read. The entry that it stands
    /// for is returned, and a directory waits for its turn.
    pub fn visit(&mut self, dir: &WalkDir, name: &str, is_file: bool, size: Option<u64>) -> (r:
        Option<FileEntry>)
        requires
            old(self).wf(),
            in_walk(old(self).root@, dir@),
            name@.len() > 0,
            !name@.contains('/'),
        ensures
            final(self).root == old(self).root,
            final(self).wf(),
            match r {
                Some(e) => {
                    let full = in_dir(dir@.full, name@);
                    let rel = if dir@.rel.len() == 0 {
                        name@
                    } else {
                        dir@.rel + "/"@ + name@
                    };
                    &&& !is_dots(name@)
                    &&& lies_below(old(self).root@, full, rel)
                    &&& e@ == if is_file {
                        remote_entry(EntryKind::File, full, rel, size)
                    } else {
                        remote_entry(EntryKind::Dir, full, rel, None)
                    }
                    &&& final(self).todo() == if is_file {
                        old(self).todo()
                    } else {
                        old(self).todo().push(WalkDir { full, rel })
                    }
                },
                None => is_dots(name@) && final(self).todo() == old(self).todo(),
            },
    {
        if same(name, ".") || same(name, "..") {
            return None;
        }
        let full = cat3(without_end(dir.full.as_str(), '/').as_str(), "/", name);
        let rel = if dir.rel.as_str().is_empty() {
            name.to_owned()
        } else {
            cat3(dir.rel.as_str(), "/", name)
        };
        proof {
            reveal_strlit("/");
            assert(name@.last() != '/') by {
                if name@.last() == '/' {
                    assert(name@[name@.len() - 1] == '/');
                }
            }
            if dir@.rel.len() > 0 {
                let stem = strip_end(self.root@, '/') + "/"@ + dir@.rel;
                assert(stem.last() == dir@.rel.last());
                lemma_strip_end_is(stem, '/', stem.len() as int);
                assert(stem.take(stem.len() as int) =~= stem);
                assert(full@ =~= in_dir(self.root@, rel@));
                assert(rel@.last() == name@.last());
            }
        }
        if is_file {
            return Some(make_remote_entry(EntryKind::File, full, rel, size));
        }
        let ghost before = self.todo();
        self.waiting.push_back(WalkDir { full: full.clone(), rel: rel.clone() });
        proof {
            assert(self.todo() =~= before.push(WalkDir { full: full@, rel: rel@ }));
            assert forall|i: int| 0 <= i < self.todo().len() implies in_walk(
                self.root@,
                #[trigger] self.todo()[i],
            ) by {
                if i < before.len() {
                    assert(self.todo()[i] == before[i]);
                }
            }
        }
        Some(make_remote_entry(EntryKind::Dir, full, rel, None))
    }
}

/// `dir/pattern` on the server, with a wildcard in the pattern, asks for what is
/// in that directory and fits that pattern; so does a pattern in the root.
pub proof fn remote_patterns_are_looked_for_in_their_directory(dir: Seq<char>, pattern: Seq<char>)
    requires
        dir.len() > 0,
        dir.last() != '/',
        crate::paths::bare(dir) == dir,
        has_wildcard(pattern),
        crate::paths::is_step_down(pattern),
        !pattern.contains('/'),
    ensures
        remote_source(joined(dir, pattern)) == (RemoteSource::Pattern { dir, pattern }),
        joined(dir, pattern) == dir + seq!['/'] + pattern,
        remote_source(seq!['/'] + pattern) == (RemoteSource::Pattern { dir: seq!['/'], pattern }),
{
    crate::paths::join_then_split(dir, pattern);
    crate::paths::name_stands_alone(pattern);
    assert(pattern[0] != '/') by {
        if pattern[0] == '/' {
            assert(pattern.contains(pattern[0]));
        }
    }
    lemma_wildcard_behind(dir + seq!['/'], pattern);
    lemma_wildcard_behind(seq!['/'], pattern);
}

/// A path on the server without wildcards is walked from there where a slash
/// stands at its end, and looked at first otherwise.
pub proof fn remote_paths_are_their_own(root: Seq<char>)
    requires
        !has_wildcard(root),
    ensures
        root.len() > 0 && root.last() == '/' ==> remote_source(root) == RemoteSource::Walk(root),
        !(root.len() > 0 && root.last() == '/') ==> remote_source(root) == RemoteSource::Look(root),
{
}

/// A file on the server is fetched from the path that was looked at, under its
/// name.
pub proof fn remote_file_is_the_entry(
    dir: Seq<char>,
    name: Seq<char>,
    size: Option<u64>,
    target_is_dir: bool,
)
    requires
        dir.len() > 0,
        dir.last() != '/',
        crate::paths::bare(dir) == dir,
        crate::paths::is_step_down(name),
        !name.contains('/'),
    ensures
        looked_at(joined(dir, name), true, size, target_is_dir) == Ok::<
            Option<FileEntry<Seq<char>>>,
            TransferError<Seq<char>>,
        >(
            Some(
                FileEntry {
                    remote_full: joined(dir, name),
                    rel: name,
                    size,
                    kind: EntryKind::File,
                    local_full: None,
                },
            ),
        ),
{
    crate::paths::join_then_split(dir, name);
}

/// The path of a name in a remote directory is that of the directory, a slash
/// and the name, whether or not the directory is written with a slash at its
/// end.
pub proof fn names_lie_in_their_directory(dir: Seq<char>, name: Seq<char>)
    requires
        dir.len() > 0,
        dir.last() != '/',
    ensures
        in_dir(dir, name) == dir + seq!['/'] + name,
        in_dir(dir.push('/'), name) == dir + seq!['/'] + name,
        in_dir(seq!['/'], name) == seq!['/'] + name,
{
    reveal_strlit("/");
    assert("/"@ =~= seq!['/']);
    lemma_strip_end_is(dir, '/', dir.len() as int);
    assert(dir.take(dir.len() as int) =~= dir);
    lemma_strip_end_is(dir.push('/'), '/', dir.len() as int);
    assert(dir.push('/').take(dir.len() as int) =~= dir);
    lemma_strip_end_is(seq!['/'], '/', 0);
    assert(seq!['/'].take(0) =~= Seq::<char>::empty());
    assert(Seq::<char>::empty() + seq!['/'] + name =~= seq!['/'] + name);
}

/// The entries of either side hold the path on that side, the path below the
/// source, the size and the kind.
pub proof fn entries_hold_what_they_are_made_of(
    kind: EntryKind,
    full: Seq<char>,
    rel: Seq<char>,
    size: Option<u64>,
)
    ensures
        local_entry(kind, full, rel, size).local_full == Some(full),
        local_entry(kind, full, rel, size).rel == rel,
        local_entry(kind, full, rel, size).size == size,
        local_entry(kind, full, rel, size).kind == kind,
        remote_entry(kind, full, rel, size).remote_full == full,
        remote_entry(kind, full, rel, size).rel == rel,
        remote_entry(kind, full, rel, size).size == size,
        remote_entry(kind, full, rel, size).kind == kind,
        is_dots(seq!['.']),
        is_dots(seq!['.', '.']),
        rel.len() > 2 || rel.len() > 0 && rel[0] != '.' ==> !is_dots(rel),
{
    reveal_strlit(".");
    reveal_strlit("..");
    assert("."@ =~= seq!['.']);
    assert(".."@ =~= seq!['.', '.']);
}

/// What does not fit a pattern has no part in what comes of it, whether or not
/// it could be looked at.
pub proof fn names_that_do_not_fit_are_passed_over(
    src: Seq<char>,
    dir: Seq<char>,
    pattern: Seq<char>,
    children: Seq<Child<Seq<char>>>,
    other: Child<Seq<char>>,
)
    requires
        !glob_matches(pattern, other.name),
    ensures
        pattern_entries(src, dir, pattern, Some(children.push(other))) == pattern_entries(
            src,
            dir,
            pattern,
            Some(children),
        ),
{
    let more = children.push(other);
    assert(more.drop_last() =~= children);
    assert(more.last() == other);
    assert(more.filter(fits(pattern)) == children.filter(fits(pattern))) by {
        reveal(Seq::filter);
    }
}

} // verus!
