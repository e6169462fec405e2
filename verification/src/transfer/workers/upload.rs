//! The upload of entries by a worker: the directories on the server, the
//! worker's session and channel, and when they are given up.
use vstd::prelude::*;
use vstd::string::*;

use super::super::helpers::{
    display_path, names_are_in_normal_form, normal_form, normalize_path,
};
use super::super::session::Connection;
use super::super::sftp_like::SftpLike;
use super::super::{upload_plan, EntryKind, FileEntry};
use super::download::{opt_error, Drops};
use crate::error::{MkdirError, OpError, TransferError};
use crate::paths::{chain, directory_chain, parent, parent_of};

use crate::text::{
    cat3, cat4, contains_part, ends_with_char, has_part, lemma_part_behind, lemma_part_between, same,
    strip_end, texts, without_end,
};
use crate::util::{compute_backoff_ms, pause, Retry, RetryPhase, RetryStep};

verus! {

// ---------------------------------------------------------------------------
// Remote directories
// ---------------------------------------------------------------------------

/// The permissions of directories that are made.
pub const DIR_MODE: i32 = 0o755;

/// What follows where there is something at the path of a directory.
pub open spec fn found_there(path: Seq<char>, is_file: bool) -> Result<(), MkdirError<Seq<char>>> {
    if is_file {
        Err(MkdirError::ExistsAsFile(path))
    } else {
        Ok(())
    }
}

/// What follows from the channel's answers about a directory. Where nothing is
/// there it is made; where that fails it may have been made by another, so it
/// is looked at once more.
pub open spec fn dir_verdict(
    path: Seq<char>,
    seen: Result<bool, String>,
    made: Result<(), String>,
    seen_again: Result<bool, String>,
) -> Result<(), MkdirError<Seq<char>>> {
    match seen {
        Ok(is_file) => found_there(path, is_file),
        Err(_) => match made {
            Ok(_) => Ok(()),
            Err(e) => match seen_again {
                Ok(is_file) => found_there(path, is_file),
                Err(_) => Err(MkdirError::SftpError(path, e@)),
            },
        },
    }
}

/// What is asked about a directory.
#[derive(Debug, Clone, Copy, PartialEq, Eq, Structural)]
pub enum DirStage {
    /// What there is.
    Look,
    /// To make it.
    Create,
    /// What there is, after it could not be made.
    LookAgain,
    /// Nothing any more.
    Over,
}

/// What a channel answers about a directory.
pub enum DirAnswer<S = String> {
    /// Whether there is a file; an error where there is nothing.
    Seen(Result<bool, S>),
    /// What came of making it.
    Made(Result<(), S>),
}

impl View for DirAnswer<String> {
    type V = DirAnswer<Seq<char>>;

    open spec fn view(&self) -> DirAnswer<Seq<char>> {
        match self {
            DirAnswer::Seen(Ok(is_file)) => DirAnswer::Seen(Ok(*is_file)),
            DirAnswer::Seen(Err(e)) => DirAnswer::Seen(Err(e@)),
            DirAnswer::Made(Ok(_)) => DirAnswer::Made(Ok(())),
            DirAnswer::Made(Err(e)) => DirAnswer::Made(Err(e@)),
        }
    }
}

/// What to ask a channel next.
pub enum DirStep<S = String> {
    /// What there is at a path.
    Look(S),
    /// To make a directory.
    Create(S),
    /// All directories are there.
    Done,
    Fail(MkdirError<S>),
}

impl View for DirStep<String> {
    type V = DirStep<Seq<char>>;

    open spec fn view(&self) -> DirStep<Seq<char>> {
        match self {
            DirStep::Look(p) => DirStep::Look(p@),
            DirStep::Create(p) => DirStep::Create(p@),
            DirStep::Done => DirStep::Done,
            DirStep::Fail(e) => DirStep::Fail(e@),
        }
    }
}

/// The making of a directory on the server with all above it, from the top
/// down.
pub struct DirMaker<S = String, D = Vec<String>> {
    pub dirs: D,
    /// The directory that is asked about.
    pub at: usize,
    pub stage: DirStage,
    /// Why that directory could not be made.
    pub refusal: S,
}

impl View for DirMaker<String, Vec<String>> {
    type V = DirMaker<Seq<char>, Seq<Seq<char>>>;

    open spec fn view(&self) -> DirMaker<Seq<char>, Seq<Seq<char>>> {
        DirMaker {
            dirs: texts(self.dirs@),
            at: self.at,
            stage: self.stage,
            refusal: self.refusal@,
        }
    }
}

impl DirMaker<Seq<char>, Seq<Seq<char>>> {
    /// Before the end there is a directory that is asked about.
    pub open spec fn wf(self) -> bool {
        &&& self.at <= self.dirs.len() <= usize::MAX
        &&& self.stage != DirStage::Over ==> self.at < self.dirs.len()
    }

    pub open spec fn expects(self, answer: DirAnswer<Seq<char>>) -> bool {
        match answer {
            DirAnswer::Seen(_) => self.stage == DirStage::Look || self.stage
                == DirStage::LookAgain,
            DirAnswer::Made(_) => self.stage == DirStage::Create,
        }
    }

    pub open spec fn dir(self) -> Seq<char> {
        self.dirs[self.at as int]
    }

    /// The directory at a place in the list is looked at, where there is one.
    pub open spec fn reach(self, at: int) -> (Self, DirStep<Seq<char>>) {
        if at < self.dirs.len() {
            (
                DirMaker { at: at as usize, stage: DirStage::Look, ..self },
                DirStep::Look(self.dirs[at]),
            )
        } else {
            (DirMaker { at: at as usize, stage: DirStage::Over, ..self }, DirStep::Done)
        }
    }

    pub open spec fn lost(self, e: MkdirError<Seq<char>>) -> (Self, DirStep<Seq<char>>) {
        (DirMaker { stage: DirStage::Over, ..self }, DirStep::Fail(e))
    }

    /// The state after an answer, and what to ask then. A directory is made
    /// where nothing is there, and looked at once more where that fails.
    pub open spec fn next(self, answer: DirAnswer<Seq<char>>) -> (Self, DirStep<Seq<char>>) {
        match answer {
            DirAnswer::Seen(Ok(true)) => self.lost(MkdirError::ExistsAsFile(self.dir())),
            DirAnswer::Seen(Ok(false)) | DirAnswer::Made(Ok(_)) => self.reach(self.at + 1),
            DirAnswer::Seen(Err(_)) => if self.stage == DirStage::Look {
                (DirMaker { stage: DirStage::Create, ..self }, DirStep::Create(self.dir()))
            } else {
                self.lost(MkdirError::SftpError(self.dir(), self.refusal))
            },
            DirAnswer::Made(Err(e)) => (
                DirMaker { stage: DirStage::LookAgain, refusal: e, ..self },
                DirStep::Look(self.dir()),
            ),
        }
    }
}

/// A making before its start.
pub open spec fn unstarted(path: Seq<char>) -> DirMaker<Seq<char>, Seq<Seq<char>>> {
    DirMaker {
        dirs: directory_chain(path),
        at: 0,
        stage: DirStage::Over,
        refusal: Seq::empty(),
    }
}

impl DirMaker {
    /// Starts to make a directory with all above it, and says what to ask
    /// first.
    pub fn start(dir_path: &str) -> (r: (DirMaker, DirStep))
        ensures
            (r.0@, r.1@) == unstarted(dir_path@).reach(0),
            r.0@.wf(),
    {
        let dirs = chain(dir_path);
        let mut maker = DirMaker {
            dirs,
            at: 0,
            stage: DirStage::Over,
            refusal: String::new(),
        };
        proof {
            assert(maker@.dirs =~= directory_chain(dir_path@));
            assert(maker@.refusal =~= Seq::<char>::empty());
        }
        let step = maker.go_to(0);
        (maker, step)
    }

    fn go_to(&mut self, at: usize) -> (r: DirStep)
        requires
            at <= old(self)@.dirs.len(),
        ensures
            (final(self)@, r@) == old(self)@.reach(at as int),
            final(self)@.wf(),
    {
        self.at = at;
        if at < self.dirs.len() {
            self.stage = DirStage::Look;
            DirStep::Look(self.dirs[at].clone())
        } else {
            self.stage = DirStage::Over;
            DirStep::Done
        }
    }

    /// Takes in an answer, and says what to ask next.
    pub fn advance(&mut self, answer: DirAnswer) -> (r: DirStep)
        requires
            old(self)@.wf(),
            old(self)@.expects(answer@),
        ensures
            (final(self)@, r@) == old(self)@.next(answer@),
            final(self)@.wf(),
    {
        let dir = self.dirs[self.at].clone();
        proof {
            assert(dir@ == self@.dir());
        }
        match answer {
            DirAnswer::Seen(Ok(is_file)) => if is_file {
                self.stage = DirStage::Over;
                DirStep::Fail(MkdirError::ExistsAsFile(dir))
            } else {
                self.go_to(self.at + 1)
            },
            DirAnswer::Made(Ok(_)) => self.go_to(self.at + 1),
            DirAnswer::Seen(Err(_)) => match self.stage {
                DirStage::Look => {
                    self.stage = DirStage::Create;
                    DirStep::Create(dir)
                },
                _ => {
                    self.stage = DirStage::Over;
                    DirStep::Fail(MkdirError::SftpError(dir, self.refusal.clone()))
                },
            },
            DirAnswer::Made(Err(e)) => {
                self.refusal = e;
                self.stage = DirStage::LookAgain;
                DirStep::Look(dir)
            },
        }
    }
}

/// Directories are asked about one by one, from the top down, and every
/// question is about the directory whose turn it is. One is made only where a
/// look has just shown nothing, and left only when it is there.
pub proof fn directories_are_made_from_the_top(
    maker: DirMaker<Seq<char>, Seq<Seq<char>>>,
    answer: DirAnswer<Seq<char>>,
)
    requires
        maker.wf(),
        maker.expects(answer),
    ensures
        ({
            let after = maker.next(answer);
            &&& after.0.dirs == maker.dirs
            &&& after.0.at == maker.at || after.0.at == maker.at + 1
            &&& after.0.at == maker.at + 1 <==> answer == DirAnswer::<Seq<char>>::Seen(Ok(false))
                || (answer matches DirAnswer::Made(made) && made is Ok)
            &&& after.1 matches DirStep::Look(p) ==> p == after.0.dir()
            &&& after.1 matches DirStep::Create(p) ==> p == maker.dir() && maker.stage
                == DirStage::Look && (answer matches DirAnswer::Seen(seen) && seen is Err)
            &&& after.1 is Done ==> after.0.at == maker.dirs.len()
            &&& after.0.stage == DirStage::Over <==> after.1 is Done || after.1 is Fail
        }),
{
}

/// The questions about one directory come to the verdict that follows from the
/// answers.
pub proof fn questions_lead_to_the_verdict(
    maker: DirMaker<Seq<char>, Seq<Seq<char>>>,
    seen: Result<bool, String>,
    made: Result<(), String>,
    again: Result<bool, String>,
)
    requires
        maker.wf(),
        maker.stage == DirStage::Look,
    ensures
        ({
            let first = maker.next(DirAnswer::<String>::Seen(seen)@);
            let second = first.0.next(DirAnswer::<String>::Made(made)@);
            let third = second.0.next(DirAnswer::<String>::Seen(again)@);
            let last = if seen is Ok {
                first
            } else if made is Ok {
                second
            } else {
                third
            };
            match dir_verdict(maker.dir(), seen, made, again) {
                Ok(_) => last.0.at == maker.at + 1 && (last.1 is Done || last.1 is Look),
                Err(e) => last.1 == DirStep::Fail(e),
            }
        }),
{
}

/// A request to a channel about a path, and the answer.
pub struct DirTalk {
    pub path: Seq<char>,
    pub answer: DirAnswer,
}

/// Whether a request is the one that a step asks for.
pub open spec fn asked(step: DirStep<Seq<char>>, talk: DirTalk) -> bool {
    match talk.answer {
        DirAnswer::Seen(_) => step == DirStep::Look(talk.path),
        DirAnswer::Made(_) => step == DirStep::Create(talk.path),
    }
}

/// Whether a channel in the state before a call may give the answer of a
/// request in it.
pub open spec fn answers<S: SftpLike>(sftp: &mut S, talk: DirTalk) -> bool {
    match talk.answer {
        DirAnswer::Seen(a) => exists|p: &str|
            p@ == talk.path && #[trigger] call_ensures(S::stat_is_file, (sftp, p), a),
        DirAnswer::Made(a) => exists|p: &str|
            p@ == talk.path && #[trigger] call_ensures(S::mkdir, (sftp, p, DIR_MODE), a),
    }
}

/// Where the making of a directory stands after a series of requests; none
/// where one of them was not asked for.
pub open spec fn after_talks(path: Seq<char>, talks: Seq<DirTalk>) -> Option<
    (DirMaker<Seq<char>, Seq<Seq<char>>>, DirStep<Seq<char>>),
>
    decreases talks.len(),
{
    if talks.len() == 0 {
        Some(unstarted(path).reach(0))
    } else {
        match after_talks(path, talks.drop_last()) {
            Some((maker, step)) if asked(step, talks.last()) => Some(
                maker.next(talks.last().answer@),
            ),
            _ => None,
        }
    }
}

/// Whether there is a request at a place in a series.
pub open spec fn is_talk(talks: Seq<DirTalk>, i: int) -> bool {
    0 <= i < talks.len()
}

/// Whether a step is the question of the stage.
spec fn in_step(
    maker: DirMaker<Seq<char>, Seq<Seq<char>>>,
    step: DirStep<Seq<char>>,
) -> bool {
    match step {
        DirStep::Look(_) => maker.stage == DirStage::Look || maker.stage == DirStage::LookAgain,
        DirStep::Create(_) => maker.stage == DirStage::Create,
        _ => maker.stage == DirStage::Over,
    }
}

/// How many questions may follow at most.
spec fn questions_left(maker: DirMaker<Seq<char>, Seq<Seq<char>>>) -> int {
    3 * (maker.dirs.len() - maker.at) + match maker.stage {
        DirStage::Look => 0int,
        DirStage::Create => -1,
        DirStage::LookAgain => -2,
        DirStage::Over => -3,
    }
}

/// Makes sure of a directory on the server and of all above it, from the top
/// down. It stops at the first that cannot be had. The channel goes through
/// exactly the requests that the making asks for, one after the other, and
/// comes out as the last of them leaves it.
pub fn ensure_remote_dir_all_generic<S: SftpLike>(sftp: &mut S, dir_path: &str) -> (r: Result<
    (),
    MkdirError,
>)
    ensures
        exists|talks: Seq<DirTalk>, states: Seq<S>|
            #![trigger after_talks(dir_path@, talks), states.last()]
            {
                &&& states.len() == talks.len() + 1
                &&& states[0] == *old(sftp)
                &&& states.last() == *final(sftp)
                &&& forall|i: int|
                    #[trigger] is_talk(talks, i) ==> exists|m: &mut S|
                        *m == states[i] && *final(m) == states[i + 1] && #[trigger] answers(m, talks[i])
                &&& after_talks(dir_path@, talks) matches Some((_, step)) && match r {
                    Ok(_) => step is Done,
                    Err(e) => step == DirStep::Fail(e@),
                }
            },
{
    let (mut maker, mut step) = DirMaker::start(dir_path);
    let ghost mut talks: Seq<DirTalk> = Seq::empty();
    let ghost mut states: Seq<S> = seq![*sftp];
    loop
        invariant
            maker@.wf(),
            in_step(maker@, step@),
            states.len() == talks.len() + 1,
            states[0] == *old(sftp),
            states.last() == *sftp,
            forall|i: int|
                #[trigger] is_talk(talks, i) ==> exists|m: &mut S|
                    *m == states[i] && *final(m) == states[i + 1] && #[trigger] answers(m, talks[i]),
            after_talks(dir_path@, talks) == Some((maker@, step@)),
        decreases questions_left(maker@) + 3,
    {
        let ghost before = *sftp;
        let ghost talk: DirTalk;
        let answer = match step {
            DirStep::Look(path) => {
                let p = path.as_str();
                let a = sftp.stat_is_file(p);
                proof {
                    talk = DirTalk { path: p@, answer: DirAnswer::Seen(a) };
                    assert(exists|m: &mut S|
                        *m == before && *final(m) == *sftp && #[trigger] call_ensures(
                            S::stat_is_file,
                            (m, p),
                            a,
                        ));
                    assert forall|m: &mut S| #[trigger]
                        call_ensures(S::stat_is_file, (m, p), a) implies answers(m, talk) by {}
                }
                DirAnswer::Seen(a)
            },
            DirStep::Create(path) => {
                let p = path.as_str();
                let a = sftp.mkdir(p, DIR_MODE);
                proof {
                    talk = DirTalk { path: p@, answer: DirAnswer::Made(a) };
                    assert(exists|m: &mut S|
                        *m == before && *final(m) == *sftp && #[trigger] call_ensures(
                            S::mkdir,
                            (m, p, DIR_MODE),
                            a,
                        ));
                    assert forall|m: &mut S| #[trigger]
                        call_ensures(S::mkdir, (m, p, DIR_MODE), a) implies answers(m, talk) by {}
                }
                DirAnswer::Made(a)
            },
            DirStep::Done => {
                return Ok(());
            },
            DirStep::Fail(e) => {
                return Err(e);
            },
        };
        let ghost talks_then = talks;
        let ghost states_then = states;
        proof {
            assert(exists|m: &mut S|
                *m == before && *final(m) == *sftp && #[trigger] answers(m, talk));
            talks = talks.push(talk);
            states = states.push(*sftp);
            assert(talks.drop_last() =~= talks_then);
            assert forall|i: int| #[trigger] is_talk(talks, i) implies exists|m: &mut S|
                *m == states[i] && *final(m) == states[i + 1] && #[trigger] answers(m, talks[i]) by {
                if i < talks_then.len() {
                    assert(is_talk(talks_then, i));
                    assert(talks[i] == talks_then[i]);
                    assert(states[i] == states_then[i] && states[i + 1] == states_then[i + 1]);
                }
            }
        }
        step = maker.advance(answer);
    }
}

/// Whether one of a series of requests has shown a directory at a path, or has
/// made it.
pub open spec fn confirmed(talks: Seq<DirTalk>, path: Seq<char>) -> bool {
    exists|j: int|
        0 <= j < talks.len() && (#[trigger] talks[j]).path == path && match talks[j].answer {
            DirAnswer::Seen(a) => a == Ok::<bool, String>(false),
            DirAnswer::Made(a) => a is Ok,
        }
}

/// When the making of a directory is done, every directory on the way to it
/// was shown or made; and when it fails, those before the one that failed were.
pub proof fn done_means_all_are_there(path: Seq<char>, talks: Seq<DirTalk>)
    requires
        directory_chain(path).len() <= usize::MAX,
    ensures
        after_talks(path, talks) matches Some((maker, step)) ==> {
            &&& maker.wf()
            &&& maker.dirs == directory_chain(path)
            &&& forall|i: int|
                0 <= i < maker.at ==> confirmed(talks, #[trigger] directory_chain(path)[i])
            &&& step is Done ==> maker.at == directory_chain(path).len()
            &&& step matches DirStep::Fail(e) ==> maker.at < directory_chain(path).len() && (e
                == MkdirError::ExistsAsFile(directory_chain(path)[maker.at as int]) || e
                == MkdirError::SftpError(directory_chain(path)[maker.at as int], maker.refusal))
        },
    decreases talks.len(),
{
    lemma_in_step(path, talks);
    if talks.len() > 0 {
        let before = talks.drop_last();
        done_means_all_are_there(path, before);
        lemma_in_step(path, before);
        if let Some((maker, step)) = after_talks(path, talks) {
            let (maker_then, step_then) = after_talks(path, before)->Some_0;
            assert forall|i: int| 0 <= i < maker.at implies confirmed(
                talks,
                #[trigger] directory_chain(path)[i],
            ) by {
                if i < maker_then.at {
                    assert(confirmed(before, directory_chain(path)[i]));
                    let j = choose|j: int|
                        0 <= j < before.len() && (#[trigger] before[j]).path == directory_chain(
                            path,
                        )[i] && match before[j].answer {
                            DirAnswer::Seen(a) => a == Ok::<bool, String>(false),
                            DirAnswer::Made(a) => a is Ok,
                        };
                    assert(talks[j] == before[j]);
                } else {
                    assert(talks[talks.len() - 1] == talks.last());
                }
            }
        }
    }
}

proof fn lemma_in_step(path: Seq<char>, talks: Seq<DirTalk>)
    requires
        directory_chain(path).len() <= usize::MAX,
    ensures
        after_talks(path, talks) matches Some((maker, step)) ==> {
            &&& maker.wf()
            &&& in_step(maker, step)
            &&& step matches DirStep::Look(p) ==> p == maker.dir()
            &&& step matches DirStep::Create(p) ==> p == maker.dir()
        },
    decreases talks.len(),
{
    if talks.len() > 0 {
        lemma_in_step(path, talks.drop_last());
    }
}

/// A directory is judged by the answers about it: a file in its place fails and
/// is named, nothing there makes it, and where it cannot be made and is still
/// not there, that is told with the reason that was given.
pub proof fn directories_are_judged_by_the_answers(
    maker: DirMaker<Seq<char>, Seq<Seq<char>>>,
    why: Seq<char>,
    other: Seq<char>,
)
    requires
        maker.wf(),
        maker.stage == DirStage::Look,
    ensures
        ({
            let dir = maker.dirs[maker.at as int];
            let absent = maker.next(DirAnswer::Seen(Err(other)));
            let refused = absent.0.next(DirAnswer::Made(Err(why)));
            &&& maker.next(DirAnswer::Seen(Ok(true))).1 == DirStep::Fail(
                MkdirError::ExistsAsFile(dir),
            )
            &&& absent.1 == DirStep::Create(dir)
            &&& refused.1 == DirStep::Look(dir)
            &&& refused.0.next(DirAnswer::Seen(Err(other))).1 == DirStep::Fail(
                MkdirError::SftpError(dir, why),
            )
            &&& refused.0.next(DirAnswer::Seen(Ok(true))).1 == DirStep::Fail(
                MkdirError::ExistsAsFile(dir),
            )
            &&& refused.0.next(DirAnswer::Seen(Ok(false))) == (DirMaker {
                stage: DirStage::Look,
                refusal: why,
                ..maker
            }).next(DirAnswer::Seen(Ok(false)))
            &&& maker.at + 1 < maker.dirs.len() ==> maker.next(DirAnswer::Seen(Ok(false))).1
                == DirStep::Look(maker.dirs[maker.at + 1])
        }),
{
}

/// The making of a directory starts at the top of the way to it.
pub proof fn making_starts_at_the_top(path: Seq<char>)
    ensures
        directory_chain(path).len() > 0 ==> unstarted(path).reach(0).1 == DirStep::Look(
            directory_chain(path)[0],
        ),
        directory_chain(path).len() == 0 ==> unstarted(path).reach(0).1 is Done,
        unstarted(path).dirs == directory_chain(path),
{
}

/// How often the making of a directory is tried.
pub const MKDIR_ATTEMPTS: u32 = 3;

/// The least base of the pause between two tries to make a directory.
pub const MKDIR_BASE_MS: u64 = 50;

/// The pause after this many failed tries to make a directory; none where no
/// further try follows.
pub fn sftp_mkdir_p(failed: u32, base_ms: u64) -> (r: Option<u64>)
    ensures
        r == if failed >= MKDIR_ATTEMPTS {
            None::<u64>
        } else {
            Some(
                pause(
                    if base_ms > MKDIR_BASE_MS {
                        base_ms as nat
                    } else {
                        MKDIR_BASE_MS as nat
                    },
                    failed as nat,
                ) as u64,
            )
        },
{
    if failed >= MKDIR_ATTEMPTS {
        return None;
    }
    let base: u64 = if base_ms > MKDIR_BASE_MS {
        base_ms
    } else {
        MKDIR_BASE_MS
    };
    Some(compute_backoff_ms(base, failed as u64))
}

// ---------------------------------------------------------------------------
// Giving up a session
// ---------------------------------------------------------------------------

/// Drops a session and the channel on it.
pub fn reset_session_and_sftp<S, F>(maybe_sess: &mut Option<S>, maybe_sftp: &mut Option<F>)
    ensures
        *final(maybe_sess) is None,
        *final(maybe_sftp) is None,
{
    *maybe_sftp = None;
    *maybe_sess = None;
}

/// The text in lower case, as `str::to_lowercase` gives it.
pub uninterp spec fn lowercase(s: Seq<char>) -> Seq<char>;

/// Calls `str::to_lowercase` of std. Claimed: the same text gives the same
/// result.
#[verifier::external_body]
fn to_lower(s: &str) -> (r: String)
    ensures
        r@ == lowercase(s@),
{
    s.to_lowercase()
}

/// Whether a text in lower case speaks of a broken connection.
pub open spec fn tells_of_connection(s: Seq<char>) -> bool {
    ||| has_part(s, "connection reset"@)
    ||| has_part(s, "broken pipe"@)
    ||| has_part(s, "connection aborted"@)
    ||| has_part(s, "connection refused"@)
    ||| has_part(s, "not connected"@)
    ||| has_part(s, "eof"@)
}

/// Decides whether a text in lower case speaks of a broken connection.
pub fn names_connection(lower: &str) -> (r: bool)
    ensures
        r == tells_of_connection(lower@),
{
    contains_part(lower, "connection reset") || contains_part(lower, "broken pipe")
        || contains_part(lower, "connection aborted") || contains_part(lower, "connection refused")
        || contains_part(lower, "not connected") || contains_part(lower, "eof")
}

/// Whether an error means that the session is of no more use. Errors of the
/// session itself do; refused keys do not; and of a message it depends on
/// whether it speaks of a broken connection.
pub open spec fn breaks_session(e: OpError<Seq<char>>) -> bool {
    match e {
        OpError::Transfer(t) => match t {
            TransferError::SshSessionCreateFailed(_)
            | TransferError::SshHandshakeFailed(_)
            | TransferError::WorkerBuildSessionFailed(_)
            | TransferError::SftpCreateFailed(_)
            | TransferError::WorkerNoSftp(_)
            | TransferError::WorkerNoSession(_) => true,
            TransferError::WorkerIo(m) => tells_of_connection(lowercase(m)),
            _ => false,
        },
        OpError::Other(m) => tells_of_connection(lowercase(m)),
    }
}

/// Whether an error says that there was no session to work with.
pub open spec fn lacks_session(e: OpError<Seq<char>>) -> bool {
    e matches OpError::Transfer(t) && (t is WorkerNoSession || t is SshAuthFailed)
}

/// Decides whether an error means that the session is of no more use.
pub fn should_reset_session(err: &OpError) -> (r: bool)
    ensures
        r == breaks_session(err@),
{
    match err {
        OpError::Transfer(t) => match t {
            TransferError::SshSessionCreateFailed(_)
            | TransferError::SshHandshakeFailed(_)
            | TransferError::WorkerBuildSessionFailed(_)
            | TransferError::SftpCreateFailed(_)
            | TransferError::WorkerNoSftp(_)
            | TransferError::WorkerNoSession(_) => true,
            TransferError::WorkerIo(m) => names_connection(to_lower(m.as_str()).as_str()),
            _ => false,
        },
        OpError::Other(m) => names_connection(to_lower(m.as_str()).as_str()),
    }
}

// ---------------------------------------------------------------------------
// The worker
// ---------------------------------------------------------------------------

/// Where an entry goes on the server: below the target where that is a
/// directory, and onto it otherwise.
pub open spec fn remote_place(base: Seq<char>, is_dir: bool, rel: Seq<char>) -> Seq<char> {
    if is_dir || base.len() > 0 && base.last() == '/' {
        strip_end(base, '/') + "/"@ + normal_form(rel, true)
    } else {
        base
    }
}

/// Finds where an entry goes on the server.
pub fn place_on_server(base: &str, target_is_dir: bool, rel: &str) -> (r: String)
    ensures
        r@ == remote_place(base@, target_is_dir, rel@),
{
    if target_is_dir || ends_with_char(base, '/') {
        cat3(without_end(base, '/').as_str(), "/", normalize_path(rel, true).as_str())
    } else {
        base.to_owned()
    }
}

/// A file goes below a target that is a directory, under its own name, and onto
/// the very path of a target that is a file; and such a target takes a single
/// file only.
pub proof fn files_keep_their_names(
    base: Seq<char>,
    name: Seq<char>,
    entries: nat,
    lone_file: bool,
    total_size: nat,
    concurrency: Option<usize>,
)
    requires
        !name.contains('/'),
        !name.contains('\\'),
    ensures
        remote_place(base, true, name) == strip_end(base, '/') + "/"@ + name,
        base.len() > 0 && base.last() != '/' ==> remote_place(base, false, name) == base,
        upload_plan(base, false, entries, lone_file, total_size, concurrency) is Ok <==> entries
            == 0 || entries == 1 && lone_file,
{
    names_are_in_normal_form(name, true);
}

/// What an upload worker waits for.
#[derive(Debug, Clone, Copy, PartialEq, Eq, Structural)]
pub enum UploadStage {
    /// An entry.
    Idle,
    /// The permission to connect.
    Token,
    /// What came of connecting.
    Connect,
    /// What came of opening a channel.
    Channel,
    /// What came of making a directory that is an entry.
    MakeDir,
    /// What came of making the directories above a file.
    MakeParent,
    /// What came of opening the local file.
    OpenLocal,
    /// What came of creating the remote file.
    CreateRemote,
    /// What the local file holds next.
    Read,
    /// What came of writing that.
    Write,
    /// The end of a pause before another attempt.
    Wait,
}

/// What happened to an upload worker.
pub enum UploadEvent<S = String> {
    TokenTaken,
    Worked,
    Failed(S),
    ConnectFailed(OpError<S>),
    /// Something was read.
    Got,
    /// The file is at its end.
    Ended,
    Waited,
}

impl View for UploadEvent<String> {
    type V = UploadEvent<Seq<char>>;

    open spec fn view(&self) -> UploadEvent<Seq<char>> {
        match self {
            UploadEvent::TokenTaken => UploadEvent::TokenTaken,
            UploadEvent::Worked => UploadEvent::Worked,
            UploadEvent::Failed(e) => UploadEvent::Failed(e@),
            UploadEvent::ConnectFailed(e) => UploadEvent::ConnectFailed(e@),
            UploadEvent::Got => UploadEvent::Got,
            UploadEvent::Ended => UploadEvent::Ended,
            UploadEvent::Waited => UploadEvent::Waited,
        }
    }
}

/// What an upload worker does next.
pub enum UploadStep<S = String> {
    /// Wait for the permission to connect.
    TakeToken,
    Connect,
    OpenChannel,
    /// Make a directory on the server, with all above it.
    MakeDirs(S),
    OpenLocal(S),
    CreateRemote(S),
    Read,
    /// Write what was read.
    Write,
    /// Pause this many milliseconds.
    Wait(u64),
    /// The entry is finished.
    Over,
}

impl View for UploadStep<String> {
    type V = UploadStep<Seq<char>>;

    open spec fn view(&self) -> UploadStep<Seq<char>> {
        match self {
            UploadStep::TakeToken => UploadStep::TakeToken,
            UploadStep::Connect => UploadStep::Connect,
            UploadStep::OpenChannel => UploadStep::OpenChannel,
            UploadStep::MakeDirs(p) => UploadStep::MakeDirs(p@),
            UploadStep::OpenLocal(p) => UploadStep::OpenLocal(p@),
            UploadStep::CreateRemote(p) => UploadStep::CreateRemote(p@),
            UploadStep::Read => UploadStep::Read,
            UploadStep::Write => UploadStep::Write,
            UploadStep::Wait(ms) => UploadStep::Wait(*ms),
            UploadStep::Over => UploadStep::Over,
        }
    }
}

/// What follows from an event.
pub struct UploadOutcome<S = String> {
    /// Whether the permission to connect is given back.
    pub release: bool,
    /// A failure to report.
    pub report: Option<TransferError<S>>,
    pub drops: Drops,
    pub step: UploadStep<S>,
}

impl View for UploadOutcome<String> {
    type V = UploadOutcome<Seq<char>>;

    open spec fn view(&self) -> UploadOutcome<Seq<char>> {
        UploadOutcome {
            release: self.release,
            report: opt_error(self.report),
            drops: self.drops,
            step: self.step@,
        }
    }
}

/// Only a next step.
pub open spec fn plainly(step: UploadStep<Seq<char>>) -> UploadOutcome<Seq<char>> {
    UploadOutcome { release: false, report: None, drops: Drops::Nothing, step }
}

fn simply(step: UploadStep) -> (r: UploadOutcome)
    ensures
        r@ == plainly(step@),
{
    UploadOutcome { release: false, report: None, drops: Drops::Nothing, step }
}

/// How many errors in a row that break a session make a worker give it up.
pub const STREAK_LIMIT: u8 = 2;

/// An upload worker. `D` is a list of texts.
pub struct UploadWorker<S = String, D = Vec<String>> {
    /// The alias of the server.
    pub alias: S,
    /// The target on the server.
    pub base: S,
    pub target_is_dir: bool,
    pub max_retries: usize,
    pub base_ms: u64,
    pub connection: Connection,
    /// Whether the permission to connect is held.
    pub token: bool,
    /// The directories that were made.
    pub created: D,
    /// How many errors in a row have broken the session.
    pub streak: u8,
    pub stage: UploadStage,
    pub kind: EntryKind,
    /// Where the entry is on this machine.
    pub local: S,
    /// Where the entry goes.
    pub place: S,
    pub retry: Retry<S>,
}

impl View for UploadWorker<String, Vec<String>> {
    type V = UploadWorker<Seq<char>, Seq<Seq<char>>>;

    open spec fn view(&self) -> UploadWorker<Seq<char>, Seq<Seq<char>>> {
        UploadWorker {
            alias: self.alias@,
            base: self.base@,
            target_is_dir: self.target_is_dir,
            max_retries: self.max_retries,
            base_ms: self.base_ms,
            connection: self.connection,
            token: self.token,
            created: texts(self.created@),
            streak: self.streak,
            stage: self.stage,
            kind: self.kind,
            local: self.local@,
            place: self.place@,
            retry: self.retry@,
        }
    }
}

impl UploadWorker<Seq<char>, Seq<Seq<char>>> {
    /// The permission to connect is held only while the worker connects; while
    /// it works on an entry an attempt may be made; the count of errors in a
    /// row stays below the limit; and what it does fits its connection.
    pub open spec fn wf(self) -> bool {
        &&& self.token ==> self.stage == UploadStage::Connect
        &&& self.stage != UploadStage::Idle ==> self.retry.open()
        &&& self.streak < STREAK_LIMIT
        &&& self.stage == UploadStage::Token || self.stage == UploadStage::Connect
            ==> !self.connection.session
        &&& self.stage == UploadStage::Channel ==> !self.connection.channel
        &&& self.stage == UploadStage::MakeParent ==> parent_of(self.place) is Some
    }

    /// Whether an event is what is waited for.
    pub open spec fn expects(self, event: UploadEvent<Seq<char>>) -> bool {
        match event {
            UploadEvent::TokenTaken => self.stage == UploadStage::Token,
            UploadEvent::Worked => match self.stage {
                UploadStage::Connect => self.connection.session_rebuilds < u32::MAX,
                UploadStage::Channel => self.connection.sftp_rebuilds < u32::MAX,
                UploadStage::MakeDir
                | UploadStage::MakeParent
                | UploadStage::OpenLocal
                | UploadStage::CreateRemote
                | UploadStage::Write => true,
                _ => false,
            },
            UploadEvent::ConnectFailed(_) => self.stage == UploadStage::Connect,
            UploadEvent::Failed(_) => match self.stage {
                UploadStage::Channel
                | UploadStage::MakeDir
                | UploadStage::MakeParent
                | UploadStage::OpenLocal
                | UploadStage::CreateRemote
                | UploadStage::Read
                | UploadStage::Write => true,
                _ => false,
            },
            UploadEvent::Got | UploadEvent::Ended => self.stage == UploadStage::Read,
            UploadEvent::Waited => self.stage == UploadStage::Wait,
        }
    }

    pub open spec fn at(self, stage: UploadStage) -> Self {
        UploadWorker { stage, ..self }
    }

    /// The entry is finished.
    pub open spec fn done(self) -> (Self, UploadOutcome<Seq<char>>) {
        (self.at(UploadStage::Idle), plainly(UploadStep::Over))
    }

    /// The next entry.
    pub open spec fn begin(self, entry: FileEntry<Seq<char>>) -> (Self, UploadOutcome<Seq<char>>) {
        let worker = UploadWorker {
            kind: entry.kind,
            local: match entry.local_full {
                Some(p) => p,
                None => entry.rel,
            },
            place: remote_place(self.base, self.target_is_dir, entry.rel),
            retry: Retry::<Seq<char>>::fresh(self.max_retries),
            ..self
        };
        if worker.retry.open() {
            worker.attempt()
        } else {
            worker.entry_failed(worker.retry.error())
        }
    }

    /// An attempt: a session first, for which permission is needed.
    pub open spec fn attempt(self) -> (Self, UploadOutcome<Seq<char>>) {
        if !self.connection.session {
            (self.at(UploadStage::Token), plainly(UploadStep::TakeToken))
        } else {
            self.with_session()
        }
    }

    /// With a session: a channel next.
    pub open spec fn with_session(self) -> (Self, UploadOutcome<Seq<char>>) {
        if !self.connection.channel {
            (self.at(UploadStage::Channel), plainly(UploadStep::OpenChannel))
        } else {
            self.with_channel()
        }
    }

    /// With a channel: the directory that the entry is, or those above a file,
    /// unless they were made before.
    pub open spec fn with_channel(self) -> (Self, UploadOutcome<Seq<char>>) {
        if self.kind == EntryKind::Dir {
            if self.created.contains(self.place) {
                self.done()
            } else {
                (self.at(UploadStage::MakeDir), plainly(UploadStep::MakeDirs(self.place)))
            }
        } else {
            match parent_of(self.place) {
                Some(p) => if self.created.contains(p) {
                    self.with_parent()
                } else {
                    (self.at(UploadStage::MakeParent), plainly(UploadStep::MakeDirs(p)))
                },
                None => self.with_parent(),
            }
        }
    }

    /// With the directories above a file: the file itself.
    pub open spec fn with_parent(self) -> (Self, UploadOutcome<Seq<char>>) {
        (self.at(UploadStage::OpenLocal), plainly(UploadStep::OpenLocal(self.local)))
    }

    /// No attempt is left. Where there was no session, that is what is
    /// reported. Otherwise the report names the file, and after two errors in
    /// a row that break the session the worker gives it up.
    pub open spec fn entry_failed(self, e: OpError<Seq<char>>) -> (
        Self,
        UploadOutcome<Seq<char>>,
    ) {
        if lacks_session(e) {
            (
                self.at(UploadStage::Idle),
                UploadOutcome { report: Some(e->Transfer_0), ..plainly(UploadStep::Over) },
            )
        } else {
            self.file_failed(e)
        }
    }

    /// The file of an entry could not be sent.
    pub open spec fn file_failed(self, e: OpError<Seq<char>>) -> (
        Self,
        UploadOutcome<Seq<char>>,
    ) {
        let report = Some(
            TransferError::WorkerIo(
                "上传失败: "@ + normal_form(self.place, true) + " — "@ + e.text(),
            ),
        );
        if breaks_session(e) && self.streak + 1 >= STREAK_LIMIT {
            (
                UploadWorker {
                    streak: 0,
                    connection: Connection { session: false, channel: false, ..self.connection },
                    stage: UploadStage::Idle,
                    ..self
                },
                UploadOutcome {
                    release: false,
                    report,
                    drops: Drops::Both,
                    step: UploadStep::Over,
                },
            )
        } else {
            (
                UploadWorker {
                    streak: if breaks_session(e) {
                        (self.streak + 1) as u8
                    } else {
                        0
                    },
                    stage: UploadStage::Idle,
                    ..self
                },
                UploadOutcome { report, ..plainly(UploadStep::Over) },
            )
        }
    }

    /// An attempt has failed.
    pub open spec fn attempt_failed(self, e: TransferError<Seq<char>>) -> (
        Self,
        UploadOutcome<Seq<char>>,
    ) {
        let error = OpError::Transfer(e);
        let worker = UploadWorker {
            retry: self.retry.after(error, RetryPhase::DuringTransfer),
            ..self
        };
        match self.retry.step(error, RetryPhase::DuringTransfer, self.base_ms) {
            RetryStep::Wait(ms) => (
                worker.at(UploadStage::Wait),
                plainly(UploadStep::Wait(ms)),
            ),
            RetryStep::GiveUp => worker.entry_failed(error),
        }
    }

    /// Connecting has failed. The permission is given back, and the attempt has
    /// failed: because the server refused the keys, or else for want of a
    /// session.
    pub open spec fn unconnected(self, e: OpError<Seq<char>>) -> (
        Self,
        UploadOutcome<Seq<char>>,
    ) {
        let worker = UploadWorker { token: false, ..self };
        let lost = worker.attempt_failed(
            match e {
                OpError::Transfer(TransferError::SshAuthFailed(addr)) => {
                    TransferError::SshAuthFailed(addr)
                },
                _ => TransferError::WorkerNoSession(self.alias),
            },
        );
        (lost.0, UploadOutcome { release: self.token, ..lost.1 })
    }

    pub open spec fn broke(self, what: Seq<char>, path: Seq<char>, e: Seq<char>) -> (
        Self,
        UploadOutcome<Seq<char>>,
    ) {
        self.attempt_failed(TransferError::WorkerIo(what + path + " — "@ + e))
    }

    /// The state after an event, and what follows from it.
    pub open spec fn next(self, event: UploadEvent<Seq<char>>) -> (
        Self,
        UploadOutcome<Seq<char>>,
    ) {
        match event {
            UploadEvent::TokenTaken => (
                (UploadWorker { token: true, ..self }).at(UploadStage::Connect),
                plainly(UploadStep::Connect),
            ),
            UploadEvent::Worked => match self.stage {
                UploadStage::Connect => {
                    let worker = UploadWorker {
                        token: false,
                        connection: Connection {
                            session: true,
                            session_rebuilds: (self.connection.session_rebuilds + 1) as u32,
                            ..self.connection
                        },
                        ..self
                    };
                    (
                        worker.with_session().0,
                        UploadOutcome { release: self.token, ..worker.with_session().1 },
                    )
                },
                UploadStage::Channel => (UploadWorker {
                    connection: Connection {
                        channel: true,
                        sftp_rebuilds: (self.connection.sftp_rebuilds + 1) as u32,
                        ..self.connection
                    },
                    ..self
                }).with_channel(),
                UploadStage::MakeDir => (UploadWorker {
                    created: self.created.push(self.place),
                    ..self
                }).done(),
                UploadStage::MakeParent => (UploadWorker {
                    created: self.created.push(parent_of(self.place)->Some_0),
                    ..self
                }).with_parent(),
                UploadStage::OpenLocal => (
                    self.at(UploadStage::CreateRemote),
                    plainly(UploadStep::CreateRemote(self.place)),
                ),
                _ => (self.at(UploadStage::Read), plainly(UploadStep::Read)),
            },
            UploadEvent::ConnectFailed(e) => self.unconnected(e),
            UploadEvent::Failed(e) => match self.stage {
                UploadStage::Channel => self.attempt_failed(TransferError::SftpCreateFailed(e)),
                UploadStage::MakeDir => (
                    self.at(UploadStage::Idle),
                    UploadOutcome {
                        report: Some(TransferError::CreateRemoteDirFailed(self.place, e)),
                        ..plainly(UploadStep::Over)
                    },
                ),
                UploadStage::MakeParent => self.attempt_failed(
                    TransferError::CreateRemoteDirFailed(parent_of(self.place)->Some_0, e),
                ),
                UploadStage::OpenLocal => self.broke("本地打开失败: "@, self.local, e),
                UploadStage::CreateRemote => self.broke(
                    "远端创建文件失败: "@,
                    normal_form(self.place, true),
                    e,
                ),
                UploadStage::Write => self.broke(
                    "远端写入失败: "@,
                    normal_form(self.place, true),
                    e,
                ),
                _ => self.broke("本地读取失败: "@, self.local, e),
            },
            UploadEvent::Got => (self.at(UploadStage::Write), plainly(UploadStep::Write)),
            UploadEvent::Ended => self.done(),
            UploadEvent::Waited => self.attempt(),
        }
    }
}

impl UploadWorker {
    /// A worker that has not begun.
    pub fn new(
        alias: String,
        base: String,
        target_is_dir: bool,
        max_retries: usize,
        base_ms: u64,
    ) -> (r: Self)
        ensures
            r@ == (UploadWorker {
                alias: alias@,
                base: base@,
                target_is_dir,
                max_retries,
                base_ms,
                connection: Connection {
                    session: false,
                    channel: false,
                    session_rebuilds: 0,
                    sftp_rebuilds: 0,
                },
                token: false,
                created: Seq::<Seq<char>>::empty(),
                streak: 0,
                stage: UploadStage::Idle,
                kind: EntryKind::File,
                local: Seq::<char>::empty(),
                place: Seq::<char>::empty(),
                retry: Retry::<Seq<char>>::fresh(max_retries),
            }),
            r@.wf(),
    {
        let r = UploadWorker {
            alias,
            base,
            target_is_dir,
            max_retries,
            base_ms,
            connection: Connection::new(),
            token: false,
            created: Vec::new(),
            streak: 0,
            stage: UploadStage::Idle,
            kind: EntryKind::File,
            local: String::new(),
            place: String::new(),
            retry: Retry::new(max_retries),
        };
        proof {
            assert(r@.created =~= Seq::<Seq<char>>::empty());
            assert(r@.local =~= Seq::<char>::empty());
            assert(r@.place =~= Seq::<char>::empty());
        }
        r
    }

    /// Whether a directory was made.
    fn has_made(&self, dir: &str) -> (r: bool)
        ensures
            r == self@.created.contains(dir@),
    {
        let mut i: usize = 0;
        while i < self.created.len()
            invariant
                i <= self.created.len(),
                forall|j: int| 0 <= j < i ==> (#[trigger] self@.created[j]) != dir@,
            decreases self.created.len() - i,
        {
            proof {
                assert(self@.created[i as int] == self.created@[i as int]@);
            }
            if same(self.created[i].as_str(), dir) {
                return true;
            }
            i = i + 1;
        }
        false
    }

    fn note_made(&mut self, dir: String)
        ensures
            final(self)@ == (UploadWorker {
                created: old(self)@.created.push(dir@),
                ..old(self)@
            }),
    {
        let ghost before = self@.created;
        self.created.push(dir);
        proof {
            assert(self@.created =~= before.push(dir@));
        }
    }

    fn above(&self) -> (r: String)
        requires
            parent_of(self@.place) is Some,
        ensures
            r@ == parent_of(self@.place)->Some_0,
    {
        match parent(self.place.as_str()) {
            Some(p) => p,
            None => String::new(),
        }
    }

    fn finish(&mut self) -> (r: UploadOutcome)
        requires
            !old(self)@.token,
            old(self)@.streak < STREAK_LIMIT,
        ensures
            (final(self)@, r@) == old(self)@.done(),
            final(self)@.wf(),
    {
        self.stage = UploadStage::Idle;
        simply(UploadStep::Over)
    }

    /// Takes up the next entry.
    pub fn start(&mut self, entry: FileEntry) -> (r: UploadOutcome)
        requires
            old(self)@.wf(),
            old(self)@.stage == UploadStage::Idle,
        ensures
            (final(self)@, r@) == old(self)@.begin(entry@),
            final(self)@.wf(),
    {
        self.kind = entry.kind;
        self.place = place_on_server(self.base.as_str(), self.target_is_dir, entry.rel.as_str());
        self.local = match entry.local_full {
            Some(p) => p,
            None => entry.rel,
        };
        self.retry = Retry::new(self.max_retries);
        if self.retry.wants_attempt() {
            self.try_once()
        } else {
            let e = OpError::Transfer(
                TransferError::OperationFailed("operation failed".to_owned()),
            );
            self.fail_entry(&e)
        }
    }

    fn try_once(&mut self) -> (r: UploadOutcome)
        requires
            !old(self)@.token,
            old(self)@.streak < STREAK_LIMIT,
            old(self)@.retry.open(),
        ensures
            (final(self)@, r@) == old(self)@.attempt(),
            final(self)@.wf(),
    {
        if !self.connection.session {
            self.stage = UploadStage::Token;
            simply(UploadStep::TakeToken)
        } else {
            self.go_on_with_session()
        }
    }

    fn go_on_with_session(&mut self) -> (r: UploadOutcome)
        requires
            !old(self)@.token,
            old(self)@.streak < STREAK_LIMIT,
            old(self)@.retry.open(),
        ensures
            (final(self)@, r@) == old(self)@.with_session(),
            final(self)@.wf(),
    {
        if !self.connection.channel {
            self.stage = UploadStage::Channel;
            simply(UploadStep::OpenChannel)
        } else {
            self.go_on_with_channel()
        }
    }

    fn go_on_with_channel(&mut self) -> (r: UploadOutcome)
        requires
            !old(self)@.token,
            old(self)@.streak < STREAK_LIMIT,
            old(self)@.retry.open(),
        ensures
            (final(self)@, r@) == old(self)@.with_channel(),
            final(self)@.wf(),
    {
        match self.kind {
            EntryKind::Dir => {
                if self.has_made(self.place.as_str()) {
                    self.finish()
                } else {
                    self.stage = UploadStage::MakeDir;
                    simply(UploadStep::MakeDirs(self.place.clone()))
                }
            },
            EntryKind::File => match parent(self.place.as_str()) {
                Some(p) => {
                    if self.has_made(p.as_str()) {
                        self.go_on_with_parent()
                    } else {
                        self.stage = UploadStage::MakeParent;
                        simply(UploadStep::MakeDirs(p))
                    }
                },
                None => self.go_on_with_parent(),
            },
        }
    }

    fn go_on_with_parent(&mut self) -> (r: UploadOutcome)
        requires
            !old(self)@.token,
            old(self)@.streak < STREAK_LIMIT,
            old(self)@.retry.open(),
        ensures
            (final(self)@, r@) == old(self)@.with_parent(),
            final(self)@.wf(),
    {
        self.stage = UploadStage::OpenLocal;
        simply(UploadStep::OpenLocal(self.local.clone()))
    }

    fn fail_entry(&mut self, e: &OpError) -> (r: UploadOutcome)
        requires
            !old(self)@.token,
            old(self)@.streak < STREAK_LIMIT,
        ensures
            (final(self)@, r@) == old(self)@.entry_failed(e@),
            final(self)@.wf(),
    {
        self.stage = UploadStage::Idle;
        match e {
            OpError::Transfer(TransferError::WorkerNoSession(alias)) => {
                return UploadOutcome {
                    release: false,
                    report: Some(TransferError::WorkerNoSession(alias.clone())),
                    drops: Drops::Nothing,
                    step: UploadStep::Over,
                };
            },
            OpError::Transfer(TransferError::SshAuthFailed(addr)) => {
                return UploadOutcome {
                    release: false,
                    report: Some(TransferError::SshAuthFailed(addr.clone())),
                    drops: Drops::Nothing,
                    step: UploadStep::Over,
                };
            },
            _ => {},
        }
        let report = Some(
            TransferError::WorkerIo(
                cat4(
                    "上传失败: ",
                    display_path(self.place.as_str()).as_str(),
                    " — ",
                    e.message().as_str(),
                ),
            ),
        );
        let mut drops = Drops::Nothing;
        if should_reset_session(e) {
            self.streak = self.streak + 1;
            if self.streak >= STREAK_LIMIT {
                self.connection.drop_both();
                self.streak = 0;
                drops = Drops::Both;
            }
        } else {
            self.streak = 0;
        }
        UploadOutcome { release: false, report, drops, step: UploadStep::Over }
    }

    fn fail_attempt(&mut self, e: TransferError) -> (r: UploadOutcome)
        requires
            !old(self)@.token,
            old(self)@.streak < STREAK_LIMIT,
            old(self)@.retry.open(),
        ensures
            (final(self)@, r@) == old(self)@.attempt_failed(e@),
            final(self)@.wf(),
    {
        match self.retry.fail(OpError::Transfer(e), RetryPhase::DuringTransfer, self.base_ms) {
            RetryStep::Wait(ms) => {
                self.stage = UploadStage::Wait;
                simply(UploadStep::Wait(ms))
            },
            RetryStep::GiveUp => {
                let last = self.retry.last.take();
                match last {
                    Some(error) => {
                        let r = self.fail_entry(&error);
                        self.retry.last = Some(error);
                        r
                    },
                    None => self.finish(),
                }
            },
        }
    }

    fn break_off(&mut self, what: &str, path: String, e: String) -> (r: UploadOutcome)
        requires
            !old(self)@.token,
            old(self)@.streak < STREAK_LIMIT,
            old(self)@.retry.open(),
        ensures
            (final(self)@, r@) == old(self)@.broke(what@, path@, e@),
            final(self)@.wf(),
    {
        self.fail_attempt(TransferError::WorkerIo(cat4(what, path.as_str(), " — ", e.as_str())))
    }

    /// Takes in what happened, and says what follows from it.
    pub fn advance(&mut self, event: UploadEvent) -> (r: UploadOutcome)
        requires
            old(self)@.wf(),
            old(self)@.expects(event@),
        ensures
            (final(self)@, r@) == old(self)@.next(event@),
            final(self)@.wf(),
    {
        match event {
            UploadEvent::TokenTaken => {
                self.token = true;
                self.stage = UploadStage::Connect;
                simply(UploadStep::Connect)
            },
            UploadEvent::Worked => match self.stage {
                UploadStage::Connect => {
                    let held = self.token;
                    self.token = false;
                    self.connection.session_built();
                    let mut r = self.go_on_with_session();
                    r.release = held;
                    r
                },
                UploadStage::Channel => {
                    self.connection.channel_built();
                    self.go_on_with_channel()
                },
                UploadStage::MakeDir => {
                    let dir = self.place.clone();
                    self.note_made(dir);
                    self.finish()
                },
                UploadStage::MakeParent => {
                    let dir = self.above();
                    self.note_made(dir);
                    self.go_on_with_parent()
                },
                UploadStage::OpenLocal => {
                    self.stage = UploadStage::CreateRemote;
                    simply(UploadStep::CreateRemote(self.place.clone()))
                },
                _ => {
                    self.stage = UploadStage::Read;
                    simply(UploadStep::Read)
                },
            },
            UploadEvent::ConnectFailed(e) => {
                let held = self.token;
                self.token = false;
                let reason = match e {
                    OpError::Transfer(TransferError::SshAuthFailed(addr)) => {
                        TransferError::SshAuthFailed(addr)
                    },
                    _ => TransferError::WorkerNoSession(self.alias.clone()),
                };
                let mut r = self.fail_attempt(reason);
                r.release = held;
                r
            },
            UploadEvent::Failed(e) => match self.stage {
                UploadStage::Channel => self.fail_attempt(TransferError::SftpCreateFailed(e)),
                UploadStage::MakeDir => {
                    self.stage = UploadStage::Idle;
                    UploadOutcome {
                        release: false,
                        report: Some(
                            TransferError::CreateRemoteDirFailed(self.place.clone(), e),
                        ),
                        drops: Drops::Nothing,
                        step: UploadStep::Over,
                    }
                },
                UploadStage::MakeParent => {
                    let dir = self.above();
                    self.fail_attempt(TransferError::CreateRemoteDirFailed(dir, e))
                },
                UploadStage::OpenLocal => {
                    let path = self.local.clone();
                    self.break_off("本地打开失败: ", path, e)
                },
                UploadStage::CreateRemote => {
                    let path = display_path(self.place.as_str());
                    self.break_off("远端创建文件失败: ", path, e)
                },
                UploadStage::Write => {
                    let path = display_path(self.place.as_str());
                    self.break_off("远端写入失败: ", path, e)
                },
                _ => {
                    let path = self.local.clone();
                    self.break_off("本地读取失败: ", path, e)
                },
            },
            UploadEvent::Got => {
                self.stage = UploadStage::Write;
                simply(UploadStep::Write)
            },
            UploadEvent::Ended => self.finish(),
            UploadEvent::Waited => self.try_once(),
        }
    }
}

/// A worker that may be in this state.
pub type WorkerState = UploadWorker<Seq<char>, Seq<Seq<char>>>;

/// The permission to connect is held only while a worker connects, and each
/// that was taken is given back exactly once: when connecting has worked, and
/// when it has failed.
pub proof fn permissions_are_given_back(worker: WorkerState, event: UploadEvent<Seq<char>>)
    requires
        worker.wf(),
        worker.expects(event),
    ensures
        worker.next(event).0.wf(),
        worker.next(event).1.release <==> worker.token,
        worker.next(event).0.token <==> event is TokenTaken,
        worker.next(event).0.stage == UploadStage::Connect <==> event is TokenTaken,
{
}

/// A failure to connect costs an attempt and no more: while attempts are left
/// the worker pauses and takes the permission anew. Only where the server
/// refused the keys the entry is lost at once. The report of a lost entry says
/// that there was no session, or that the keys were refused.
pub proof fn failed_connections_are_tried_again(worker: WorkerState, e: OpError<Seq<char>>)
    requires
        worker.wf(),
        worker.stage == UploadStage::Connect,
    ensures
        ({
            let after = worker.next(UploadEvent::ConnectFailed(e));
            let refused = e matches OpError::Transfer(t) && t is SshAuthFailed;
            let last = worker.retry.failed + 1 >= worker.retry.max_retries;
            &&& after.1.step is Over <==> refused || last
            &&& after.1.report == if !(refused || last) {
                None
            } else if refused {
                Some(e->Transfer_0)
            } else {
                Some(TransferError::WorkerNoSession(worker.alias))
            }
            &&& after.1.drops == Drops::Nothing
            &&& after.0.streak == worker.streak
            &&& !refused && !last ==> after.0.stage == UploadStage::Wait && after.0.next(
                UploadEvent::Waited,
            ).1.step == UploadStep::<Seq<char>>::TakeToken
        }),
{
}

/// A worker gives up its session only after two entries in a row that were
/// lost to errors that break it; an entry that was lost to another error
/// starts the count anew, and one that had no session leaves it alone.
pub proof fn sessions_survive_single_errors(worker: WorkerState, e: OpError<Seq<char>>)
    requires
        worker.wf(),
    ensures
        worker.entry_failed(e).1.drops == Drops::Both <==> worker.streak == 1 && breaks_session(e)
            && !lacks_session(e),
        worker.entry_failed(e).0.streak == (if lacks_session(e) {
            worker.streak as int
        } else if breaks_session(e) && worker.streak == 0 {
            1
        } else {
            0
        }),
{
}

/// No worker makes a directory that it has made before.
pub proof fn directories_are_made_once(worker: WorkerState, event: UploadEvent<Seq<char>>)
    requires
        worker.wf(),
        worker.expects(event),
    ensures
        worker.next(event).1.step matches UploadStep::MakeDirs(dir) ==> !worker.created.contains(
            dir,
        ),
        forall|dir: Seq<char>|
            worker.created.contains(dir) ==> #[trigger] worker.next(event).0.created.contains(dir),
        event is Worked && worker.stage == UploadStage::MakeDir ==> worker.next(
            event,
        ).0.created.contains(worker.place),
{
    let after = worker.next(event).0.created;
    assert forall|dir: Seq<char>| worker.created.contains(dir) implies #[trigger] after.contains(
        dir,
    ) by {
        let i = worker.created.index_of(dir);
        assert(after[i] == dir);
    }
    if event is Worked && worker.stage == UploadStage::MakeDir {
        assert(after[worker.created.len() as int] == worker.place);
    }
}

/// An entry reports a failure at its end only, so at most one.
pub proof fn one_report_for_each_upload(worker: WorkerState, event: UploadEvent<Seq<char>>)
    requires
        worker.wf(),
        worker.expects(event),
    ensures
        worker.next(event).1.report is Some ==> worker.next(event).1.step is Over,
        worker.next(event).1.step is Over <==> worker.next(event).0.stage == UploadStage::Idle,
        worker.next(event).0.stage == UploadStage::Idle ==> forall|later: UploadEvent<Seq<char>>|
            !#[trigger] worker.next(event).0.expects(later),
{
}

/// What a worker sends, and where to, stays what it was while it works on an
/// entry: no event changes the local file, its place on the server or its kind,
/// nor the target and how often is tried.
pub proof fn workers_keep_their_entry(worker: WorkerState, event: UploadEvent<Seq<char>>)
    requires
        worker.wf(),
        worker.expects(event),
    ensures
        ({
            let after = worker.next(event).0;
            &&& after.local == worker.local
            &&& after.place == worker.place
            &&& after.kind == worker.kind
            &&& after.alias == worker.alias
            &&& after.base == worker.base
            &&& after.target_is_dir == worker.target_is_dir
            &&& after.max_retries == worker.max_retries
            &&& after.base_ms == worker.base_ms
        }),
{
}

/// An entry is taken as it is: its local file is the one that is opened, its
/// kind is kept, and all attempts are left.
pub proof fn entries_are_taken_as_they_are(worker: WorkerState, entry: FileEntry<Seq<char>>)
    requires
        worker.wf(),
        worker.stage == UploadStage::Idle,
    ensures
        ({
            let after = worker.begin(entry);
            &&& entry.local_full matches Some(p) ==> after.0.local == p
            &&& after.0.kind == entry.kind
            &&& after.0.place == remote_place(worker.base, worker.target_is_dir, entry.rel)
            &&& after.0.retry.failed == 0
            &&& after.0.retry.max_retries == worker.max_retries
            &&& after.0.created == worker.created
            &&& after.0.base == worker.base
            &&& worker.max_retries > 0 ==> after.0.connection == worker.connection
            &&& worker.max_retries > 0 && !worker.connection.session ==> after.1.step is TakeToken
            &&& worker.max_retries > 0 && worker.connection.session && !worker.connection.channel
                ==> after.1.step is OpenChannel
            &&& worker.max_retries > 0 ==> after.1.report is None
            &&& worker.max_retries == 0 ==> after.1.report is Some && after.1.step is Over
        }),
{
}

/// Every path that a worker touches is that of its entry: the local file that it
/// opens, the remote file that it creates, and the directories that it makes,
/// which are the entry itself or lie above a file.
pub proof fn workers_touch_their_own_files_only(worker: WorkerState, event: UploadEvent<Seq<char>>)
    requires
        worker.wf(),
        worker.expects(event),
    ensures
        ({
            let step = worker.next(event).1.step;
            &&& step matches UploadStep::OpenLocal(p) ==> p == worker.local && (worker.kind
                == EntryKind::File || worker.stage == UploadStage::MakeParent)
            &&& step matches UploadStep::CreateRemote(p) ==> p == worker.place && worker.stage
                == UploadStage::OpenLocal && event is Worked
            &&& step matches UploadStep::MakeDirs(p) ==> worker.kind == EntryKind::Dir && p
                == worker.place || worker.kind == EntryKind::File && parent_of(worker.place)
                == Some(p)
            &&& worker.stage == UploadStage::OpenLocal && event is Worked ==> step is CreateRemote
        }),
{
}

/// What is read is written before more is read; and a file is done without a
/// report only at its end, a directory only when it was made.
pub proof fn what_is_read_is_sent(worker: WorkerState, event: UploadEvent<Seq<char>>)
    requires
        worker.wf(),
        worker.expects(event),
    ensures
        ({
            let after = worker.next(event);
            &&& after.1.step is Write <==> event is Got
            &&& after.1.step is Read <==> event is Worked && (worker.stage
                == UploadStage::CreateRemote || worker.stage == UploadStage::Write)
            &&& after.0.stage == UploadStage::Write <==> after.1.step is Write
            &&& after.0.stage == UploadStage::Read <==> after.1.step is Read
            &&& after.1.step is Over && after.1.report is None ==> event is Ended || worker.stage
                == UploadStage::MakeDir && event is Worked || worker.kind == EntryKind::Dir
                && worker.created.contains(worker.place)
            &&& after.0.stage == UploadStage::MakeDir ==> worker.kind == EntryKind::Dir
            &&& after.0.stage == UploadStage::MakeParent ==> worker.kind == EntryKind::File
            &&& event is Ended ==> after.1.step is Over && after.1.report is None
        }),
{
}

/// A worker opens a channel only on a session, and takes the permission to
/// connect only where it has none.
pub proof fn connections_come_in_order(worker: WorkerState, event: UploadEvent<Seq<char>>)
    requires
        worker.wf(),
        worker.expects(event),
    ensures
        worker.next(event).1.step is OpenChannel ==> worker.next(event).0.connection.session
            && !worker.next(event).0.connection.channel,
        worker.next(event).1.step is TakeToken ==> !worker.next(event).0.connection.session,
        worker.next(event).1.step is Connect <==> event is TokenTaken,
        worker.stage == UploadStage::Connect && event is Worked ==> worker.next(
            event,
        ).0.connection.session && worker.next(event).0.connection.session_rebuilds
            == worker.connection.session_rebuilds + 1,
        worker.stage == UploadStage::Channel && event is Worked ==> worker.next(
            event,
        ).0.connection.channel && worker.next(event).0.connection.sftp_rebuilds
            == worker.connection.sftp_rebuilds + 1,
        worker.stage == UploadStage::Wait && worker.connection.session
            && worker.connection.channel && worker.kind == EntryKind::File && (parent_of(
            worker.place,
        ) matches Some(p) ==> worker.created.contains(p)) ==> worker.next(event).1.step
            == UploadStep::OpenLocal(worker.local),
{
}

/// After the `k`-th failed attempt the pause is `k` times the base, as long as
/// attempts are left; then the attempt begins anew. Only where the directory
/// above a file cannot be made the file is given up at once.
pub proof fn failed_uploads_are_repeated(worker: WorkerState, message: Seq<char>)
    requires
        worker.wf(),
        worker.expects(UploadEvent::Failed(message)),
        worker.stage != UploadStage::MakeDir,
    ensures
        ({
            let after = worker.next(UploadEvent::Failed(message));
            let left = worker.retry.failed + 1 < worker.retry.max_retries && worker.stage
                != UploadStage::MakeParent;
            &&& after.0.retry.failed == worker.retry.failed + 1
            &&& left ==> after.0.stage == UploadStage::Wait && after.1.step is Wait
                && after.1.report is None
            &&& left && worker.base_ms * (worker.retry.failed + 1) <= u64::MAX ==> after.1.step
                == UploadStep::<Seq<char>>::Wait(
                (worker.base_ms * (worker.retry.failed + 1)) as u64,
            )
            &&& !left ==> after.1.step is Over
            &&& !left ==> (after.1.report matches Some(r) && r is WorkerIo
                && crate::text::has_part(r->WorkerIo_0, normal_form(worker.place, true))
                && crate::text::has_part(r->WorkerIo_0, message))
        }),
{
    assert(worker.base_ms as nat * (worker.retry.failed + 1) as nat == worker.base_ms * (
    worker.retry.failed + 1));
    let after = worker.next(UploadEvent::Failed(message));
    if let Some(r) = after.1.report {
        let m = r->WorkerIo_0;
        let shown = normal_form(worker.place, true);
        let at = "上传失败: "@.len() as int;
        assert(m.subrange(at, at + shown.len()) =~= shown);
        let k = m.len() - message.len();
        assert(m.subrange(k, k + message.len()) =~= message);
    }
}

/// A directory that cannot be made is reported with its path and the reason.
pub proof fn unmade_directories_are_reported(worker: WorkerState, message: Seq<char>)
    requires
        worker.wf(),
        worker.stage == UploadStage::MakeDir,
    ensures
        worker.next(UploadEvent::Failed(message)).1.report == Some(
            TransferError::CreateRemoteDirFailed(worker.place, message),
        ),
        worker.next(UploadEvent::Failed(message)).1.step is Over,
{
}

/// An entry goes below the target under its path below the source, where the
/// target is a directory or is written with a slash at its end.
pub proof fn entries_go_below_the_target(base: Seq<char>, rel: Seq<char>)
    requires
        base.len() > 0,
        base.last() != '/',
        super::super::helpers::single_slashes(rel),
        !rel.contains('\\'),
    ensures
        remote_place(base, true, rel) == base + seq!['/'] + rel,
        remote_place(base.push('/'), true, rel) == base + seq!['/'] + rel,
        remote_place(base.push('/'), false, rel) == base + seq!['/'] + rel,
        remote_place(base, false, rel) == base,
{
    reveal_strlit("/");
    assert("/"@ =~= seq!['/']);
    super::super::helpers::clean_paths_are_in_normal_form(rel, true);
    crate::text::lemma_strip_end_is(base, '/', base.len() as int);
    assert(base.take(base.len() as int) =~= base);
    crate::text::lemma_strip_end_is(base.push('/'), '/', base.len() as int);
    assert(base.push('/').take(base.len() as int) =~= base);
}

/// Any of the phrases that speak of a broken connection makes a session count
/// as broken, wherever in the message it stands and in whichever kind of error;
/// refused keys do not.
pub proof fn broken_connections_are_known_by_their_words(
    before: Seq<char>,
    after: Seq<char>,
    message: Seq<char>,
    addr: Seq<char>,
)
    ensures
        tells_of_connection(before + "connection reset"@ + after),
        tells_of_connection(before + "broken pipe"@ + after),
        tells_of_connection(before + "connection aborted"@ + after),
        tells_of_connection(before + "connection refused"@ + after),
        tells_of_connection(before + "not connected"@ + after),
        tells_of_connection(before + "eof"@ + after),
        breaks_session(OpError::Other(message)) == tells_of_connection(lowercase(message)),
        breaks_session(OpError::Transfer(TransferError::WorkerIo(message))) == breaks_session(
            OpError::Other(message),
        ),
        !breaks_session(OpError::Transfer(TransferError::SshAuthFailed(addr))),
        breaks_session(OpError::Transfer(TransferError::SshHandshakeFailed(addr))),
        breaks_session(OpError::Transfer(TransferError::SftpCreateFailed(addr))),
        breaks_session(OpError::Transfer(TransferError::WorkerNoSftp(addr))),
        breaks_session(OpError::Transfer(TransferError::WorkerBuildSessionFailed(addr))),
        breaks_session(OpError::Transfer(TransferError::SshSessionCreateFailed(addr))),
        !breaks_session(OpError::Transfer(TransferError::CreateRemoteDirFailed(addr, message))),
{
    lemma_part_between(before, "connection reset"@, after);
    lemma_part_between(before, "broken pipe"@, after);
    lemma_part_between(before, "connection aborted"@, after);
    lemma_part_between(before, "connection refused"@, after);
    lemma_part_between(before, "not connected"@, after);
    lemma_part_between(before, "eof"@, after);
}

/// An entry that names no path on this machine is read under its own name.
pub proof fn entries_without_a_path_are_read_under_their_name(
    worker: WorkerState,
    entry: FileEntry<Seq<char>>,
)
    requires
        worker.wf(),
        worker.stage == UploadStage::Idle,
        entry.local_full is None,
    ensures
        worker.begin(entry).0.local == entry.rel,
{
}

/// A directory that was asked for and made is remembered, that one and no
/// other; nothing else is taken for made.
pub proof fn made_directories_are_remembered(
    worker: WorkerState,
    event: UploadEvent<Seq<char>>,
    dir: Seq<char>,
)
    requires
        worker.wf(),
        worker.expects(event),
    ensures
        worker.next(event).1.step == UploadStep::MakeDirs(dir) ==> ({
            let asked = worker.next(event).0;
            asked.next(UploadEvent::Worked).0.created == worker.created.push(dir)
        }),
        !(event is Worked && (worker.stage == UploadStage::MakeDir || worker.stage
            == UploadStage::MakeParent)) ==> worker.next(event).0.created == worker.created,
{
}

/// A failure breaks the session where connecting failed or the session or its
/// channel is gone; of a failure that is told in words the words decide, in
/// capitals or not; and any other leaves the session as it is.
pub proof fn sessions_break_with_their_connection(t: TransferError<Seq<char>>, m: Seq<char>)
    ensures
        t is SshSessionCreateFailed || t is SshHandshakeFailed || t is WorkerBuildSessionFailed
            || t is SftpCreateFailed || t is WorkerNoSftp || t is WorkerNoSession
            ==> breaks_session(OpError::Transfer(t)),
        t is SshAuthFailed || t is SshNoAddress || t is CreateRemoteDirFailed || t is OperationFailed
            || t is AliasNotFound || t is RemoteTargetMustBeDir || t is RemoteTargetParentMissing
            ==> !breaks_session(OpError::Transfer(t)),
        breaks_session(OpError::Transfer(TransferError::WorkerIo(m))) <==> breaks_session(
            OpError::Other(m),
        ),
        breaks_session(OpError::Other(m)) <==> tells_of_connection(lowercase(m)),
{
}

/// What was lost of a connection is lost for the worker: both parts where both
/// are dropped, and neither otherwise.
pub proof fn dropped_connections_are_built_again(worker: WorkerState, e: OpError<Seq<char>>)
    requires
        worker.wf(),
    ensures
        ({
            let (after, out) = worker.entry_failed(e);
            &&& out.drops == Drops::Both ==> !after.connection.session && !after.connection.channel
            &&& out.drops != Drops::Both ==> after.connection == worker.connection && out.drops
                == Drops::Nothing
            &&& after.connection.session_rebuilds == worker.connection.session_rebuilds
            &&& after.connection.sftp_rebuilds == worker.connection.sftp_rebuilds
            &&& out.report is Some
            &&& out.step is Over
            &&& after.stage == UploadStage::Idle
        }),
{
}

/// An entry that was lost for want of a session, or because the server refused
/// the keys, is reported with that failure itself, and counts for nothing; any
/// other is reported with where it was to go and what happened.
pub proof fn lost_entries_are_reported(
    worker: WorkerState,
    alias: Seq<char>,
    e: OpError<Seq<char>>,
)
    requires
        worker.wf(),
    ensures
        worker.entry_failed(OpError::Transfer(TransferError::WorkerNoSession(alias))).1.report
            == Some(TransferError::WorkerNoSession(alias)),
        worker.entry_failed(OpError::Transfer(TransferError::SshAuthFailed(alias))).1.report
            == Some(TransferError::SshAuthFailed(alias)),
        worker.entry_failed(OpError::Transfer(TransferError::WorkerNoSession(alias))).0.streak
            == worker.streak,
        !(e matches OpError::Transfer(TransferError::WorkerNoSession(_))) && !(e matches
            OpError::Transfer(TransferError::SshAuthFailed(_))) ==> {
            &&& worker.entry_failed(e).1.report matches Some(TransferError::WorkerIo(m))
            &&& has_part(m, e.text())
            &&& has_part(m, normal_form(worker.place, true))
        },
{
    let place = normal_form(worker.place, true);
    let told = "上传失败: "@ + place + " — "@ + e.text();
    lemma_part_behind("上传失败: "@ + place + " — "@, e.text());
    lemma_part_between("上传失败: "@, place, " — "@ + e.text());
    assert(told =~= "上传失败: "@ + place + (" — "@ + e.text()));
}

} // verus!
