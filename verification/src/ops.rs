//! Preparing the directory of the program, and bringing a configuration and
//! its data up to date.
use vstd::prelude::*;
use vstd::string::*;

use crate::config::Config;
use crate::json::{
    count_member, find_member, get_count, get_text, json_members, json_text_members, lookup,
    members_of, text_member, JsonMember,
};
use crate::number::{decimal, to_decimal};
use crate::paths::{
    bare, is_step_down, join, joined, parent, parent_of, with_forward_slashes, with_slashes,
};
use crate::server::{
    ascending, copy_opt, host, opt, put, Hosts, Server, ServerCollection, PROTOCOL_VERSION,
};
use crate::text::{
    cat2, cat3, cat4, has_part, lemma_part_behind, lemma_part_between, list1, listed, texts,
};

verus! {

// ---------------------------------------------------------------------------
// The directory
// ---------------------------------------------------------------------------

/// The directory of the program, under the user's home.
pub open spec fn program_dir(home: Seq<char>) -> Seq<char> {
    joined(home, ".hostpilot"@)
}

/// The directory that earlier releases used.
pub open spec fn legacy_dir(home: Seq<char>) -> Seq<char> {
    joined(home, ".psm"@)
}

/// What the preparation of the directory waits for.
#[derive(Debug, Clone, Copy, PartialEq, Eq, Structural)]
pub enum DirStage {
    /// Which of the two directories exist.
    Look,
    /// What came of renaming.
    Rename,
    /// What came of copying.
    Copy,
    /// Whether the directory exists by now.
    Check,
    /// What came of creating it.
    Create,
    Over,
}

/// What was found out for the preparation of the directory.
pub enum DirEvent<S = String> {
    /// Whether the legacy directory and the present one exist.
    Seen { legacy: bool, present: bool },
    Worked,
    Failed(S),
    /// Whether the directory exists.
    There(bool),
}

impl View for DirEvent<String> {
    type V = DirEvent<Seq<char>>;

    open spec fn view(&self) -> DirEvent<Seq<char>> {
        match self {
            DirEvent::Seen { legacy, present } => DirEvent::Seen {
                legacy: *legacy,
                present: *present,
            },
            DirEvent::Worked => DirEvent::Worked,
            DirEvent::Failed(e) => DirEvent::Failed(e@),
            DirEvent::There(b) => DirEvent::There(*b),
        }
    }
}

/// What to do next for the preparation of the directory.
pub enum DirStep<S = String> {
    /// Rename a directory.
    Rename(S, S),
    /// Copy a directory with all in it, and remove it when that has worked.
    CopyAndRemove(S, S),
    /// See whether a directory exists.
    Look(S),
    /// Create a directory.
    Create(S),
    /// The directory is ready.
    Ready(S),
    /// It could not be made ready.
    Fail(S),
}

impl View for DirStep<String> {
    type V = DirStep<Seq<char>>;

    open spec fn view(&self) -> DirStep<Seq<char>> {
        match self {
            DirStep::Rename(a, b) => DirStep::Rename(a@, b@),
            DirStep::CopyAndRemove(a, b) => DirStep::CopyAndRemove(a@, b@),
            DirStep::Look(a) => DirStep::Look(a@),
            DirStep::Create(a) => DirStep::Create(a@),
            DirStep::Ready(a) => DirStep::Ready(a@),
            DirStep::Fail(a) => DirStep::Fail(a@),
        }
    }
}

/// The preparation of the directory.
pub struct DirPrep<S = String> {
    pub dir: S,
    pub legacy: S,
    pub stage: DirStage,
}

impl View for DirPrep<String> {
    type V = DirPrep<Seq<char>>;

    open spec fn view(&self) -> DirPrep<Seq<char>> {
        DirPrep { dir: self.dir@, legacy: self.legacy@, stage: self.stage }
    }
}

impl DirPrep<Seq<char>> {
    pub open spec fn expects(self, event: DirEvent<Seq<char>>) -> bool {
        match event {
            DirEvent::Seen { .. } => self.stage == DirStage::Look,
            DirEvent::Worked | DirEvent::Failed(_) => self.stage == DirStage::Rename || self.stage
                == DirStage::Copy || self.stage == DirStage::Create,
            DirEvent::There(_) => self.stage == DirStage::Check,
        }
    }

    pub open spec fn at(self, stage: DirStage) -> Self {
        DirPrep { stage, ..self }
    }

    /// The state after an event, what to tell the user, and what to do then.
    /// A legacy directory is taken over where there is none of the present
    /// name: by renaming, or else by copying.
    pub open spec fn next(self, event: DirEvent<Seq<char>>) -> (
        Self,
        Option<Seq<char>>,
        DirStep<Seq<char>>,
    ) {
        match event {
            DirEvent::Seen { legacy, present } => if legacy && !present {
                (
                    self.at(DirStage::Rename),
                    Some(
                        "🔁 Migrating legacy config directory: "@ + self.legacy + " -> "@
                            + self.dir,
                    ),
                    DirStep::Rename(self.legacy, self.dir),
                )
            } else {
                (self.at(DirStage::Check), None, DirStep::Look(self.dir))
            },
            DirEvent::Worked => if self.stage == DirStage::Rename {
                (
                    self.at(DirStage::Check),
                    Some("   ✅ Renamed legacy directory to "@ + self.dir),
                    DirStep::Look(self.dir),
                )
            } else if self.stage == DirStage::Copy {
                (
                    self.at(DirStage::Check),
                    Some("   ✅ Copied legacy directory to "@ + self.dir),
                    DirStep::Look(self.dir),
                )
            } else {
                (self.at(DirStage::Over), None, DirStep::Ready(self.dir))
            },
            DirEvent::Failed(e) => if self.stage == DirStage::Rename {
                (
                    self.at(DirStage::Copy),
                    Some(
                        "   ⚠️  Rename failed ("@ + e + "), falling back to recursive copy..."@,
                    ),
                    DirStep::CopyAndRemove(self.legacy, self.dir),
                )
            } else {
                (self.at(DirStage::Over), None, DirStep::Fail(e))
            },
            DirEvent::There(there) => if there {
                (self.at(DirStage::Over), None, DirStep::Ready(self.dir))
            } else {
                (self.at(DirStage::Create), None, DirStep::Create(self.dir))
            },
        }
    }
}

/// Starts the preparation of the directory under a home. First it has to be
/// found out which of the two directories exist.
pub fn ensure_hostpilot_dir(home_dir: &str) -> (r: DirPrep)
    ensures
        r@ == (DirPrep {
            dir: program_dir(home_dir@),
            legacy: legacy_dir(home_dir@),
            stage: DirStage::Look,
        }),
{
    DirPrep {
        dir: join(home_dir, ".hostpilot"),
        legacy: join(home_dir, ".psm"),
        stage: DirStage::Look,
    }
}

impl DirPrep {
    /// Takes in what was found out, and says what to do next.
    pub fn advance(&mut self, event: DirEvent) -> (r: (Option<String>, DirStep))
        requires
            old(self)@.expects(event@),
        ensures
            (final(self)@, opt(r.0), r.1@) == old(self)@.next(event@),
    {
        match event {
            DirEvent::Seen { legacy, present } => {
                if legacy && !present {
                    self.stage = DirStage::Rename;
                    (
                        Some(
                            cat4(
                                "🔁 Migrating legacy config directory: ",
                                self.legacy.as_str(),
                                " -> ",
                                self.dir.as_str(),
                            ),
                        ),
                        DirStep::Rename(self.legacy.clone(), self.dir.clone()),
                    )
                } else {
                    self.stage = DirStage::Check;
                    (None, DirStep::Look(self.dir.clone()))
                }
            },
            DirEvent::Worked => match self.stage {
                DirStage::Rename => {
                    self.stage = DirStage::Check;
                    (
                        Some(cat2("   ✅ Renamed legacy directory to ", self.dir.as_str())),
                        DirStep::Look(self.dir.clone()),
                    )
                },
                DirStage::Copy => {
                    self.stage = DirStage::Check;
                    (
                        Some(cat2("   ✅ Copied legacy directory to ", self.dir.as_str())),
                        DirStep::Look(self.dir.clone()),
                    )
                },
                _ => {
                    self.stage = DirStage::Over;
                    (None, DirStep::Ready(self.dir.clone()))
                },
            },
            DirEvent::Failed(e) => match self.stage {
                DirStage::Rename => {
                    self.stage = DirStage::Copy;
                    (
                        Some(
                            cat3(
                                "   ⚠️  Rename failed (",
                                e.as_str(),
                                "), falling back to recursive copy...",
                            ),
                        ),
                        DirStep::CopyAndRemove(self.legacy.clone(), self.dir.clone()),
                    )
                },
                _ => {
                    self.stage = DirStage::Over;
                    (None, DirStep::Fail(e))
                },
            },
            DirEvent::There(there) => {
                if there {
                    self.stage = DirStage::Over;
                    (None, DirStep::Ready(self.dir.clone()))
                } else {
                    self.stage = DirStage::Create;
                    (None, DirStep::Create(self.dir.clone()))
                }
            },
        }
    }
}

/// A directory that exists is never overwritten by the legacy one, and the
/// preparation ends with the directory or with an error.
pub proof fn present_directory_is_kept(prep: DirPrep<Seq<char>>, legacy: bool)
    requires
        prep.stage == DirStage::Look,
    ensures
        ({
            let first = prep.next(DirEvent::Seen { legacy, present: true });
            let second = first.0.next(DirEvent::There(true));
            &&& first.2 == DirStep::Look(prep.dir)
            &&& second.2 == DirStep::Ready(prep.dir)
            &&& second.0.stage == DirStage::Over
        }),
{
}

/// The directory of the program and the legacy one lie in the home, each under
/// its own name.
pub proof fn directories_lie_in_the_home(home: Seq<char>)
    requires
        home.len() > 0,
        home.last() != '/',
    ensures
        program_dir(home) == home + "/.hostpilot"@,
        legacy_dir(home) == home + "/.psm"@,
{
    reveal_strlit("/.hostpilot");
    reveal_strlit(".hostpilot");
    reveal_strlit("/.psm");
    reveal_strlit(".psm");
    assert(program_dir(home) =~= home + "/.hostpilot"@);
    assert(legacy_dir(home) =~= home + "/.psm"@);
}

/// The preparation keeps to its two directories: only the legacy one is ever
/// renamed or copied, and always to the directory; nothing but the directory
/// is looked at, created or handed out.
pub proof fn preparation_keeps_its_directories(
    prep: DirPrep<Seq<char>>,
    event: DirEvent<Seq<char>>,
)
    requires
        prep.expects(event),
    ensures
        ({
            let (after, told, step) = prep.next(event);
            &&& after.dir == prep.dir
            &&& after.legacy == prep.legacy
            &&& step matches DirStep::Rename(a, b) ==> a == prep.legacy && b == prep.dir
            &&& step matches DirStep::CopyAndRemove(a, b) ==> a == prep.legacy && b == prep.dir
            &&& step matches DirStep::Look(p) ==> p == prep.dir
            &&& step matches DirStep::Create(p) ==> p == prep.dir
            &&& step matches DirStep::Ready(p) ==> p == prep.dir
            &&& step matches DirStep::Fail(e) ==> event == DirEvent::Failed(e)
        }),
{
}

/// The course of the preparation. The legacy directory is renamed just where it
/// exists and the present one does not; where that fails, it is copied. Then,
/// as in all other cases, the directory is looked for and created where it is
/// missing. What fails at last is told as it was found.
pub proof fn course_of_the_preparation(prep: DirPrep<Seq<char>>, event: DirEvent<Seq<char>>)
    requires
        prep.expects(event),
    ensures
        ({
            let (after, told, step) = prep.next(event);
            &&& step is Rename <==> event == DirEvent::<Seq<char>>::Seen {
                legacy: true,
                present: false,
            }
            &&& step is CopyAndRemove <==> event is Failed && prep.stage == DirStage::Rename
            &&& step is Look <==> (event is Seen && !(step is Rename)) || (event is Worked
                && prep.stage != DirStage::Create)
            &&& step is Create <==> event == DirEvent::<Seq<char>>::There(false)
            &&& step is Ready <==> event == DirEvent::<Seq<char>>::There(true) || (event is Worked
                && prep.stage == DirStage::Create)
            &&& step is Fail <==> event is Failed && prep.stage != DirStage::Rename
            &&& after.stage == match step {
                DirStep::Rename(_, _) => DirStage::Rename,
                DirStep::CopyAndRemove(_, _) => DirStage::Copy,
                DirStep::Look(_) => DirStage::Check,
                DirStep::Create(_) => DirStage::Create,
                DirStep::Ready(_) | DirStep::Fail(_) => DirStage::Over,
            }
        }),
{
}

/// What is told of the preparation: the directories where the legacy one is
/// taken over, the cause where it could not be renamed, and nothing else.
pub proof fn preparation_is_told(prep: DirPrep<Seq<char>>, event: DirEvent<Seq<char>>)
    requires
        prep.expects(event),
    ensures
        ({
            let (after, told, step) = prep.next(event);
            &&& step is Rename ==> told is Some && has_part(told->Some_0, prep.legacy) && has_part(
                told->Some_0,
                prep.dir,
            )
            &&& step is CopyAndRemove ==> told is Some && has_part(told->Some_0, event->Failed_0)
            &&& event is Worked && step is Look ==> told is Some && has_part(
                told->Some_0,
                prep.dir,
            )
            &&& (step is Ready || step is Create || step is Fail || (event is Seen
                && step is Look)) ==> told is None
        }),
{
    let told = "🔁 Migrating legacy config directory: "@ + prep.legacy + " -> "@ + prep.dir;
    lemma_part_behind(
        "🔁 Migrating legacy config directory: "@ + prep.legacy + " -> "@,
        prep.dir,
    );
    lemma_part_between(
        "🔁 Migrating legacy config directory: "@,
        prep.legacy,
        " -> "@ + prep.dir,
    );
    assert(told =~= "🔁 Migrating legacy config directory: "@ + prep.legacy + (" -> "@ + prep.dir));
    lemma_part_behind("   ✅ Renamed legacy directory to "@, prep.dir);
    lemma_part_behind("   ✅ Copied legacy directory to "@, prep.dir);
    match event {
        DirEvent::Failed(e) => {
            lemma_part_between(
                "   ⚠️  Rename failed ("@,
                e,
                "), falling back to recursive copy..."@,
            );
        },
        _ => {},
    }
}

/// The directory of the logs: in the program's directory, or else beside the
/// file of servers.
pub open spec fn logs_dir(dir: Option<Seq<char>>, server_file: Seq<char>, home: Seq<char>) -> Seq<
    char,
> {
    match dir {
        Some(d) => joined(d, "logs"@),
        None => match parent_of(server_file) {
            Some(p) => joined(p, "logs"@),
            None => joined(program_dir(home), "logs"@),
        },
    }
}

/// Finds the directory of the logs. `dir` is the program's directory, where it
/// could be made ready.
pub fn find_logs_dir(dir: Option<&str>, server_file_path: &str, home_dir: &str) -> (r: String)
    ensures
        r@ == logs_dir(
            match dir {
                Some(d) => Some(d@),
                None => None,
            },
            server_file_path@,
            home_dir@,
        ),
{
    match dir {
        Some(d) => join(d, "logs"),
        None => match parent(server_file_path) {
            Some(p) => join(p.as_str(), "logs"),
            None => join(join(home_dir, ".hostpilot").as_str(), "logs"),
        },
    }
}

/// The logs lie in the directory of the program; where there is none, beside
/// the file of servers.
pub proof fn logs_lie_in_the_directory(
    dir: Seq<char>,
    other: Seq<char>,
    name: Seq<char>,
    home: Seq<char>,
)
    requires
        dir.len() > 0,
        dir.last() != '/',
        bare(dir) == dir,
        is_step_down(name),
        !name.contains('/'),
    ensures
        logs_dir(Some(dir), other, home) == dir + "/logs"@,
        logs_dir(None, dir + seq!['/'] + name, home) == dir + "/logs"@,
{
    reveal_strlit("/logs");
    reveal_strlit("logs");
    crate::paths::join_then_split(dir, name);
    assert(name[0] != '/') by {
        assert(name.contains(name[0]));
    }
    assert(joined(dir, name) == dir + seq!['/'] + name);
    assert(joined(dir, "logs"@) =~= dir + "/logs"@);
}

/// The least level of messages that the log holds.
pub fn log_level(debug: bool) -> (r: String)
    ensures
        r@ == if debug {
            "debug"@
        } else {
            "warn"@
        },
{
    if debug {
        "debug".to_owned()
    } else {
        "warn".to_owned()
    }
}

/// What to do with an entry of a directory that is copied.
#[derive(Debug, Clone, Copy, PartialEq, Eq, Structural)]
pub enum CopyStep {
    /// Copy a directory with all in it.
    Descend,
    CopyFile,
    /// Leave links and special files behind.
    Skip,
}

/// Decides what to do with an entry of a directory that is copied.
pub fn copy_step(is_dir: bool, is_file: bool) -> (r: CopyStep)
    ensures
        r == if is_dir {
            CopyStep::Descend
        } else if is_file {
            CopyStep::CopyFile
        } else {
            CopyStep::Skip
        },
{
    if is_dir {
        CopyStep::Descend
    } else if is_file {
        CopyStep::CopyFile
    } else {
        CopyStep::Skip
    }
}

// ---------------------------------------------------------------------------
// What a stored configuration says
// ---------------------------------------------------------------------------

/// What the upgrade reads from a stored configuration.
pub struct ConfigFacts<S = String> {
    pub version: Option<u64>,
    pub server_file_path: Option<S>,
}

impl View for ConfigFacts<String> {
    type V = ConfigFacts<Seq<char>>;

    open spec fn view(&self) -> ConfigFacts<Seq<char>> {
        ConfigFacts { version: self.version, server_file_path: opt(self.server_file_path) }
    }
}

/// The members of a JSON object, or none where the text holds no object.
pub open spec fn members_or_none(
    members: Option<Seq<(Seq<char>, JsonMember<Seq<char>>)>>,
) -> Seq<(Seq<char>, JsonMember<Seq<char>>)> {
    match members {
        Some(m) => m,
        None => Seq::empty(),
    }
}

/// The facts in the members of a configuration.
pub open spec fn facts_in(members: Seq<(Seq<char>, JsonMember<Seq<char>>)>) -> ConfigFacts<
    Seq<char>,
> {
    ConfigFacts {
        version: count_member(members, "version"@),
        server_file_path: text_member(members, "server_file_path"@),
    }
}

/// The facts in the text of a configuration, or the parser's message.
pub open spec fn facts_in_text(text: Seq<char>) -> Result<ConfigFacts<Seq<char>>, Seq<char>> {
    match json_text_members(text) {
        Ok(m) => Ok(facts_in(members_or_none(m))),
        Err(e) => Err(e),
    }
}

/// Picks the facts out of the members of a configuration.
pub fn facts_of(members: &Vec<(String, JsonMember)>) -> (r: ConfigFacts)
    ensures
        r@ == facts_in(members_of(members@)),
{
    ConfigFacts {
        version: get_count(members, "version"),
        server_file_path: get_text(members, "server_file_path"),
    }
}

/// Reads the facts from the text of a configuration.
pub fn read_facts(config_text: &str) -> (r: Result<ConfigFacts, String>)
    ensures
        match r {
            Ok(f) => facts_in_text(config_text@) == Ok::<ConfigFacts<Seq<char>>, Seq<char>>(f@),
            Err(e) => facts_in_text(config_text@) == Err::<ConfigFacts<Seq<char>>, Seq<char>>(e@),
        },
{
    match json_members(config_text) {
        Ok(Some(m)) => Ok(facts_of(&m)),
        Ok(None) => {
            let none: Vec<(String, JsonMember)> = Vec::new();
            proof {
                assert(members_of(none@) =~= Seq::empty());
            }
            Ok(facts_of(&none))
        },
        Err(e) => Err(e),
    }
}

/// The version that a number in a configuration means: its lower 32 bits, and
/// zero where there is none.
pub open spec fn version_number(version: Option<u64>) -> nat {
    match version {
        Some(n) => n as nat % 0x1_0000_0000,
        None => 0,
    }
}

/// Whether a configuration is older than what this release writes.
pub open spec fn outdated(facts: ConfigFacts<Seq<char>>) -> bool {
    version_number(facts.version) < PROTOCOL_VERSION
}

/// Decides whether a configuration is older than what this release writes.
pub fn is_outdated(facts: &ConfigFacts) -> (r: bool)
    ensures
        r == outdated(facts@),
{
    let n: u64 = match facts.version {
        Some(n) => n % 0x1_0000_0000,
        None => 0,
    };
    n < PROTOCOL_VERSION as u64
}

/// The database that belongs to a configuration: beside the file of servers
/// that it names, or else in the program's directory.
pub open spec fn database_beside(
    facts: ConfigFacts<Seq<char>>,
    dir: Seq<char>,
    windows: bool,
) -> Seq<char> {
    match facts.server_file_path {
        Some(p) => match parent_of(with_forward_slashes(p, windows)) {
            Some(d) => joined(d, "server.db"@),
            None => joined(dir, "server.db"@),
        },
        None => joined(dir, "server.db"@),
    }
}

/// Finds the database that belongs to a configuration.
pub fn database_of(facts: &ConfigFacts, dir: &str, windows: bool) -> (r: String)
    ensures
        r@ == database_beside(facts@, dir@, windows),
{
    match &facts.server_file_path {
        Some(p) => match parent(with_slashes(p.as_str(), windows).as_str()) {
            Some(d) => join(d.as_str(), "server.db"),
            None => join(dir, "server.db"),
        },
        None => join(dir, "server.db"),
    }
}

/// Whether a start has to upgrade first.
#[derive(Debug, Clone, Copy, PartialEq, Eq, Structural)]
pub enum UpgradeNeed {
    /// There is a database already, but the configuration has no version.
    DatabaseFound,
    /// The configuration is older than what this release writes.
    Outdated,
    /// Nothing has to be done.
    Current,
}

/// Decides whether a start has to upgrade first. `loaded` is the version of
/// the configuration that the run has loaded.
pub fn check_and_upgrade_if_needed(
    facts: &ConfigFacts,
    database_exists: bool,
    loaded: Option<u32>,
) -> (r: UpgradeNeed)
    ensures
        r == if database_exists && loaded is None {
            UpgradeNeed::DatabaseFound
        } else if outdated(facts@) {
            UpgradeNeed::Outdated
        } else {
            UpgradeNeed::Current
        },
{
    if database_exists && loaded.is_none() {
        UpgradeNeed::DatabaseFound
    } else if is_outdated(facts) {
        UpgradeNeed::Outdated
    } else {
        UpgradeNeed::Current
    }
}

/// What is told before and after an upgrade that a start needs.
pub open spec fn upgrade_notices(need: UpgradeNeed, database: Seq<char>) -> (
    Option<Seq<char>>,
    Option<Seq<char>>,
) {
    match need {
        UpgradeNeed::DatabaseFound => (
            Some(
                "   ⚠️  Detected existing server.db at "@ + database
                    + ", running upgrade to update config.json..."@,
            ),
            None,
        ),
        UpgradeNeed::Outdated => (
            Some("🔄 Detected outdated configuration, running automatic upgrade..."@),
            Some(
                "✅ Automatic upgrade completed. Continuing with application startup..."@,
            ),
        ),
        UpgradeNeed::Current => (None, None),
    }
}

/// Writes what is told before and after an upgrade that a start needs.
pub fn upgrade_lines(need: UpgradeNeed, database: &str) -> (r: (Option<String>, Option<String>))
    ensures
        (opt(r.0), opt(r.1)) == upgrade_notices(need, database@),
{
    match need {
        UpgradeNeed::DatabaseFound => (
            Some(
                cat3(
                    "   ⚠️  Detected existing server.db at ",
                    database,
                    ", running upgrade to update config.json...",
                ),
            ),
            None,
        ),
        UpgradeNeed::Outdated => (
            Some(
                "🔄 Detected outdated configuration, running automatic upgrade...".to_owned(),
            ),
            Some(
                "✅ Automatic upgrade completed. Continuing with application startup...".to_owned(),
            ),
        ),
        UpgradeNeed::Current => (None, None),
    }
}

/// A configuration that carries the present version needs no upgrade.
pub proof fn written_version_is_current(facts: ConfigFacts<Seq<char>>)
    requires
        facts.version == Some(PROTOCOL_VERSION as u64),
    ensures
        !outdated(facts),
{
}

/// A configuration is read by its members: the version is the number under its
/// name, the file of servers the text under its own; what is of another kind,
/// or missing, is not read. The message of the parser is handed on.
pub proof fn facts_are_read_from_the_members(
    text: Seq<char>,
    members: Seq<(Seq<char>, JsonMember<Seq<char>>)>,
    n: u64,
    p: Seq<char>,
)
    requires
        json_text_members(text) == Ok::<
            Option<Seq<(Seq<char>, JsonMember<Seq<char>>)>>,
            Seq<char>,
        >(Some(members)),
    ensures
        facts_in_text(text) matches Ok(facts) && {
            &&& facts.version == Some(n) <==> lookup(members, "version"@) == Some(
                JsonMember::<Seq<char>>::Number(Some(n)),
            )
            &&& facts.server_file_path == Some(p) <==> lookup(members, "server_file_path"@) == Some(
                JsonMember::Text(p),
            )
        },
{
}

/// A text that is no JSON gives no facts but the message of the parser; one
/// that holds no object names neither a version nor a file.
pub proof fn unreadable_configuration_is_told(text: Seq<char>, e: Seq<char>)
    ensures
        facts_in_text(text) == Err::<ConfigFacts<Seq<char>>, Seq<char>>(e) <==> json_text_members(
            text,
        ) == Err::<Option<Seq<(Seq<char>, JsonMember<Seq<char>>)>>, Seq<char>>(e),
        json_text_members(text) == Ok::<
            Option<Seq<(Seq<char>, JsonMember<Seq<char>>)>>,
            Seq<char>,
        >(None) ==> (facts_in_text(text) matches Ok(facts) && facts.version is None
            && facts.server_file_path is None),
{
}

/// A configuration without a version is outdated, and one with a version is
/// just where the version is below two; beyond 32 bits the version starts anew.
pub proof fn old_versions_are_outdated(facts: ConfigFacts<Seq<char>>)
    ensures
        facts.version is None ==> outdated(facts),
        facts.version matches Some(n) ==> (n < 0x1_0000_0000 ==> (outdated(facts) <==> n < 2)),
        forall|k: u32|
            #![trigger version_number(Some(k as u64))]
            version_number(Some(k as u64)) == k,
        forall|n: u64|
            #![trigger version_number(Some(n))]
            n >= 0x1_0000_0000 ==> version_number(Some(n)) == version_number(
                Some((n - 0x1_0000_0000) as u64),
            ),
{
    assert forall|n: u64|
        #![trigger version_number(Some(n))]
        n >= 0x1_0000_0000 implies version_number(Some(n)) == version_number(
        Some((n - 0x1_0000_0000) as u64),
    ) by {
        assert(n as nat % 0x1_0000_0000 == (n - 0x1_0000_0000) as nat % 0x1_0000_0000);
    }
}

/// The database lies beside the file of servers that the configuration names,
/// and in the directory of the program where it names none.
pub proof fn database_lies_beside_the_servers(
    facts: ConfigFacts<Seq<char>>,
    dir: Seq<char>,
    windows: bool,
    place: Seq<char>,
    name: Seq<char>,
)
    requires
        dir.len() > 0,
        dir.last() != '/',
        place.len() > 0,
        place.last() != '/',
        bare(place) == place,
        !place.contains('\\'),
        !name.contains('\\'),
        is_step_down(name),
        !name.contains('/'),
    ensures
        facts.server_file_path == Some(place + seq!['/'] + name) ==> database_beside(
            facts,
            dir,
            windows,
        ) == place + "/server.db"@,
        facts.server_file_path is None ==> database_beside(facts, dir, windows) == dir
            + "/server.db"@,
{
    reveal_strlit("/server.db");
    reveal_strlit("server.db");
    crate::paths::join_then_split(place, name);
    assert(name[0] != '/') by {
        assert(name.contains(name[0]));
    }
    let p = place + seq!['/'] + name;
    assert(joined(place, name) == p);
    assert(with_forward_slashes(p, windows) =~= p) by {
        assert forall|j: int| 0 <= j < p.len() implies p[j] != '\\' by {
            if j < place.len() {
                assert(place.contains(place[j]));
            } else if j > place.len() {
                assert(name.contains(name[j - place.len() - 1]));
            }
        }
    }
    assert(joined(place, "server.db"@) =~= place + "/server.db"@);
    assert(joined(dir, "server.db"@) =~= dir + "/server.db"@);
}

/// Nothing is told where nothing has to be done. Before an upgrade something
/// always is, and a database that was found is named.
pub proof fn upgrades_are_announced(need: UpgradeNeed, database: Seq<char>)
    ensures
        upgrade_notices(need, database).0 is None <==> need == UpgradeNeed::Current,
        upgrade_notices(need, database).1 is Some <==> need == UpgradeNeed::Outdated,
        need == UpgradeNeed::DatabaseFound ==> has_part(
            upgrade_notices(need, database).0->Some_0,
            database,
        ),
{
    lemma_part_between(
        "   ⚠️  Detected existing server.db at "@,
        database,
        ", running upgrade to update config.json..."@,
    );
}

// ---------------------------------------------------------------------------
// Servers of earlier releases
// ---------------------------------------------------------------------------

/// The server that a record of an earlier release holds. One that lacks the
/// user, the address or the port holds none. Of the port the lower 16 bits
/// count.
pub open spec fn legacy_server(
    alias: Seq<char>,
    members: Seq<(Seq<char>, JsonMember<Seq<char>>)>,
) -> Option<Server<Seq<char>>> {
    match (
        text_member(members, "username"@),
        text_member(members, "address"@),
        count_member(members, "port"@),
    ) {
        (Some(username), Some(address), Some(port)) => Some(
            Server {
                id: None,
                alias: Some(alias),
                username,
                address,
                port: (port as nat % 0x1_0000) as u16,
                last_connect: None,
            },
        ),
        _ => None,
    }
}

/// Picks a server out of the members of its record.
pub fn legacy_server_of(alias: &str, members: &Vec<(String, JsonMember)>) -> (r: Option<Server>)
    ensures
        match r {
            Some(s) => legacy_server(alias@, members_of(members@)) == Some(s@),
            None => legacy_server(alias@, members_of(members@)) is None,
        },
{
    let username = get_text(members, "username");
    let address = get_text(members, "address");
    let port = get_count(members, "port");
    match (username, address, port) {
        (Some(username), Some(address), Some(port)) => Some(
            Server {
                id: None,
                alias: Some(alias.to_owned()),
                username,
                address,
                port: (port % 0x1_0000) as u16,
                last_connect: None,
            },
        ),
        _ => None,
    }
}

/// The server in a member of the list of servers.
pub open spec fn legacy_member(
    alias: Seq<char>,
    member: JsonMember<Seq<char>>,
) -> Option<Server<Seq<char>>> {
    match member {
        JsonMember::Object(text) => match json_text_members(text) {
            Ok(Some(members)) => legacy_server(alias, members),
            _ => None,
        },
        _ => None,
    }
}

fn legacy_member_of(alias: &str, member: &JsonMember) -> (r: Option<Server>)
    ensures
        match r {
            Some(s) => legacy_member(alias@, member@) == Some(s@),
            None => legacy_member(alias@, member@) is None,
        },
{
    match member {
        JsonMember::Object(text) => match json_members(text.as_str()) {
            Ok(Some(members)) => legacy_server_of(alias, &members),
            _ => None,
        },
        _ => None,
    }
}

/// The servers of a list of members, of which a later one replaces an earlier
/// one with its alias.
pub open spec fn legacy_list(members: Seq<(Seq<char>, JsonMember<Seq<char>>)>) -> Hosts
    decreases members.len(),
{
    if members.len() == 0 {
        Seq::empty()
    } else {
        let before = legacy_list(members.drop_last());
        match legacy_member(members.last().0, members.last().1) {
            Some(s) => put(before, members.last().0, s),
            None => before,
        }
    }
}

/// Collects the servers of a list of members.
pub fn legacy_list_of(members: &Vec<(String, JsonMember)>) -> (r: ServerCollection)
    ensures
        r@ == legacy_list(members_of(members@)),
{
    let ghost all = members_of(members@);
    let mut r = ServerCollection::default();
    let mut i: usize = 0;
    while i < members.len()
        invariant
            i <= members.len(),
            all == members_of(members@),
            r@ == legacy_list(all.take(i as int)),
        decreases members.len() - i,
    {
        proof {
            let next = all.take(i + 1);
            assert(next.drop_last() =~= all.take(i as int));
            assert(next.last() == (members@[i as int].0@, members@[i as int].1@));
        }
        match legacy_member_of(members[i].0.as_str(), &members[i].1) {
            Some(s) => {
                r.insert(members[i].0.as_str(), s);
            },
            None => {},
        }
        i = i + 1;
    }
    proof {
        assert(all.take(i as int) =~= all);
    }
    r
}

/// The servers in the text of a server file, or the parser's message.
pub open spec fn legacy_hosts(text: Seq<char>) -> Result<Hosts, Seq<char>> {
    match json_text_members(text) {
        Ok(m) => match lookup(members_or_none(m), "hosts"@) {
            Some(JsonMember::Object(list)) => match json_text_members(list) {
                Ok(Some(members)) => Ok(legacy_list(members)),
                _ => Ok(Seq::empty()),
            },
            _ => Ok(Seq::empty()),
        },
        Err(e) => Err(e),
    }
}

/// Reads the servers from the text of a server file.
pub fn read_legacy_hosts(server_text: &str) -> (r: Result<ServerCollection, String>)
    ensures
        match r {
            Ok(c) => legacy_hosts(server_text@) == Ok::<Hosts, Seq<char>>(c@),
            Err(e) => legacy_hosts(server_text@) == Err::<Hosts, Seq<char>>(e@),
        },
{
    match json_members(server_text) {
        Ok(Some(m)) => match find_member(&m, "hosts") {
            Some(i) => match &m[i].1 {
                JsonMember::Object(list) => match json_members(list.as_str()) {
                    Ok(Some(members)) => Ok(legacy_list_of(&members)),
                    _ => Ok(ServerCollection::default()),
                },
                _ => Ok(ServerCollection::default()),
            },
            None => Ok(ServerCollection::default()),
        },
        Ok(None) => Ok(ServerCollection::default()),
        Err(e) => Err(e),
    }
}

/// A record of an earlier release gives a server just where it names a user, an
/// address and a port. That server has the alias of the record and what the
/// record names, and was not connected to yet.
pub proof fn legacy_record_gives_its_server(
    alias: Seq<char>,
    members: Seq<(Seq<char>, JsonMember<Seq<char>>)>,
    username: Seq<char>,
    address: Seq<char>,
    port: u64,
)
    ensures
        legacy_server(alias, members) is Some <==> {
            &&& lookup(members, "username"@) matches Some(u) && u is Text
            &&& lookup(members, "address"@) matches Some(a) && a is Text
            &&& lookup(members, "port"@) matches Some(p) && p is Number && p->Number_0 is Some
        },
        lookup(members, "username"@) == Some(JsonMember::Text(username)) && lookup(
            members,
            "address"@,
        ) == Some(JsonMember::Text(address)) && lookup(members, "port"@) == Some(
            JsonMember::<Seq<char>>::Number(Some(port)),
        ) ==> (legacy_server(alias, members) matches Some(s) && {
            &&& s.alias == Some(alias)
            &&& s.username == username
            &&& s.address == address
            &&& port < 0x1_0000 ==> s.port == port
            &&& s.last_connect is None
            &&& s.id is None
        }),
{
}

/// Legacy servers are taken in turn: each takes its alias, over an earlier one
/// of that alias, and leaves the others; what is no server changes nothing.
pub proof fn legacy_servers_are_taken_in_turn(
    members: Seq<(Seq<char>, JsonMember<Seq<char>>)>,
    alias: Seq<char>,
    text: Seq<char>,
    record: Seq<(Seq<char>, JsonMember<Seq<char>>)>,
    other: Seq<char>,
)
    requires
        json_text_members(text) == Ok::<
            Option<Seq<(Seq<char>, JsonMember<Seq<char>>)>>,
            Seq<char>,
        >(Some(record)),
    ensures
        ({
            let after = legacy_list(members.push((alias, JsonMember::Object(text))));
            &&& ascending(after)
            &&& legacy_server(alias, record) is Some ==> host(after, alias) == legacy_server(
                alias,
                record,
            )
            &&& legacy_server(alias, record) is None ==> after == legacy_list(members)
            &&& other != alias ==> host(after, other) == host(legacy_list(members), other)
        }),
        legacy_list(Seq::empty()).len() == 0,
{
    let all = members.push((alias, JsonMember::Object(text)));
    lemma_legacy_list_in_order(members);
    lemma_legacy_list_in_order(all);
    assert(all.drop_last() =~= members);
    match legacy_server(alias, record) {
        Some(s) => {
            crate::server::put_then_find(legacy_list(members), alias, s, other);
        },
        None => {},
    }
}

/// What is no record holds no server.
pub proof fn other_members_hold_no_server(alias: Seq<char>, member: JsonMember<Seq<char>>)
    ensures
        !(member is Object) ==> legacy_member(alias, member) is None,
        member matches JsonMember::Object(text) ==> (!(json_text_members(text) matches Ok(Some(_)))
            ==> legacy_member(alias, member) is None),
{
}

/// Legacy servers stand in the order of their aliases.
proof fn lemma_legacy_list_in_order(members: Seq<(Seq<char>, JsonMember<Seq<char>>)>)
    ensures
        ascending(legacy_list(members)),
    decreases members.len(),
{
    if members.len() > 0 {
        let front = members.drop_last();
        lemma_legacy_list_in_order(front);
        match legacy_member(members.last().0, members.last().1) {
            Some(s) => {
                crate::server::put_keeps_order(legacy_list(front), members.last().0, s);
            },
            None => {},
        }
    }
}

/// The servers of a file are those of the list under `hosts`. Where there is no
/// such list there is none; a file that cannot be read gives the message.
pub proof fn legacy_servers_are_under_hosts(
    text: Seq<char>,
    members: Seq<(Seq<char>, JsonMember<Seq<char>>)>,
    list: Seq<char>,
    servers: Seq<(Seq<char>, JsonMember<Seq<char>>)>,
)
    ensures
        json_text_members(text) == Ok::<
            Option<Seq<(Seq<char>, JsonMember<Seq<char>>)>>,
            Seq<char>,
        >(Some(members)) && lookup(members, "hosts"@) == Some(JsonMember::Object(list))
            && json_text_members(list) == Ok::<
            Option<Seq<(Seq<char>, JsonMember<Seq<char>>)>>,
            Seq<char>,
        >(Some(servers)) ==> legacy_hosts(text) == Ok::<Hosts, Seq<char>>(legacy_list(servers)),
        json_text_members(text) == Ok::<
            Option<Seq<(Seq<char>, JsonMember<Seq<char>>)>>,
            Seq<char>,
        >(Some(members)) && !(lookup(members, "hosts"@) matches Some(JsonMember::Object(_)))
            ==> legacy_hosts(text) == Ok::<Hosts, Seq<char>>(Seq::empty()),
        json_text_members(text) matches Err(e) ==> legacy_hosts(text) == Err::<Hosts, Seq<char>>(e),
        json_text_members(text) is Ok ==> legacy_hosts(text) is Ok,
{
}

// ---------------------------------------------------------------------------
// Backups
// ---------------------------------------------------------------------------

/// A file that is backed up: where it is, where the copy goes, and what is
/// told when it was made.
pub struct BackupCopy<S = String> {
    pub from: S,
    pub to: S,
    pub message: S,
}

impl View for BackupCopy<String> {
    type V = BackupCopy<Seq<char>>;

    open spec fn view(&self) -> BackupCopy<Seq<char>> {
        BackupCopy { from: self.from@, to: self.to@, message: self.message@ }
    }
}

/// The backup of one file.
pub open spec fn backup(
    from: Seq<char>,
    dir: Seq<char>,
    prefix: Seq<char>,
    stamp: Seq<char>,
    suffix: Seq<char>,
    tell: Seq<char>,
) -> BackupCopy<Seq<char>> {
    let to = joined(joined(dir, "backups"@), prefix + stamp + suffix);
    BackupCopy { from, to, message: tell + to }
}

fn make_backup(
    from: &str,
    dir: &str,
    prefix: &str,
    stamp: &str,
    suffix: &str,
    tell: &str,
) -> (r: BackupCopy)
    ensures
        r@ == backup(from@, dir@, prefix@, stamp@, suffix@, tell@),
{
    let to = join(join(dir, "backups").as_str(), cat3(prefix, stamp, suffix).as_str());
    let message = cat2(tell, to.as_str());
    BackupCopy { from: from.to_owned(), to, message }
}

/// A file that may be there: its path, where one is known, and whether it
/// exists.
pub open spec fn present(file: Option<Seq<char>>, exists_now: bool) -> bool {
    file is Some && exists_now
}

/// The backups of an upgrade: of the configuration, of the file of servers and
/// of the database, each where it exists.
pub open spec fn backups(
    dir: Seq<char>,
    stamp: Seq<char>,
    config_exists: bool,
    server_json: Option<Seq<char>>,
    json_exists: bool,
    server_db: Option<Seq<char>>,
    db_exists: bool,
) -> Seq<BackupCopy<Seq<char>>> {
    let a = if config_exists {
        seq![
            backup(
                joined(dir, "config.json"@),
                dir,
                "config_"@,
                stamp,
                ".json"@,
                "   📋 Backed up config.json to: "@,
            ),
        ]
    } else {
        Seq::empty()
    };
    let b = if present(server_json, json_exists) {
        seq![
            backup(
                server_json->Some_0,
                dir,
                "server_"@,
                stamp,
                ".json"@,
                "   🖥️  Backed up server.json to: "@,
            ),
        ]
    } else {
        Seq::empty()
    };
    let c = if present(server_db, db_exists) {
        seq![
            backup(
                server_db->Some_0,
                dir,
                "server_"@,
                stamp,
                ".db"@,
                "   🗄️  Backed up server.db to: "@,
            ),
        ]
    } else {
        Seq::empty()
    };
    a + b + c
}

/// Plans the backups of an upgrade, which carry a time in their names.
pub fn backup_plan(
    dir: &str,
    stamp: &str,
    config_exists: bool,
    server_json_path: &Option<String>,
    json_exists: bool,
    server_db_path: &Option<String>,
    db_exists: bool,
) -> (r: Vec<BackupCopy>)
    ensures
        r@.map_values(|c: BackupCopy| c@) == backups(
            dir@,
            stamp@,
            config_exists,
            opt(*server_json_path),
            json_exists,
            opt(*server_db_path),
            db_exists,
        ),
{
    let mut v: Vec<BackupCopy> = Vec::new();
    if config_exists {
        v.push(
            make_backup(
                join(dir, "config.json").as_str(),
                dir,
                "config_",
                stamp,
                ".json",
                "   📋 Backed up config.json to: ",
            ),
        );
    }
    if let Some(p) = server_json_path {
        if json_exists {
            v.push(
                make_backup(
                    p.as_str(),
                    dir,
                    "server_",
                    stamp,
                    ".json",
                    "   🖥️  Backed up server.json to: ",
                ),
            );
        }
    }
    if let Some(p) = server_db_path {
        if db_exists {
            v.push(
                make_backup(
                    p.as_str(),
                    dir,
                    "server_",
                    stamp,
                    ".db",
                    "   🗄️  Backed up server.db to: ",
                ),
            );
        }
    }
    proof {
        assert(v@.map_values(|c: BackupCopy| c@) =~= backups(
            dir@,
            stamp@,
            config_exists,
            opt(*server_json_path),
            json_exists,
            opt(*server_db_path),
            db_exists,
        ));
    }
    v
}

/// The present time for the name of a backup, by `chrono::Utc::now` and its
/// formatting to year, month, day, hour, minute and second. Nothing is claimed
/// of it: it depends on the clock.
#[verifier::external_body]
fn time_stamp() -> (r: String) {
    chrono::Utc::now().format("%Y%m%d_%H%M%S").to_string()
}

/// Plans the backups of an upgrade at the present time.
pub fn backup_existing_files_with_paths(
    dir: &str,
    config_exists: bool,
    server_json_path: &Option<String>,
    json_exists: bool,
    server_db_path: &Option<String>,
    db_exists: bool,
) -> (r: Vec<BackupCopy>)
    ensures
        exists|stamp: Seq<char>|
            r@.map_values(|c: BackupCopy| c@) == #[trigger] backups(
                dir@,
                stamp,
                config_exists,
                opt(*server_json_path),
                json_exists,
                opt(*server_db_path),
                db_exists,
            ),
{
    let stamp = time_stamp();
    backup_plan(
        dir,
        stamp.as_str(),
        config_exists,
        server_json_path,
        json_exists,
        server_db_path,
        db_exists,
    )
}

/// Every file that exists is backed up, once, and no other is: the copy goes
/// from that file into the directory of the backups, carries the time in its
/// name, and is told.
pub proof fn existing_files_are_backed_up(
    dir: Seq<char>,
    stamp: Seq<char>,
    config_exists: bool,
    server_json: Option<Seq<char>>,
    json_exists: bool,
    server_db: Option<Seq<char>>,
    db_exists: bool,
)
    requires
        dir.len() > 0,
        dir.last() != '/',
    ensures
        ({
            let all = backups(
                dir,
                stamp,
                config_exists,
                server_json,
                json_exists,
                server_db,
                db_exists,
            );
            let json = json_exists && server_json is Some;
            let db = db_exists && server_db is Some;
            let first = if config_exists { 1int } else { 0 };
            let second = if json { first + 1 } else { first };
            &&& all.len() == if db { second + 1 } else { second }
            &&& config_exists ==> all[0].from == dir + "/config.json"@ && all[0].to == dir
                + "/backups/config_"@ + stamp + ".json"@
            &&& json ==> all[first].from == server_json->Some_0 && all[first].to == dir
                + "/backups/server_"@ + stamp + ".json"@
            &&& db ==> all[second].from == server_db->Some_0 && all[second].to == dir
                + "/backups/server_"@ + stamp + ".db"@
            &&& forall|i: int| 0 <= i < all.len() ==> has_part((#[trigger] all[i]).message, all[i].to)
        }),
{
    let all = backups(dir, stamp, config_exists, server_json, json_exists, server_db, db_exists);
    reveal_strlit("/config.json");
    reveal_strlit("config.json");
    reveal_strlit("/backups/config_");
    reveal_strlit("/backups/server_");
    reveal_strlit("backups");
    reveal_strlit("config_");
    reveal_strlit("server_");
    assert(joined(dir, "config.json"@) =~= dir + "/config.json"@);
    let store = joined(dir, "backups"@);
    assert(store.last() == 's');
    let a = joined(store, "config_"@ + stamp + ".json"@);
    let b = joined(store, "server_"@ + stamp + ".json"@);
    let c = joined(store, "server_"@ + stamp + ".db"@);
    assert(("config_"@ + stamp + ".json"@)[0] == 'c');
    assert(("server_"@ + stamp + ".json"@)[0] == 's');
    assert(("server_"@ + stamp + ".db"@)[0] == 's');
    assert(a =~= dir + "/backups/config_"@ + stamp + ".json"@);
    assert(b =~= dir + "/backups/server_"@ + stamp + ".json"@);
    assert(c =~= dir + "/backups/server_"@ + stamp + ".db"@);
    lemma_part_behind("   📋 Backed up config.json to: "@, a);
    lemma_part_behind("   🖥️  Backed up server.json to: "@, b);
    lemma_part_behind("   🗄️  Backed up server.db to: "@, c);
}

// ---------------------------------------------------------------------------
// The upgrade
// ---------------------------------------------------------------------------

/// What the upgrade waits for.
#[derive(Debug, Clone, Copy, PartialEq, Eq, Structural)]
pub enum UpgradeStage {
    /// The text of the configuration.
    Config,
    /// What came of the backups.
    Backup,
    /// What the file of servers holds.
    Servers,
    /// What came of writing the database.
    Store,
    /// What came of writing the configuration.
    Write,
    Over,
}

/// What was found out for the upgrade.
pub enum UpgradeEvent<S = String> {
    ConfigText(S),
    Worked,
    /// The text of the file of servers, where the file exists.
    ServersText(Option<S>),
    Failed(S),
}

impl View for UpgradeEvent<String> {
    type V = UpgradeEvent<Seq<char>>;

    open spec fn view(&self) -> UpgradeEvent<Seq<char>> {
        match self {
            UpgradeEvent::ConfigText(t) => UpgradeEvent::ConfigText(t@),
            UpgradeEvent::Worked => UpgradeEvent::Worked,
            UpgradeEvent::ServersText(t) => UpgradeEvent::ServersText(opt(*t)),
            UpgradeEvent::Failed(e) => UpgradeEvent::Failed(e@),
        }
    }
}

/// What to do next for the upgrade.
pub enum UpgradeStep<S = String> {
    /// Back up the configuration, the file of servers and the database.
    Backup { server_json: Option<S>, server_db: S },
    /// Read the file of servers, where it exists.
    ReadServers(S),
    /// Create the database and write the servers of the upgrade to it.
    Store(S),
    /// Put this database and version into the configuration and write it.
    WriteConfig { server_file_path: S, version: u32 },
    /// It is done.
    Done,
    Fail(S),
}

impl View for UpgradeStep<String> {
    type V = UpgradeStep<Seq<char>>;

    open spec fn view(&self) -> UpgradeStep<Seq<char>> {
        match self {
            UpgradeStep::Backup { server_json, server_db } => UpgradeStep::Backup {
                server_json: opt(*server_json),
                server_db: server_db@,
            },
            UpgradeStep::ReadServers(p) => UpgradeStep::ReadServers(p@),
            UpgradeStep::Store(p) => UpgradeStep::Store(p@),
            UpgradeStep::WriteConfig { server_file_path, version } => UpgradeStep::WriteConfig {
                server_file_path: server_file_path@,
                version: *version,
            },
            UpgradeStep::Done => UpgradeStep::Done,
            UpgradeStep::Fail(e) => UpgradeStep::Fail(e@),
        }
    }
}

/// An upgrade as mathematical values.
pub struct UpgradeView {
    pub dir: Seq<char>,
    pub windows: bool,
    pub server_json: Option<Seq<char>>,
    pub database: Seq<char>,
    pub hosts: Hosts,
    pub stage: UpgradeStage,
}

/// The upgrade of a configuration and its data.
pub struct Upgrade {
    pub dir: String,
    /// Whether the program runs on Windows.
    pub windows: bool,
    /// The file of servers of the earlier release.
    pub server_json: Option<String>,
    pub database: String,
    /// The servers that go into the database.
    pub servers: ServerCollection,
    pub stage: UpgradeStage,
}

impl View for Upgrade {
    type V = UpgradeView;

    open spec fn view(&self) -> UpgradeView {
        UpgradeView {
            dir: self.dir@,
            windows: self.windows,
            server_json: opt(self.server_json),
            database: self.database@,
            hosts: self.servers@,
            stage: self.stage,
        }
    }
}

/// The line that says how many servers were taken over.
pub open spec fn migrated_line(count: nat) -> Seq<char> {
    "   📦 Migrated "@ + decimal(count) + " servers from server.json"@
}

impl UpgradeView {
    pub open spec fn expects(self, event: UpgradeEvent<Seq<char>>) -> bool {
        match event {
            UpgradeEvent::ConfigText(_) => self.stage == UpgradeStage::Config,
            UpgradeEvent::Worked => self.stage == UpgradeStage::Backup || self.stage
                == UpgradeStage::Store || self.stage == UpgradeStage::Write,
            UpgradeEvent::ServersText(_) => self.stage == UpgradeStage::Servers,
            UpgradeEvent::Failed(_) => self.stage != UpgradeStage::Over,
        }
    }

    pub open spec fn at(self, stage: UpgradeStage) -> Self {
        UpgradeView { stage, ..self }
    }

    /// With these servers, on to the database.
    pub open spec fn with(self, hosts: Hosts, told: Seq<char>) -> (
        Self,
        Seq<Seq<char>>,
        UpgradeStep<Seq<char>>,
    ) {
        (
            UpgradeView { hosts, stage: UpgradeStage::Store, ..self },
            seq![told, "🗄️  Creating SQLite database and saving data..."@],
            UpgradeStep::Store(self.database),
        )
    }

    /// The state after an event, what to tell the user, and what to do then.
    pub open spec fn next(self, event: UpgradeEvent<Seq<char>>) -> (
        Self,
        Seq<Seq<char>>,
        UpgradeStep<Seq<char>>,
    ) {
        match event {
            UpgradeEvent::ConfigText(text) => match facts_in_text(text) {
                Err(e) => (self.at(UpgradeStage::Over), Seq::empty(), UpgradeStep::Fail(e)),
                Ok(facts) => if !outdated(facts) {
                    (
                        self.at(UpgradeStage::Over),
                        seq![
                            "✅ HostPilot is already at the latest version (v"@ + decimal(
                                PROTOCOL_VERSION as nat,
                            ) + ")"@,
                        ],
                        UpgradeStep::Done,
                    )
                } else {
                    let database = database_beside(facts, self.dir, self.windows);
                    (
                        UpgradeView {
                            server_json: facts.server_file_path,
                            database,
                            stage: UpgradeStage::Backup,
                            ..self
                        },
                        seq![
                            "🔄 Starting HostPilot upgrade process..."@,
                            "💾 Creating backup of existing configuration files..."@,
                        ],
                        UpgradeStep::Backup {
                            server_json: facts.server_file_path,
                            server_db: database,
                        },
                    )
                },
            },
            UpgradeEvent::Worked => if self.stage == UpgradeStage::Backup {
                match self.server_json {
                    Some(p) => (
                        self.at(UpgradeStage::Servers),
                        seq!["📖 Reading and migrating server.json data..."@],
                        UpgradeStep::ReadServers(p),
                    ),
                    None => (
                        UpgradeView { hosts: Seq::empty(), stage: UpgradeStage::Store, ..self },
                        seq![
                            "📖 Reading and migrating server.json data..."@,
                            "   ⚠️  Old config has no server_file_path, creating empty database"@,
                            "🗄️  Creating SQLite database and saving data..."@,
                        ],
                        UpgradeStep::Store(self.database),
                    ),
                }
            } else if self.stage == UpgradeStage::Store {
                (
                    self.at(UpgradeStage::Write),
                    seq!["📝 Updating config.json..."@],
                    UpgradeStep::WriteConfig {
                        server_file_path: self.database,
                        version: PROTOCOL_VERSION,
                    },
                )
            } else {
                (
                    self.at(UpgradeStage::Over),
                    seq![
                        "✅ Upgrade completed successfully!"@,
                        "📋 Current protocol version: "@ + decimal(PROTOCOL_VERSION as nat),
                        "💾 Migrated "@ + decimal(self.hosts.len()) + " servers to SQLite database"@,
                        "📋 server.json preserved as backup"@,
                    ],
                    UpgradeStep::Done,
                )
            },
            UpgradeEvent::ServersText(None) => self.with(
                Seq::empty(),
                "   ⚠️  server.json not found at old path, creating empty database"@,
            ),
            UpgradeEvent::ServersText(Some(text)) => match legacy_hosts(text) {
                Err(e) => (self.at(UpgradeStage::Over), Seq::empty(), UpgradeStep::Fail(e)),
                Ok(hosts) => self.with(hosts, migrated_line(hosts.len())),
            },
            UpgradeEvent::Failed(e) => (
                self.at(UpgradeStage::Over),
                Seq::empty(),
                UpgradeStep::Fail(e),
            ),
        }
    }
}

fn list0() -> (r: Vec<String>)
    ensures
        texts(r@) == Seq::<Seq<char>>::empty(),
{
    let v: Vec<String> = Vec::new();
    proof {
        assert(texts(v@) =~= Seq::<Seq<char>>::empty());
    }
    v
}

fn list2(a: String, b: String) -> (r: Vec<String>)
    ensures
        texts(r@) == seq![a@, b@],
{
    let v = listed(list1(a), b);
    proof {
        assert(texts(v@) =~= seq![a@, b@]);
    }
    v
}

/// Starts the upgrade of the configuration in a directory. First its text has
/// to be read.
pub fn upgrade_config_and_data(dir: &str, windows: bool) -> (r: Upgrade)
    ensures
        r@ == (UpgradeView {
            dir: dir@,
            windows,
            server_json: None,
            database: Seq::empty(),
            hosts: Seq::empty(),
            stage: UpgradeStage::Config,
        }),
{
    let r = Upgrade {
        dir: dir.to_owned(),
        windows,
        server_json: None,
        database: String::new(),
        servers: ServerCollection::default(),
        stage: UpgradeStage::Config,
    };
    proof {
        assert(r@.database =~= Seq::<char>::empty());
    }
    r
}

impl Upgrade {
    fn store(&mut self, servers: ServerCollection, told: String) -> (r: (
        Vec<String>,
        UpgradeStep,
    ))
        ensures
            (final(self)@, texts(r.0@), r.1@) == old(self)@.with(servers@, told@),
    {
        self.servers = servers;
        self.stage = UpgradeStage::Store;
        (
            list2(told, "🗄️  Creating SQLite database and saving data...".to_owned()),
            UpgradeStep::Store(self.database.clone()),
        )
    }

    /// Takes in what was found out, and says what to tell the user and what to
    /// do next.
    pub fn advance(&mut self, event: UpgradeEvent) -> (r: (Vec<String>, UpgradeStep))
        requires
            old(self)@.expects(event@),
        ensures
            (final(self)@, texts(r.0@), r.1@) == old(self)@.next(event@),
    {
        match event {
            UpgradeEvent::ConfigText(text) => match read_facts(text.as_str()) {
                Err(e) => {
                    self.stage = UpgradeStage::Over;
                    (list0(), UpgradeStep::Fail(e))
                },
                Ok(facts) => {
                    if !is_outdated(&facts) {
                        self.stage = UpgradeStage::Over;
                        let line = list1(
                            cat3(
                                "✅ HostPilot is already at the latest version (v",
                                to_decimal(PROTOCOL_VERSION as u64).as_str(),
                                ")",
                            ),
                        );
                        (line, UpgradeStep::Done)
                    } else {
                        let database = database_of(&facts, self.dir.as_str(), self.windows);
                        self.server_json = copy_opt(&facts.server_file_path);
                        self.database = database.clone();
                        self.stage = UpgradeStage::Backup;
                        (
                            list2(
                                "🔄 Starting HostPilot upgrade process...".to_owned(),
                                "💾 Creating backup of existing configuration files...".to_owned(),
                            ),
                            UpgradeStep::Backup {
                                server_json: facts.server_file_path,
                                server_db: database,
                            },
                        )
                    }
                },
            },
            UpgradeEvent::Worked => match self.stage {
                UpgradeStage::Backup => match copy_opt(&self.server_json) {
                    Some(p) => {
                        self.stage = UpgradeStage::Servers;
                        (
                            list1("📖 Reading and migrating server.json data...".to_owned()),
                            UpgradeStep::ReadServers(p),
                        )
                    },
                    None => {
                        self.servers = ServerCollection::default();
                        self.stage = UpgradeStage::Store;
                        let lines = listed(
                            list2(
                                "📖 Reading and migrating server.json data...".to_owned(),
                                "   ⚠️  Old config has no server_file_path, creating empty database".to_owned(),
                            ),
                            "🗄️  Creating SQLite database and saving data...".to_owned(),
                        );
                        proof {
                            assert(texts(lines@) =~= seq![
                                "📖 Reading and migrating server.json data..."@,
                                "   ⚠️  Old config has no server_file_path, creating empty database"@,
                                "🗄️  Creating SQLite database and saving data..."@,
                            ]);
                        }
                        (lines, UpgradeStep::Store(self.database.clone()))
                    },
                },
                UpgradeStage::Store => {
                    self.stage = UpgradeStage::Write;
                    (
                        list1("📝 Updating config.json...".to_owned()),
                        UpgradeStep::WriteConfig {
                            server_file_path: self.database.clone(),
                            version: PROTOCOL_VERSION,
                        },
                    )
                },
                _ => {
                    self.stage = UpgradeStage::Over;
                    let count = to_decimal(self.servers.hosts().len() as u64);
                    let lines = listed(
                        listed(
                            list2(
                                "✅ Upgrade completed successfully!".to_owned(),
                                cat2(
                                    "📋 Current protocol version: ",
                                    to_decimal(PROTOCOL_VERSION as u64).as_str(),
                                ),
                            ),
                            cat3("💾 Migrated ", count.as_str(), " servers to SQLite database"),
                        ),
                        "📋 server.json preserved as backup".to_owned(),
                    );
                    proof {
                        assert(texts(lines@) =~= seq![
                            "✅ Upgrade completed successfully!"@,
                            "📋 Current protocol version: "@ + decimal(PROTOCOL_VERSION as nat),
                            "💾 Migrated "@ + decimal(self@.hosts.len())
                                + " servers to SQLite database"@,
                            "📋 server.json preserved as backup"@,
                        ]);
                    }
                    (lines, UpgradeStep::Done)
                },
            },
            UpgradeEvent::ServersText(None) => self.store(
                ServerCollection::default(),
                "   ⚠️  server.json not found at old path, creating empty database".to_owned(),
            ),
            UpgradeEvent::ServersText(Some(text)) => match read_legacy_hosts(text.as_str()) {
                Err(e) => {
                    self.stage = UpgradeStage::Over;
                    (list0(), UpgradeStep::Fail(e))
                },
                Ok(servers) => {
                    let count = to_decimal(servers.hosts().len() as u64);
                    self.store(
                        servers,
                        cat3("   📦 Migrated ", count.as_str(), " servers from server.json"),
                    )
                },
            },
            UpgradeEvent::Failed(e) => {
                self.stage = UpgradeStage::Over;
                (list0(), UpgradeStep::Fail(e))
            },
        }
    }
}

/// The configuration after an upgrade: with the database and its version.
pub fn upgraded_config(config: Config, server_file_path: String, version: u32) -> (r: Config)
    ensures
        r@ == (Config {
            server_file_path: server_file_path@,
            version: Some(version),
            ..config@
        }),
{
    let mut config = config;
    config.server_file_path = server_file_path;
    config.version = Some(version);
    config
}

/// How far the upgrade is from its end.
pub open spec fn upgrade_distance(stage: UpgradeStage) -> nat {
    match stage {
        UpgradeStage::Config => 5,
        UpgradeStage::Backup => 4,
        UpgradeStage::Servers => 3,
        UpgradeStage::Store => 2,
        UpgradeStage::Write => 1,
        UpgradeStage::Over => 0,
    }
}

/// Every step brings the upgrade nearer to its end. Nothing is written before
/// the backups have been made, and the configuration is only written once the
/// database is.
pub proof fn upgrade_backs_up_first(u: UpgradeView, event: UpgradeEvent<Seq<char>>)
    requires
        u.expects(event),
    ensures
        upgrade_distance(u.next(event).0.stage) < upgrade_distance(u.stage),
        u.next(event).2 is Store ==> event is Worked && u.stage == UpgradeStage::Backup || u.stage
            == UpgradeStage::Servers,
        u.next(event).2 is WriteConfig ==> event is Worked && u.stage == UpgradeStage::Store,
        u.next(event).0.stage == UpgradeStage::Over <==> u.next(event).2 is Done || u.next(
            event,
        ).2 is Fail,
        event is Failed ==> u.next(event).2 is Fail,
{
}

/// Whatever is found out, the upgrade stays in its directory, and what it reads
/// and writes is what the configuration named: the file of servers, the
/// database, and the present version.
pub proof fn upgrade_stays_with_its_files(u: UpgradeView, event: UpgradeEvent<Seq<char>>)
    requires
        u.expects(event),
    ensures
        ({
            let (after, told, step) = u.next(event);
            &&& after.dir == u.dir
            &&& after.windows == u.windows
            &&& event !is ConfigText ==> after.server_json == u.server_json && after.database
                == u.database
            &&& after.hosts != u.hosts ==> event is ServersText || u.stage == UpgradeStage::Backup
            &&& step matches UpgradeStep::ReadServers(p) ==> u.server_json == Some(p)
            &&& step matches UpgradeStep::Store(p) ==> p == u.database
            &&& step matches UpgradeStep::WriteConfig { server_file_path, version }
                ==> server_file_path == u.database && version == 2
            &&& step matches UpgradeStep::Backup { server_json, server_db } ==> server_json
                == after.server_json && server_db == after.database
            &&& step matches UpgradeStep::Fail(e) ==> event == UpgradeEvent::Failed(e) || (event
                is ConfigText && json_text_members(event->ConfigText_0) == Err::<
                Option<Seq<(Seq<char>, JsonMember<Seq<char>>)>>,
                Seq<char>,
            >(e)) || (event is ServersText && event->ServersText_0 is Some && json_text_members(
                event->ServersText_0->Some_0,
            ) == Err::<Option<Seq<(Seq<char>, JsonMember<Seq<char>>)>>, Seq<char>>(e))
        }),
{
}

/// An upgrade that nothing goes wrong in. A configuration that is up to date is
/// left alone. An outdated one is backed up with its file of servers and its
/// database; then the file of servers is read, what it holds is stored in the
/// database, and the configuration is written with the database and the
/// present version.
pub proof fn whole_course_of_an_upgrade(
    u: UpgradeView,
    text: Seq<char>,
    facts: ConfigFacts<Seq<char>>,
    servers: Seq<char>,
    hosts: Hosts,
)
    requires
        u.stage == UpgradeStage::Config,
        facts_in_text(text) == Ok::<ConfigFacts<Seq<char>>, Seq<char>>(facts),
        legacy_hosts(servers) == Ok::<Hosts, Seq<char>>(hosts),
    ensures
        ({
            let (u1, _, s1) = u.next(UpgradeEvent::ConfigText(text));
            let (u2, _, s2) = u1.next(UpgradeEvent::Worked);
            let (u3, _, s3) = u2.next(UpgradeEvent::ServersText(Some(servers)));
            let (u4, _, s4) = u3.next(UpgradeEvent::Worked);
            let (u5, _, s5) = u4.next(UpgradeEvent::Worked);
            let database = database_beside(facts, u.dir, u.windows);
            &&& !outdated(facts) ==> s1 is Done && u1.stage == UpgradeStage::Over
            &&& outdated(facts) ==> s1 == UpgradeStep::Backup {
                server_json: facts.server_file_path,
                server_db: database,
            }
            &&& outdated(facts) && facts.server_file_path is Some ==> {
                &&& s2 == UpgradeStep::ReadServers(facts.server_file_path->Some_0)
                &&& s3 == UpgradeStep::Store(database)
                &&& u3.hosts == hosts
                &&& s4 == (UpgradeStep::WriteConfig { server_file_path: database, version: 2 })
                &&& u5.hosts == hosts
                &&& s5 is Done
                &&& u5.stage == UpgradeStage::Over
            }
        }),
{
}

/// An upgrade that finds no servers. Where the configuration names no file, or
/// the file does not exist, the database is made with no server in it.
pub proof fn missing_servers_make_an_empty_database(u: UpgradeView)
    ensures
        u.stage == UpgradeStage::Backup && u.server_json is None ==> {
            let (after, _, step) = u.next(UpgradeEvent::Worked);
            &&& step == UpgradeStep::Store(u.database)
            &&& after.hosts.len() == 0
            &&& after.stage == UpgradeStage::Store
        },
        u.stage == UpgradeStage::Servers ==> {
            let (after, _, step) = u.next(UpgradeEvent::ServersText(None));
            &&& step == UpgradeStep::Store(u.database)
            &&& after.hosts.len() == 0
            &&& after.stage == UpgradeStage::Store
        },
{
}

/// What is told of an upgrade gives its figures: the number of servers that
/// were read and that were stored, and the version. A failure is not told here.
pub proof fn upgrade_tells_its_figures(u: UpgradeView, event: UpgradeEvent<Seq<char>>)
    requires
        u.expects(event),
    ensures
        ({
            let (after, told, step) = u.next(event);
            &&& step is Fail <==> told.len() == 0
            &&& event is ServersText && event->ServersText_0 is Some && step is Store ==> has_part(
                told[0],
                decimal(after.hosts.len()),
            )
            &&& event is Worked && step is Done ==> {
                &&& told.len() == 4
                &&& has_part(told[1], decimal(2))
                &&& has_part(told[2], decimal(u.hosts.len()))
            }
            &&& event is ConfigText && step is Done ==> told.len() == 1 && has_part(
                told[0],
                decimal(2),
            )
        }),
{
    let n = decimal(u.next(event).0.hosts.len());
    lemma_part_between("   📦 Migrated "@, n, " servers from server.json"@);
    lemma_part_behind("📋 Current protocol version: "@, decimal(2));
    lemma_part_between("💾 Migrated "@, decimal(u.hosts.len()), " servers to SQLite database"@);
    lemma_part_between(
        "✅ HostPilot is already at the latest version (v"@,
        decimal(2),
        ")"@,
    );
}

} // verus!
