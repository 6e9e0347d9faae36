//! Opening the database, and putting another in its place while it is in use.
use vstd::prelude::*;
use vstd::string::*;

use crate::database::Database;
use crate::paths::{
    extension_replaced, path_stem, path_with_extension, path_with_new_extension,
};

verus! {

/// How the file of the database is opened.
#[derive(Clone, Debug, PartialEq, Eq)]
pub struct ConnectionSettings {
    pub create_if_missing: bool,
    /// Whether changes go to a write-ahead log.
    pub write_ahead_log: bool,
    /// Whether the file is synchronised at critical moments only.
    pub synchronous_normal: bool,
    pub cache_size: &'static str,
    pub temp_store: &'static str,
    pub foreign_keys: bool,
    pub max_connections: u32,
    pub min_connections: u32,
    pub acquire_timeout_seconds: u64,
}

/// What has failed when a database could not be put in the place of another.
#[derive(Clone, Copy, Debug, PartialEq, Eq, Structural)]
pub enum ReplaceFailure {
    Detach,
    BackUp,
    Write,
    Connect,
    Migrate,
}

/// What is to be done next to put a database in the place of another.
#[derive(Clone, Copy, Debug, PartialEq, Eq, Structural)]
pub enum ReplaceState {
    /// The connections in use are replaced by one to an empty database in memory, and
    /// closed.
    Detach,
    /// It is found out whether there is a file of the database.
    LookForDatabase,
    /// The file of the database is renamed to that of the backup.
    BackUp,
    /// The new database is written.
    Write,
    /// Connections to it are made.
    Connect,
    /// It is brought up to date.
    Migrate,
    /// The connections to it are closed again.
    CloseNew,
    /// It is found out whether there is a backup to go back to.
    LookForBackup(ReplaceFailure),
    /// The backup is renamed to the database.
    Restore(ReplaceFailure),
    /// The new connections are put to use.
    Install,
    /// It is found out whether there is a backup to be removed.
    LookForOldBackup,
    /// The backup is removed.
    RemoveBackup,
    Replaced,
    Failed(ReplaceFailure),
}

/// What follows when something was done, or found out, with an answer: whether it
/// succeeded, or whether the file is there.
pub open spec fn next_state(state: ReplaceState, answer: bool) -> ReplaceState {
    match state {
        ReplaceState::Detach => if answer {
            ReplaceState::LookForDatabase
        } else {
            ReplaceState::Failed(ReplaceFailure::Detach)
        },
        ReplaceState::LookForDatabase => if answer {
            ReplaceState::BackUp
        } else {
            ReplaceState::Write
        },
        ReplaceState::BackUp => if answer {
            ReplaceState::Write
        } else {
            ReplaceState::Failed(ReplaceFailure::BackUp)
        },
        ReplaceState::Write => if answer {
            ReplaceState::Connect
        } else {
            ReplaceState::LookForBackup(ReplaceFailure::Write)
        },
        ReplaceState::Connect => if answer {
            ReplaceState::Migrate
        } else {
            ReplaceState::LookForBackup(ReplaceFailure::Connect)
        },
        ReplaceState::Migrate => if answer {
            ReplaceState::Install
        } else {
            ReplaceState::CloseNew
        },
        ReplaceState::CloseNew => ReplaceState::LookForBackup(ReplaceFailure::Migrate),
        ReplaceState::LookForBackup(failure) => if answer {
            ReplaceState::Restore(failure)
        } else {
            ReplaceState::Failed(failure)
        },
        ReplaceState::Restore(failure) => ReplaceState::Failed(failure),
        ReplaceState::Install => ReplaceState::LookForOldBackup,
        ReplaceState::LookForOldBackup => if answer {
            ReplaceState::RemoveBackup
        } else {
            ReplaceState::Replaced
        },
        ReplaceState::RemoveBackup => ReplaceState::Replaced,
        ReplaceState::Replaced => ReplaceState::Replaced,
        ReplaceState::Failed(failure) => ReplaceState::Failed(failure),
    }
}

/// How many steps are left at most.
pub open spec fn steps_left(state: ReplaceState) -> nat {
    match state {
        ReplaceState::Detach => 10,
        ReplaceState::LookForDatabase => 9,
        ReplaceState::BackUp => 8,
        ReplaceState::Write => 7,
        ReplaceState::Connect => 6,
        ReplaceState::Migrate => 5,
        ReplaceState::CloseNew => 3,
        ReplaceState::LookForBackup(_) => 2,
        ReplaceState::Restore(_) => 1,
        ReplaceState::Install => 3,
        ReplaceState::LookForOldBackup => 2,
        ReplaceState::RemoveBackup => 1,
        ReplaceState::Replaced => 0,
        ReplaceState::Failed(_) => 0,
    }
}

impl ReplaceState {
    /// What is to be done next, after an answer: whether what was to be done succeeded,
    /// or whether the file that was looked for is there.
    pub fn advance(self, answer: bool) -> (r: ReplaceState)
        ensures
            r == next_state(self, answer),
            steps_left(self) > 0 ==> steps_left(r) < steps_left(self),
    {
        match self {
            ReplaceState::Detach => if answer {
                ReplaceState::LookForDatabase
            } else {
                ReplaceState::Failed(ReplaceFailure::Detach)
            },
            ReplaceState::LookForDatabase => if answer {
                ReplaceState::BackUp
            } else {
                ReplaceState::Write
            },
            ReplaceState::BackUp => if answer {
                ReplaceState::Write
            } else {
                ReplaceState::Failed(ReplaceFailure::BackUp)
            },
            ReplaceState::Write => if answer {
                ReplaceState::Connect
            } else {
                ReplaceState::LookForBackup(ReplaceFailure::Write)
            },
            ReplaceState::Connect => if answer {
                ReplaceState::Migrate
            } else {
                ReplaceState::LookForBackup(ReplaceFailure::Connect)
            },
            ReplaceState::Migrate => if answer {
                ReplaceState::Install
            } else {
                ReplaceState::CloseNew
            },
            ReplaceState::CloseNew => ReplaceState::LookForBackup(ReplaceFailure::Migrate),
            ReplaceState::LookForBackup(failure) => if answer {
                ReplaceState::Restore(failure)
            } else {
                ReplaceState::Failed(failure)
            },
            ReplaceState::Restore(failure) => ReplaceState::Failed(failure),
            ReplaceState::Install => ReplaceState::LookForOldBackup,
            ReplaceState::LookForOldBackup => if answer {
                ReplaceState::RemoveBackup
            } else {
                ReplaceState::Replaced
            },
            ReplaceState::RemoveBackup => ReplaceState::Replaced,
            ReplaceState::Replaced => ReplaceState::Replaced,
            ReplaceState::Failed(failure) => ReplaceState::Failed(failure),
        }
    }

    /// Says whether nothing is left to be done.
    pub fn is_final(&self) -> (r: bool)
        ensures
            r == (steps_left(*self) == 0),
            r == (*self is Replaced || *self is Failed),
    {
        match self {
            ReplaceState::Replaced => true,
            ReplaceState::Failed(_) => true,
            _ => false,
        }
    }
}

impl Database {
    /// The database in a file, and how the file is opened.
    pub fn new(filename: String) -> (r: (Database, ConnectionSettings))
        ensures
            r.0.filename == filename,
            r.1.create_if_missing,
            r.1.write_ahead_log,
            r.1.synchronous_normal,
            r.1.cache_size@ == "-2000"@,
            r.1.temp_store@ == "MEMORY"@,
            r.1.foreign_keys,
            r.1.max_connections == 4,
            r.1.min_connections == 1,
            r.1.acquire_timeout_seconds == 5,
    {
        let settings = ConnectionSettings {
            create_if_missing: true,
            write_ahead_log: true,
            synchronous_normal: true,
            cache_size: "-2000",
            temp_store: "MEMORY",
            foreign_keys: true,
            max_connections: 4,
            min_connections: 1,
            acquire_timeout_seconds: 5,
        };
        (Database { filename }, settings)
    }

    /// Sets out to put another database in the place of this one: what is to be done
    /// first, and the path of the backup. That of a file whose name is two dots and an
    /// extension is not stated.
    pub fn hot_replace(&self) -> (r: (ReplaceState, String))
        ensures
            r.0 is Detach,
            r.1@ == path_with_extension(self.filename@, "db.backup"@),
            path_stem(self.filename@) != Some(seq!['.']) ==> r.1@ == extension_replaced(
                self.filename@,
                "db.backup"@,
            ),
    {
        proof {
            reveal_strlit("db.backup");
        }
        (ReplaceState::Detach, path_with_new_extension(self.filename.as_str(), "db.backup"))
    }
}

/// The files that are touched, by what they hold.
pub struct Files {
    pub database: Option<Seq<u8>>,
    pub backup: Option<Seq<u8>>,
}

/// Whether a file that is there stays there, whatever it holds.
pub open spec fn stays(before: Option<Seq<u8>>, after: Option<Seq<u8>>) -> bool {
    before is Some ==> after is Some
}

/// Whether the files may change so when what a state asks for is done with an answer, of
/// which the new database is written. Whenever connections to the database are made, used
/// or closed, what its file holds may change; a write that fails may leave anything.
pub open spec fn may_change(
    state: ReplaceState,
    answer: bool,
    content: Seq<u8>,
    before: Files,
    after: Files,
) -> bool {
    match state {
        ReplaceState::Detach
        | ReplaceState::Connect
        | ReplaceState::Migrate
        | ReplaceState::CloseNew
        | ReplaceState::Install => {
            &&& after.backup == before.backup
            &&& stays(before.database, after.database)
        },
        ReplaceState::LookForDatabase => after == before && answer == before.database is Some,
        ReplaceState::BackUp => if answer {
            before.database is Some && after == (Files { database: None, backup: before.database })
        } else {
            after == before
        },
        ReplaceState::Write => {
            &&& after.backup == before.backup
            &&& answer ==> after.database == Some(content)
        },
        ReplaceState::LookForBackup(_) => after == before && answer == before.backup is Some,
        ReplaceState::Restore(_) => if answer {
            before.backup is Some && after == (Files { database: before.backup, backup: None })
        } else {
            after == before
        },
        ReplaceState::LookForOldBackup => {
            &&& after.backup == before.backup
            &&& stays(before.database, after.database)
            &&& answer == before.backup is Some
        },
        ReplaceState::RemoveBackup => {
            &&& stays(before.database, after.database)
            &&& answer ==> after.backup is None
            &&& !answer ==> after.backup == before.backup
        },
        ReplaceState::Replaced | ReplaceState::Failed(_) => after == before,
    }
}

/// Where the old database is to be found, and that there is a new one, in each state. The
/// old database is what its file holds once its connections are closed.
pub open spec fn safe(
    state: ReplaceState,
    old_database: Seq<u8>,
    content: Seq<u8>,
    files: Files,
) -> bool {
    match state {
        ReplaceState::Detach => true,
        ReplaceState::LookForDatabase | ReplaceState::BackUp => {
            files.database == Some(old_database)
        },
        ReplaceState::Write | ReplaceState::CloseNew => files.backup == Some(old_database),
        ReplaceState::LookForBackup(failure) | ReplaceState::Restore(failure) => {
            &&& !(failure is Detach) && !(failure is BackUp)
            &&& files.backup == Some(old_database)
        },
        ReplaceState::Connect => {
            &&& files.backup == Some(old_database)
            &&& files.database == Some(content)
        },
        ReplaceState::Migrate | ReplaceState::Install | ReplaceState::LookForOldBackup => {
            &&& files.backup == Some(old_database)
            &&& files.database is Some
        },
        ReplaceState::RemoveBackup | ReplaceState::Replaced => files.database is Some,
        ReplaceState::Failed(failure) => {
            ||| files.database == Some(old_database)
            ||| !(failure is Detach) && !(failure is BackUp) && files.backup == Some(old_database)
        },
    }
}

/// Each step keeps the old database safe: until the new one is put to use, the old one
/// is in its own file or in that of the backup. Where it is restored, it is in its own
/// file again, and the backup is gone only after the new one was put to use.
pub proof fn lemma_old_database_is_safe(
    state: ReplaceState,
    answer: bool,
    old_database: Seq<u8>,
    content: Seq<u8>,
    before: Files,
    after: Files,
)
    requires
        !(state is Detach),
        safe(state, old_database, content, before),
        may_change(state, answer, content, before, after),
    ensures
        safe(next_state(state, answer), old_database, content, after),
        state is Restore && answer ==> after.database == Some(old_database),
        before.backup == Some(old_database) && after.backup is None ==> state is RemoveBackup
            || state is Restore,
{
}

/// The states and the files that follow one another when answers are given.
pub open spec fn is_run(
    states: Seq<ReplaceState>,
    answers: Seq<bool>,
    files: Seq<Files>,
    content: Seq<u8>,
) -> bool {
    &&& states.len() == answers.len() + 1
    &&& files.len() == states.len()
    &&& states[0] is Detach
    &&& forall|i: int|
        0 <= i < answers.len() ==> {
            &&& states[i + 1] == next_state(states[i], #[trigger] answers[i])
            &&& may_change(states[i], answers[i], content, files[i], files[i + 1])
        }
}

/// In every run, the database that is there once its connections are closed is safe at
/// every moment from then on.
pub proof fn lemma_run_is_safe(
    states: Seq<ReplaceState>,
    answers: Seq<bool>,
    files: Seq<Files>,
    content: Seq<u8>,
    old_database: Seq<u8>,
    n: int,
)
    requires
        is_run(states, answers, files, content),
        1 <= n < states.len(),
        files[1].database == Some(old_database),
    ensures
        safe(states[n], old_database, content, files[n]),
        !(states[n] is Detach),
    decreases n,
{
    assert(states[n - 1 + 1] == next_state(states[n - 1], answers[n - 1]));
    if n > 1 {
        lemma_run_is_safe(states, answers, files, content, old_database, n - 1);
        lemma_old_database_is_safe(
            states[n - 1],
            answers[n - 1],
            old_database,
            content,
            files[n - 1],
            files[n],
        );
    }
}

/// A run that fails with the backup restored leaves the database as it was when its
/// connections were closed.
pub proof fn lemma_restored_run_changes_nothing(
    states: Seq<ReplaceState>,
    answers: Seq<bool>,
    files: Seq<Files>,
    content: Seq<u8>,
    old_database: Seq<u8>,
    n: int,
)
    requires
        is_run(states, answers, files, content),
        files[1].database == Some(old_database),
        0 <= n < answers.len(),
        states[n] is Restore,
        answers[n],
    ensures
        states[n + 1] is Failed,
        files[n + 1].database == Some(old_database),
{
    lemma_run_is_safe(states, answers, files, content, old_database, n);
    assert(states[n + 1] == next_state(states[n], answers[n]));
}

/// Every run comes to an end after ten steps at most.
pub proof fn lemma_run_ends(
    states: Seq<ReplaceState>,
    answers: Seq<bool>,
    files: Seq<Files>,
    content: Seq<u8>,
    n: int,
)
    requires
        is_run(states, answers, files, content),
        0 <= n < states.len(),
    ensures
        steps_left(states[n]) + n <= 10 || steps_left(states[n]) == 0,
    decreases n,
{
    if n > 0 {
        lemma_run_ends(states, answers, files, content, n - 1);
        assert(states[n - 1 + 1] == next_state(states[n - 1], answers[n - 1]));
    }
}

/// Whether what a state asks for was done before a moment of a run, with an answer.
pub open spec fn answered(
    states: Seq<ReplaceState>,
    answers: Seq<bool>,
    n: int,
    state: ReplaceState,
    answer: bool,
) -> bool {
    exists|j: int| 0 <= j < n && #[trigger] states[j] == state && answers[j] == answer
}

proof fn lemma_answered_stays(
    states: Seq<ReplaceState>,
    answers: Seq<bool>,
    n: int,
    state: ReplaceState,
    answer: bool,
)
    ensures
        answered(states, answers, n, state, answer) ==> answered(
            states,
            answers,
            n + 1,
            state,
            answer,
        ),
        0 <= n && states[n] == state && answers[n] == answer ==> answered(
            states,
            answers,
            n + 1,
            state,
            answer,
        ),
{
    if answered(states, answers, n, state, answer) {
        let j = choose|j: int| 0 <= j < n && #[trigger] states[j] == state && answers[j] == answer;
        assert(states[j] == state);
    }
}

/// What has happened before each moment of a run. Nothing is touched before the
/// connections in use are gone. A database that is there is renamed before another is
/// written. The new one is connected to after it was written, brought up to date after
/// that, and put to use only after all three succeeded. A run that goes back or fails does
/// so for the step that it names, which did not succeed; where that was bringing the new
/// database up to date, the connections to it were closed. The backup is put back only
/// where there is one, and removed only where there is one.
pub proof fn lemma_what_has_happened(
    states: Seq<ReplaceState>,
    answers: Seq<bool>,
    files: Seq<Files>,
    content: Seq<u8>,
    n: int,
)
    requires
        is_run(states, answers, files, content),
        0 <= n < states.len(),
    ensures
        states[n] is Detach || states[n] == ReplaceState::Failed(ReplaceFailure::Detach)
            || answered(states, answers, n, ReplaceState::Detach, true),
        states[n] is BackUp ==> answered(states, answers, n, ReplaceState::LookForDatabase, true),
        states[n] is Write ==> answered(states, answers, n, ReplaceState::LookForDatabase, false)
            || answered(states, answers, n, ReplaceState::BackUp, true),
        states[n] is Connect || states[n] is Migrate || states[n] is CloseNew
            || states[n] is Install || states[n] is LookForOldBackup || states[n] is RemoveBackup
            || states[n] is Replaced ==> answered(states, answers, n, ReplaceState::Write, true),
        states[n] is Migrate || states[n] is CloseNew || states[n] is Install
            || states[n] is LookForOldBackup || states[n] is RemoveBackup || states[n] is Replaced
            ==> answered(states, answers, n, ReplaceState::Connect, true),
        states[n] is Install || states[n] is LookForOldBackup || states[n] is RemoveBackup
            || states[n] is Replaced ==> answered(states, answers, n, ReplaceState::Migrate, true),
        states[n] is LookForOldBackup || states[n] is RemoveBackup || states[n] is Replaced
            ==> answered(states, answers, n, ReplaceState::Install, true) || answered(
            states,
            answers,
            n,
            ReplaceState::Install,
            false,
        ),
        states[n] is RemoveBackup ==> answered(
            states,
            answers,
            n,
            ReplaceState::LookForOldBackup,
            true,
        ),
        states[n] is CloseNew ==> answered(states, answers, n, ReplaceState::Migrate, false),
        match states[n] {
            ReplaceState::LookForBackup(f) | ReplaceState::Restore(f) | ReplaceState::Failed(
                f,
            ) => match f {
                ReplaceFailure::Detach => answered(
                    states,
                    answers,
                    n,
                    ReplaceState::Detach,
                    false,
                ),
                ReplaceFailure::BackUp => answered(
                    states,
                    answers,
                    n,
                    ReplaceState::BackUp,
                    false,
                ),
                ReplaceFailure::Write => answered(states, answers, n, ReplaceState::Write, false),
                ReplaceFailure::Connect => answered(
                    states,
                    answers,
                    n,
                    ReplaceState::Connect,
                    false,
                ),
                ReplaceFailure::Migrate => answered(
                    states,
                    answers,
                    n,
                    ReplaceState::Migrate,
                    false,
                ) && (answered(states, answers, n, ReplaceState::CloseNew, true) || answered(
                    states,
                    answers,
                    n,
                    ReplaceState::CloseNew,
                    false,
                )),
            },
            _ => true,
        },
        states[n] matches ReplaceState::Restore(f) ==> answered(
            states,
            answers,
            n,
            ReplaceState::LookForBackup(f),
            true,
        ),
    decreases n,
{
    if n > 0 {
        let m = n - 1;
        lemma_what_has_happened(states, answers, files, content, m);
        assert(states[m + 1] == next_state(states[m], answers[m]));
        lemma_answered_stays(states, answers, m, ReplaceState::Detach, true);
        lemma_answered_stays(states, answers, m, ReplaceState::Detach, false);
        lemma_answered_stays(states, answers, m, ReplaceState::LookForDatabase, true);
        lemma_answered_stays(states, answers, m, ReplaceState::LookForDatabase, false);
        lemma_answered_stays(states, answers, m, ReplaceState::BackUp, true);
        lemma_answered_stays(states, answers, m, ReplaceState::BackUp, false);
        lemma_answered_stays(states, answers, m, ReplaceState::Write, true);
        lemma_answered_stays(states, answers, m, ReplaceState::Write, false);
        lemma_answered_stays(states, answers, m, ReplaceState::Connect, true);
        lemma_answered_stays(states, answers, m, ReplaceState::Connect, false);
        lemma_answered_stays(states, answers, m, ReplaceState::Migrate, true);
        lemma_answered_stays(states, answers, m, ReplaceState::Migrate, false);
        lemma_answered_stays(states, answers, m, ReplaceState::CloseNew, true);
        lemma_answered_stays(states, answers, m, ReplaceState::CloseNew, false);
        lemma_answered_stays(states, answers, m, ReplaceState::Install, true);
        lemma_answered_stays(states, answers, m, ReplaceState::Install, false);
        lemma_answered_stays(states, answers, m, ReplaceState::LookForOldBackup, true);
        if let ReplaceState::Restore(f) = states[n] {
            lemma_answered_stays(states, answers, m, ReplaceState::LookForBackup(f), true);
        }
    }
}

/// Whether a state is one of a run that goes back after a step has failed.
pub open spec fn goes_back(state: ReplaceState, failure: ReplaceFailure) -> bool {
    ||| state == ReplaceState::LookForBackup(failure)
    ||| state == ReplaceState::Restore(failure)
    ||| state == ReplaceState::Failed(failure)
    ||| state is CloseNew && failure is Migrate
}

/// A run in which a step did not succeed goes back, for that step, and never puts the new
/// database to use.
pub proof fn lemma_failed_step_fails(
    states: Seq<ReplaceState>,
    answers: Seq<bool>,
    files: Seq<Files>,
    content: Seq<u8>,
    failure: ReplaceFailure,
    j: int,
    n: int,
)
    requires
        is_run(states, answers, files, content),
        0 <= j < n < states.len(),
        !answers[j],
        match failure {
            ReplaceFailure::Detach => states[j] is Detach,
            ReplaceFailure::BackUp => states[j] is BackUp,
            ReplaceFailure::Write => states[j] is Write,
            ReplaceFailure::Connect => states[j] is Connect,
            ReplaceFailure::Migrate => states[j] is Migrate,
        },
    ensures
        goes_back(states[n], failure),
        !(states[n] is Replaced) && !(states[n] is Install) && !(states[n] is RemoveBackup),
        n >= 10 ==> states[n] == ReplaceState::Failed(failure),
    decreases n,
{
    assert(states[n - 1 + 1] == next_state(states[n - 1], answers[n - 1]));
    if j < n - 1 {
        lemma_failed_step_fails(states, answers, files, content, failure, j, n - 1);
    }
    lemma_run_ends(states, answers, files, content, n);
}

/// A run in which every step succeeds comes to its end with the new database in use.
pub proof fn lemma_run_without_failure_replaces(
    states: Seq<ReplaceState>,
    answers: Seq<bool>,
    files: Seq<Files>,
    content: Seq<u8>,
    n: int,
)
    requires
        is_run(states, answers, files, content),
        10 <= n < states.len(),
        forall|j: int|
            0 <= j < n && (states[j] is Detach || states[j] is BackUp || states[j] is Write
                || states[j] is Connect || states[j] is Migrate) ==> #[trigger] answers[j],
    ensures
        states[n] is Replaced,
{
    lemma_run_ends(states, answers, files, content, n);
    lemma_what_has_happened(states, answers, files, content, n);
    if let ReplaceState::Failed(f) = states[n] {
        let step = match f {
            ReplaceFailure::Detach => ReplaceState::Detach,
            ReplaceFailure::BackUp => ReplaceState::BackUp,
            ReplaceFailure::Write => ReplaceState::Write,
            ReplaceFailure::Connect => ReplaceState::Connect,
            ReplaceFailure::Migrate => ReplaceState::Migrate,
        };
        let j = choose|j: int|
            0 <= j < n && #[trigger] states[j] == step && answers[j] == false;
        assert(answers[j]);
    }
}

/// A run that fails leaves the old database in its file, as it was when its connections
/// were closed, whatever failed and whenever. The one exception is that the backup could
/// not be put back; it is the old database still.
pub proof fn lemma_failed_run_goes_back(
    states: Seq<ReplaceState>,
    answers: Seq<bool>,
    files: Seq<Files>,
    content: Seq<u8>,
    old_database: Seq<u8>,
    n: int,
) -> (j: int)
    requires
        is_run(states, answers, files, content),
        files[1].database == Some(old_database),
        1 <= n < states.len(),
        states[n] is Failed,
    ensures
        files[n].database == Some(old_database) || (0 <= j < n && states[j] is Restore
            && !answers[j] && files[n].backup == Some(old_database)),
    decreases n,
{
    let m = n - 1;
    assert(states[m + 1] == next_state(states[m], answers[m]));
    assert(may_change(states[m], answers[m], content, files[m], files[m + 1]));
    if m >= 1 {
        lemma_run_is_safe(states, answers, files, content, old_database, m);
        if states[m] is Failed {
            return lemma_failed_run_goes_back(
                states,
                answers,
                files,
                content,
                old_database,
                m,
            );
        }
    }
    m
}

/// A run that fails after the old database was renamed has set out to rename it back.
pub proof fn lemma_backed_up_run_restores(
    states: Seq<ReplaceState>,
    answers: Seq<bool>,
    files: Seq<Files>,
    content: Seq<u8>,
    i: int,
    n: int,
) -> (j: int)
    requires
        is_run(states, answers, files, content),
        0 <= i < n < states.len(),
        states[i] is BackUp,
        answers[i],
        states[n] is Failed,
    ensures
        i < j < n,
        states[j] is Restore,
        answers[j] ==> files[n].database == files[i].database && files[n].backup is None,
    decreases n,
{
    let m = n - 1;
    lemma_backup_stays(states, answers, files, content, i, m);
    assert(states[m + 1] == next_state(states[m], answers[m]));
    assert(may_change(states[m], answers[m], content, files[m], files[m + 1]));
    if states[m] is Failed {
        return lemma_backed_up_run_restores(states, answers, files, content, i, m);
    }
    m
}

/// From the moment at which the old database was renamed it is the backup, until it is
/// renamed back or the new one was put to use.
proof fn lemma_backup_stays(
    states: Seq<ReplaceState>,
    answers: Seq<bool>,
    files: Seq<Files>,
    content: Seq<u8>,
    i: int,
    n: int,
)
    requires
        is_run(states, answers, files, content),
        0 <= i <= n < states.len(),
        i < answers.len(),
        states[i] is BackUp,
        answers[i],
    ensures
        n > i ==> !(states[n] is Detach) && !(states[n] is LookForDatabase)
            && !(states[n] is BackUp),
        files[i].database is Some,
        n > i && (states[n] is Write || states[n] is Connect || states[n] is Migrate
            || states[n] is CloseNew || states[n] is LookForBackup || states[n] is Restore)
            ==> files[n].backup == files[i].database,
    decreases n,
{
    assert(may_change(states[i], answers[i], content, files[i], files[i + 1]));
    if n > i {
        let m = n - 1;
        lemma_backup_stays(states, answers, files, content, i, m);
        assert(states[m + 1] == next_state(states[m], answers[m]));
        assert(may_change(states[m], answers[m], content, files[m], files[m + 1]));
    }
}

/// Once the new database is in use and the run has come to its end, there is no backup
/// left, unless it could not be removed.
pub proof fn lemma_backup_is_removed(
    states: Seq<ReplaceState>,
    answers: Seq<bool>,
    files: Seq<Files>,
    content: Seq<u8>,
    n: int,
) -> (j: int)
    requires
        is_run(states, answers, files, content),
        0 <= n < states.len(),
        states[n] is Replaced,
    ensures
        files[n].backup is None || (0 <= j < n && states[j] is RemoveBackup && !answers[j]),
    decreases n,
{
    let m = n - 1;
    assert(n > 0);
    assert(states[m + 1] == next_state(states[m], answers[m]));
    assert(may_change(states[m], answers[m], content, files[m], files[m + 1]));
    if states[m] is Replaced {
        return lemma_backup_is_removed(states, answers, files, content, m);
    }
    m
}

/// What is connected to, and brought up to date, is what was to be put in the place of the
/// old database.
pub proof fn lemma_new_database_is_connected_to(
    states: Seq<ReplaceState>,
    answers: Seq<bool>,
    files: Seq<Files>,
    content: Seq<u8>,
    n: int,
)
    requires
        is_run(states, answers, files, content),
        0 <= n < states.len(),
        states[n] is Connect,
    ensures
        files[n].database == Some(content),
{
    let m = n - 1;
    assert(n > 0);
    assert(states[m + 1] == next_state(states[m], answers[m]));
    assert(may_change(states[m], answers[m], content, files[m], files[m + 1]));
}

}
