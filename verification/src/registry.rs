//! The condition registry: the ordered, append-only collection of registered
//! vulnerability checks, and the per-tick eligibility policy.

use vstd::prelude::*;

use crate::apps::AppData;

verus! {

/// One registered check kind with the data its predicate is given.
///
/// A file check remembers a byte cursor: the position its predicate last left
/// the file at, restored before the next read and persisted afterwards.
#[derive(Debug)]
pub enum Condition {
    FileVuln { path: String, cursor: u64 },
    AppVuln { app: AppData },
    UserVuln { username: String },
    CustomVuln,
}

impl Clone for Condition {
    fn clone(&self) -> (r: Self)
        ensures
            r == *self,
    {
        match self {
            Condition::FileVuln { path, cursor } => Condition::FileVuln {
                path: path.clone(),
                cursor: *cursor,
            },
            Condition::AppVuln { app } => Condition::AppVuln { app: app.clone() },
            Condition::UserVuln { username } => Condition::UserVuln {
                username: username.clone(),
            },
            Condition::CustomVuln => Condition::CustomVuln,
        }
    }
}

/// A registered check together with its completion flag. `completed` holds
/// the boolean the predicate returned at its most recent dispatch.
#[derive(Debug)]
pub struct ConditionEntry {
    pub condition: Condition,
    pub completed: bool,
}

impl Clone for ConditionEntry {
    fn clone(&self) -> (r: Self)
        ensures
            r == *self,
    {
        ConditionEntry { condition: self.condition.clone(), completed: self.completed }
    }
}

/// The dispatch policy: an entry not currently believed fixed is evaluated on
/// every tick; a completed one only on review ticks, when the tick counter is
/// a multiple of the review interval.
pub open spec fn eligible(e: ConditionEntry, tick: u64, review_interval: u64) -> bool
    recommends
        review_interval >= 1,
{
    !e.completed || tick % review_interval == 0
}

/// The ordered, append-only registry of conditions. Entries are evaluated in
/// registration order; they are never removed.
#[derive(Debug)]
pub struct ConditionRegistry {
    entries: Vec<ConditionEntry>,
}

impl View for ConditionRegistry {
    type V = Seq<ConditionEntry>;

    closed spec fn view(&self) -> Seq<ConditionEntry> {
        self.entries@
    }
}

impl ConditionRegistry {
    /// Create an empty registry.
    pub fn new() -> (r: ConditionRegistry)
        ensures
            r@ =~= Seq::<ConditionEntry>::empty(),
    {
        ConditionRegistry { entries: Vec::new() }
    }

    /// The number of registered conditions.
    pub fn len(&self) -> (r: usize)
        ensures
            r == self@.len(),
    {
        self.entries.len()
    }

    fn append(&mut self, condition: Condition) -> (idx: usize)
        ensures
            final(self)@ == old(self)@.push(
                (ConditionEntry { condition, completed: false }),
            ),
            idx == old(self)@.len(),
    {
        let idx = self.entries.len();
        self.entries.push(ConditionEntry { condition, completed: false });
        idx
    }

    /// Register a file check on `path`, with its cursor at the start of the
    /// file, and return its index.
    pub fn add_file_vuln(&mut self, path: String) -> (idx: usize)
        ensures
            final(self)@ == old(self)@.push(
                (ConditionEntry {
                    condition: Condition::FileVuln { path, cursor: 0 },
                    completed: false,
                }),
            ),
            idx == old(self)@.len(),
    {
        self.append(Condition::FileVuln { path, cursor: 0 })
    }

    /// Register an application check on `app` and return its index.
    pub fn add_app_vuln(&mut self, app: AppData) -> (idx: usize)
        ensures
            final(self)@ == old(self)@.push(
                (ConditionEntry { condition: Condition::AppVuln { app }, completed: false }),
            ),
            idx == old(self)@.len(),
    {
        self.append(Condition::AppVuln { app })
    }

    /// Register a user check on `username` and return its index.
    pub fn add_user_vuln(&mut self, username: String) -> (idx: usize)
        ensures
            final(self)@ == old(self)@.push(
                (ConditionEntry {
                    condition: Condition::UserVuln { username },
                    completed: false,
                }),
            ),
            idx == old(self)@.len(),
    {
        self.append(Condition::UserVuln { username })
    }

    /// Register a check that takes no context and return its index. Hooks are
    /// registered this way too: a hook is a custom condition whose caller
    /// discards the predicate's answer.
    pub fn add_misc_vuln(&mut self) -> (idx: usize)
        ensures
            final(self)@ == old(self)@.push(
                (ConditionEntry { condition: Condition::CustomVuln, completed: false }),
            ),
            idx == old(self)@.len(),
    {
        self.append(Condition::CustomVuln)
    }

    /// The condition at `i`, for the caller that dispatches it.
    pub fn condition_at(&self, i: usize) -> (r: &Condition)
        requires
            i < self@.len(),
        ensures
            *r == self@[i as int].condition,
    {
        &self.entries[i].condition
    }

    /// Whether the entry at `i` is currently believed fixed.
    pub fn is_completed(&self, i: usize) -> (r: bool)
        requires
            i < self@.len(),
        ensures
            r == self@[i as int].completed,
    {
        self.entries[i].completed
    }

    /// Record the boolean a predicate returned for entry `i`. The new answer
    /// overwrites the flag unconditionally: each evaluation is authoritative.
    pub fn record_result(&mut self, i: usize, result: bool)
        requires
            i < old(self)@.len(),
        ensures
            final(self)@ == old(self)@.update(
                i as int,
                (ConditionEntry {
                    condition: old(self)@[i as int].condition,
                    completed: result,
                }),
            ),
    {
        let condition = self.entries[i].condition.clone();
        self.entries.set(i, ConditionEntry { condition, completed: result });
    }

    /// Persist a file check's byte cursor after its predicate ran.
    pub fn set_file_cursor(&mut self, i: usize, pos: u64)
        requires
            i < old(self)@.len(),
            old(self)@[i as int].condition is FileVuln,
        ensures
            final(self)@ == old(self)@.update(
                i as int,
                (ConditionEntry {
                    condition: Condition::FileVuln {
                        path: old(self)@[i as int].condition->path,
                        cursor: pos,
                    },
                    completed: old(self)@[i as int].completed,
                }),
            ),
    {
        let completed = self.entries[i].completed;
        match self.entries[i].condition.clone() {
            Condition::FileVuln { path, cursor: _ } => {
                self.entries.set(
                    i,
                    ConditionEntry {
                        condition: Condition::FileVuln { path, cursor: pos },
                        completed,
                    },
                );
            },
            _ => {
                proof {
                    assert(false);
                }
            },
        }
    }
}

/// Law: an entry whose predicate has not yet reported success is eligible on
/// every tick, whatever the counter and the review interval say.
pub proof fn lemma_incomplete_always_eligible(e: ConditionEntry, tick: u64, review_interval: u64)
    requires
        !e.completed,
    ensures
        eligible(e, tick, review_interval),
{
}

/// Law: an entry currently believed fixed is eligible exactly on review
/// ticks, when the tick counter is a multiple of the review interval.
pub proof fn lemma_completed_review_cadence(e: ConditionEntry, tick: u64, review_interval: u64)
    requires
        e.completed,
    ensures
        eligible(e, tick, review_interval) <==> tick % review_interval == 0,
{
}

} // verus!
