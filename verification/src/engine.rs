//! The engine: the ledger, the registry, and the scheduling state that
//! decides which registered checks are evaluated on which tick.
//!
//! The engine itself is a value; callers that run it from several threads
//! share it behind their own lock and drive the tick loop themselves. One
//! tick is either the one-shot [`Engine::update_engine`], when every
//! predicate's answer is already at hand, or the pair
//! [`Engine::begin_tick`] / [`Engine::end_tick`] with
//! [`Engine::record_result`] in between, when predicates run outside the
//! library between the two calls.

use vstd::prelude::*;

use crate::apps::AppData;
use crate::apps::InstallMethod;
use crate::ledger::ScoreEntry;
use crate::ledger::ScoreLedger;
use crate::ledger::contains_id;
use crate::ledger::ids_unique;
use crate::ledger::lookup_model;
use crate::ledger::remove_model;
use crate::ledger::report_model;
use crate::ledger::total_model;
use crate::ledger::upsert_model;
use crate::registry::Condition;
use crate::registry::ConditionEntry;
use crate::registry::ConditionRegistry;
use crate::registry::eligible;

verus! {

/// The registry after one tick at counter `tick`: every eligible entry's
/// completion flag is overwritten with its predicate's answer from
/// `results`; every other entry is untouched.
pub open spec fn tick_model(
    s: Seq<ConditionEntry>,
    tick: u64,
    review_interval: u64,
    results: Seq<bool>,
) -> Seq<ConditionEntry> {
    Seq::new(
        s.len(),
        |i: int|
            ConditionEntry {
                condition: s[i].condition,
                completed: if eligible(s[i], tick, review_interval) {
                    results[i]
                } else {
                    s[i].completed
                },
            },
    )
}

/// The registry after a run of ticks: tick `k` of the run happens at counter
/// `ticks[k]` and records the answers `runs[k]`.
pub open spec fn run_model(
    s: Seq<ConditionEntry>,
    ticks: Seq<u64>,
    review_interval: u64,
    runs: Seq<Seq<bool>>,
) -> Seq<ConditionEntry>
    decreases ticks.len(),
{
    if ticks.len() == 0 {
        s
    } else {
        run_model(
            tick_model(s, ticks[0], review_interval, runs[0]),
            ticks.drop_first(),
            review_interval,
            runs.drop_first(),
        )
    }
}

/// A run of ticks keeps the registry's length.
pub proof fn lemma_run_model_len(
    s: Seq<ConditionEntry>,
    ticks: Seq<u64>,
    review_interval: u64,
    runs: Seq<Seq<bool>>,
)
    requires
        runs.len() == ticks.len(),
    ensures
        run_model(s, ticks, review_interval, runs).len() == s.len(),
    decreases ticks.len(),
{
    if ticks.len() > 0 {
        lemma_run_model_len(
            tick_model(s, ticks[0], review_interval, runs[0]),
            ticks.drop_first(),
            review_interval,
            runs.drop_first(),
        );
    }
}

/// Appending one tick to a run applies that tick to the run's result.
pub proof fn lemma_run_model_snoc(
    s: Seq<ConditionEntry>,
    ticks: Seq<u64>,
    review_interval: u64,
    runs: Seq<Seq<bool>>,
    t: u64,
    r: Seq<bool>,
)
    requires
        runs.len() == ticks.len(),
    ensures
        run_model(s, ticks.push(t), review_interval, runs.push(r)) == tick_model(
            run_model(s, ticks, review_interval, runs),
            t,
            review_interval,
            r,
        ),
    decreases ticks.len(),
{
    if ticks.len() == 0 {
        assert(ticks.push(t)[0] == t);
        assert(runs.push(r)[0] == r);
        assert(ticks.push(t).drop_first() =~= Seq::<u64>::empty());
        assert(runs.push(r).drop_first() =~= Seq::<Seq<bool>>::empty());
        let s1 = tick_model(s, t, review_interval, r);
        assert(run_model(s1, Seq::<u64>::empty(), review_interval, Seq::<Seq<bool>>::empty())
            == s1);
        assert(run_model(s, ticks.push(t), review_interval, runs.push(r)) == run_model(
            s1,
            ticks.push(t).drop_first(),
            review_interval,
            runs.push(r).drop_first(),
        ));
        assert(run_model(s, ticks, review_interval, runs) == s);
    } else {
        assert(ticks.push(t)[0] == ticks[0]);
        assert(runs.push(r)[0] == runs[0]);
        assert(ticks.push(t).drop_first() =~= ticks.drop_first().push(t));
        assert(runs.push(r).drop_first() =~= runs.drop_first().push(r));
        let s1 = tick_model(s, ticks[0], review_interval, runs[0]);
        assert(run_model(s, ticks.push(t), review_interval, runs.push(r)) == run_model(
            s1,
            ticks.drop_first().push(t),
            review_interval,
            runs.drop_first().push(r),
        ));
        lemma_run_model_snoc(
            s1,
            ticks.drop_first(),
            review_interval,
            runs.drop_first(),
            t,
            r,
        );
        assert(run_model(s, ticks, review_interval, runs) == run_model(
            s1,
            ticks.drop_first(),
            review_interval,
            runs.drop_first(),
        ));
    }
}

/// Law (K ticks, K invocations): take any run of K ticks in which entry `i`'s
/// predicate, whenever asked, answers false. The entry then stays
/// not-completed through the whole run, and it is eligible — its predicate is
/// invoked — at every one of the K ticks.
pub proof fn lemma_incomplete_run_dispatched_every_tick(
    s: Seq<ConditionEntry>,
    ticks: Seq<u64>,
    review_interval: u64,
    runs: Seq<Seq<bool>>,
    i: int,
)
    requires
        runs.len() == ticks.len(),
        0 <= i < s.len(),
        !s[i].completed,
        forall|k: int| 0 <= k < runs.len() ==> !runs[k][i],
    ensures
        !run_model(s, ticks, review_interval, runs)[i].completed,
        forall|k: int|
            0 <= k < ticks.len() ==> eligible(
                run_model(s, ticks.take(k), review_interval, runs.take(k))[i],
                ticks[k],
                review_interval,
            ),
    decreases ticks.len(),
{
    if ticks.len() == 0 {
    } else {
        let pticks = ticks.drop_last();
        let pruns = runs.drop_last();
        let t = ticks.last();
        let r = runs.last();
        lemma_incomplete_run_dispatched_every_tick(s, pticks, review_interval, pruns, i);
        lemma_run_model_len(s, pticks, review_interval, pruns);
        assert(pticks.push(t) =~= ticks);
        assert(pruns.push(r) =~= runs);
        lemma_run_model_snoc(s, pticks, review_interval, pruns, t, r);
        assert(!run_model(s, ticks, review_interval, runs)[i].completed);
        assert forall|k: int| 0 <= k < ticks.len() implies eligible(
            run_model(s, ticks.take(k), review_interval, runs.take(k))[i],
            ticks[k],
            review_interval,
        ) by {
            if k < ticks.len() - 1 {
                assert(ticks.take(k) =~= pticks.take(k));
                assert(runs.take(k) =~= pruns.take(k));
            } else {
                assert(ticks.take(k) =~= pticks);
                assert(runs.take(k) =~= pruns);
            }
        }
    }
}

/// Law (review cadence): take any run of ticks in which entry `i`'s
/// predicate, whenever asked, answers true. If the entry enters the run
/// completed, it stays completed through the whole run, and it is eligible —
/// re-evaluated — exactly at the run's review ticks, the ones whose counter
/// is a multiple of the review interval.
pub proof fn lemma_completed_run_reviewed_on_schedule(
    s: Seq<ConditionEntry>,
    ticks: Seq<u64>,
    review_interval: u64,
    runs: Seq<Seq<bool>>,
    i: int,
)
    requires
        runs.len() == ticks.len(),
        0 <= i < s.len(),
        s[i].completed,
        forall|k: int| 0 <= k < runs.len() ==> runs[k][i],
    ensures
        run_model(s, ticks, review_interval, runs)[i].completed,
        forall|k: int|
            0 <= k < ticks.len() ==> (eligible(
                run_model(s, ticks.take(k), review_interval, runs.take(k))[i],
                ticks[k],
                review_interval,
            ) <==> ticks[k] % review_interval == 0),
    decreases ticks.len(),
{
    if ticks.len() == 0 {
    } else {
        let pticks = ticks.drop_last();
        let pruns = runs.drop_last();
        let t = ticks.last();
        let r = runs.last();
        lemma_completed_run_reviewed_on_schedule(s, pticks, review_interval, pruns, i);
        lemma_run_model_len(s, pticks, review_interval, pruns);
        assert(pticks.push(t) =~= ticks);
        assert(pruns.push(r) =~= runs);
        lemma_run_model_snoc(s, pticks, review_interval, pruns, t, r);
        assert(run_model(s, ticks, review_interval, runs)[i].completed);
        assert forall|k: int| 0 <= k < ticks.len() implies (eligible(
            run_model(s, ticks.take(k), review_interval, runs.take(k))[i],
            ticks[k],
            review_interval,
        ) <==> ticks[k] % review_interval == 0) by {
            if k < ticks.len() - 1 {
                assert(ticks.take(k) =~= pticks.take(k));
                assert(runs.take(k) =~= pruns.take(k));
            } else {
                assert(ticks.take(k) =~= pticks);
                assert(runs.take(k) =~= pruns);
            }
        }
    }
}

/// The scoring engine. Construction gives an empty ledger and registry, the
/// default tuning, and a stopped scheduler.
#[derive(Debug)]
pub struct Engine {
    ledger: ScoreLedger,
    registry: ConditionRegistry,
    poll_freq: u64,
    review_interval: u64,
    running: bool,
    in_tick: bool,
    tick: u64,
}

impl Engine {
    /// The ledger's entries, in insertion order.
    pub closed spec fn ledger_model(&self) -> Seq<ScoreEntry> {
        self.ledger@
    }

    /// The registry's entries, in registration order.
    pub closed spec fn registry_model(&self) -> Seq<ConditionEntry> {
        self.registry@
    }

    /// How many ticks per second the caller's loop should run.
    pub closed spec fn poll_freq_spec(&self) -> u64 {
        self.poll_freq
    }

    /// Every how many ticks completed entries are re-evaluated.
    pub closed spec fn review_interval_spec(&self) -> u64 {
        self.review_interval
    }

    /// Whether the scheduler is in the `Running` state.
    pub closed spec fn running_spec(&self) -> bool {
        self.running
    }

    /// Whether a tick's dispatch pass is in flight.
    pub closed spec fn in_tick_spec(&self) -> bool {
        self.in_tick
    }

    /// The tick counter.
    pub closed spec fn tick_spec(&self) -> u64 {
        self.tick
    }

    /// The engine's invariant: ledger ids are unique and both tuning values
    /// are nonzero, so that the tick arithmetic they gate is defined.
    pub open spec fn wf(&self) -> bool {
        &&& ids_unique(self.ledger_model())
        &&& self.poll_freq_spec() >= 1
        &&& self.review_interval_spec() >= 1
    }

    /// Everything but the ledger is the same in `a` and `b`.
    pub open spec fn same_but_ledger(a: &Engine, b: &Engine) -> bool {
        &&& a.registry_model() == b.registry_model()
        &&& Engine::same_sched(a, b)
    }

    /// Everything but the registry is the same in `a` and `b`.
    pub open spec fn same_but_registry(a: &Engine, b: &Engine) -> bool {
        &&& a.ledger_model() == b.ledger_model()
        &&& Engine::same_sched(a, b)
    }

    /// The scheduling state (tuning, run state, tick flags) is the same in
    /// `a` and `b`.
    pub open spec fn same_sched(a: &Engine, b: &Engine) -> bool {
        &&& a.poll_freq_spec() == b.poll_freq_spec()
        &&& a.review_interval_spec() == b.review_interval_spec()
        &&& a.running_spec() == b.running_spec()
        &&& a.in_tick_spec() == b.in_tick_spec()
        &&& a.tick_spec() == b.tick_spec()
    }

    /// Create a stopped engine with no scores and no conditions, polling five
    /// times per second and reviewing completed entries every ten ticks.
    pub fn new() -> (r: Engine)
        ensures
            r.ledger_model() =~= Seq::<ScoreEntry>::empty(),
            r.registry_model() =~= Seq::<ConditionEntry>::empty(),
            r.poll_freq_spec() == 5,
            r.review_interval_spec() == 10,
            !r.running_spec(),
            !r.in_tick_spec(),
            r.tick_spec() == 0,
            r.wf(),
    {
        Engine {
            ledger: ScoreLedger::new(),
            registry: ConditionRegistry::new(),
            poll_freq: 5,
            review_interval: 10,
            running: false,
            in_tick: false,
            tick: 0,
        }
    }

    /// Register a file check on `path`; its predicate will be handed the open
    /// file, or an absence signal, by the caller's dispatch loop.
    pub fn add_file_vuln(&mut self, path: String) -> (idx: usize)
        requires
            old(self).wf(),
        ensures
            final(self).wf(),
            final(self).registry_model() == old(self).registry_model().push(
                (ConditionEntry {
                    condition: Condition::FileVuln { path, cursor: 0 },
                    completed: false,
                }),
            ),
            idx == old(self).registry_model().len(),
            Engine::same_but_registry(old(self), final(self)),
    {
        self.registry.add_file_vuln(path)
    }

    /// Register an application check on the application called `name`,
    /// installed through `install_method`.
    pub fn add_app_vuln(&mut self, name: String, install_method: InstallMethod) -> (idx: usize)
        requires
            old(self).wf(),
        ensures
            final(self).wf(),
            final(self).registry_model() == old(self).registry_model().push(
                (ConditionEntry {
                    condition: Condition::AppVuln { app: AppData { install_method, name } },
                    completed: false,
                }),
            ),
            idx == old(self).registry_model().len(),
            Engine::same_but_registry(old(self), final(self)),
    {
        self.registry.add_app_vuln(AppData { install_method, name })
    }

    /// Register a user check on `username`.
    pub fn add_user_vuln(&mut self, username: String) -> (idx: usize)
        requires
            old(self).wf(),
        ensures
            final(self).wf(),
            final(self).registry_model() == old(self).registry_model().push(
                (ConditionEntry {
                    condition: Condition::UserVuln { username },
                    completed: false,
                }),
            ),
            idx == old(self).registry_model().len(),
            Engine::same_but_registry(old(self), final(self)),
    {
        self.registry.add_user_vuln(username)
    }

    /// Register a check that takes no context. Hooks are registered the same
    /// way: a hook is a custom condition whose answer the caller discards.
    pub fn add_misc_vuln(&mut self) -> (idx: usize)
        requires
            old(self).wf(),
        ensures
            final(self).wf(),
            final(self).registry_model() == old(self).registry_model().push(
                (ConditionEntry { condition: Condition::CustomVuln, completed: false }),
            ),
            idx == old(self).registry_model().len(),
            Engine::same_but_registry(old(self), final(self)),
    {
        self.registry.add_misc_vuln()
    }

    /// Set how many ticks per second the caller's loop should run.
    pub fn set_freq(&mut self, frequency: u64)
        requires
            old(self).wf(),
            frequency >= 1,
        ensures
            final(self).wf(),
            final(self).poll_freq_spec() == frequency,
            final(self).ledger_model() == old(self).ledger_model(),
            final(self).registry_model() == old(self).registry_model(),
            final(self).review_interval_spec() == old(self).review_interval_spec(),
            final(self).running_spec() == old(self).running_spec(),
            final(self).in_tick_spec() == old(self).in_tick_spec(),
            final(self).tick_spec() == old(self).tick_spec(),
    {
        self.poll_freq = frequency;
    }

    /// Set how many ticks per second the caller's loop should run. The older
    /// name of [`Engine::set_freq`].
    pub fn set_update_freq(&mut self, frequency: u64)
        requires
            old(self).wf(),
            frequency >= 1,
        ensures
            final(self).wf(),
            final(self).poll_freq_spec() == frequency,
            final(self).ledger_model() == old(self).ledger_model(),
            final(self).registry_model() == old(self).registry_model(),
            final(self).review_interval_spec() == old(self).review_interval_spec(),
            final(self).running_spec() == old(self).running_spec(),
            final(self).in_tick_spec() == old(self).in_tick_spec(),
            final(self).tick_spec() == old(self).tick_spec(),
    {
        self.set_freq(frequency);
    }

    /// Set every how many ticks completed entries are re-evaluated.
    pub fn set_completed_freq(&mut self, frequency: u64)
        requires
            old(self).wf(),
            frequency >= 1,
        ensures
            final(self).wf(),
            final(self).review_interval_spec() == frequency,
            final(self).ledger_model() == old(self).ledger_model(),
            final(self).registry_model() == old(self).registry_model(),
            final(self).poll_freq_spec() == old(self).poll_freq_spec(),
            final(self).running_spec() == old(self).running_spec(),
            final(self).in_tick_spec() == old(self).in_tick_spec(),
            final(self).tick_spec() == old(self).tick_spec(),
    {
        self.review_interval = frequency;
    }

    /// Set every how many ticks completed entries are re-evaluated. The older
    /// name of [`Engine::set_completed_freq`].
    pub fn set_completed_update_freq(&mut self, frequency: u64)
        requires
            old(self).wf(),
            frequency >= 1,
        ensures
            final(self).wf(),
            final(self).review_interval_spec() == frequency,
            final(self).ledger_model() == old(self).ledger_model(),
            final(self).registry_model() == old(self).registry_model(),
            final(self).poll_freq_spec() == old(self).poll_freq_spec(),
            final(self).running_spec() == old(self).running_spec(),
            final(self).in_tick_spec() == old(self).in_tick_spec(),
            final(self).tick_spec() == old(self).tick_spec(),
    {
        self.set_completed_freq(frequency);
    }

    /// Write (`id`, `add`, `reason`) into the ledger: overwrite the entry for
    /// `id` in place when one exists, keeping its position, else append.
    pub fn add_score(&mut self, id: u64, add: i32, reason: String)
        requires
            old(self).wf(),
        ensures
            final(self).wf(),
            final(self).ledger_model() == upsert_model(old(self).ledger_model(), id, add, reason),
            Engine::same_but_ledger(old(self), final(self)),
    {
        self.ledger.upsert(id, add, reason);
    }

    /// Remove the ledger entry carrying `id`. Returns `Err(())` and leaves
    /// the ledger unchanged when no such entry exists.
    pub fn remove_score(&mut self, id: u64) -> (r: Result<(), ()>)
        requires
            old(self).wf(),
        ensures
            final(self).wf(),
            final(self).ledger_model() == remove_model(old(self).ledger_model(), id),
            r is Ok <==> contains_id(old(self).ledger_model(), id),
            Engine::same_but_ledger(old(self), final(self)),
    {
        self.ledger.remove(id)
    }

    /// The report: each ledger entry's reason and value, in ledger order.
    pub fn generate_score_report(&self) -> (r: Vec<(String, i32)>)
        ensures
            r@ == report_model(self.ledger_model()),
    {
        self.ledger.report()
    }

    /// The sum of all values currently held in the ledger.
    pub fn calc_total_score(&self) -> (r: i128)
        ensures
            r == total_model(self.ledger_model()),
    {
        self.ledger.total()
    }

    /// The ledger entry carrying `id`, copied out, if one is present.
    pub fn get_entry(&self, id: u64) -> (r: Option<(u64, i32, String)>)
        requires
            self.wf(),
        ensures
            match r {
                Some(t) => lookup_model(self.ledger_model(), id) == Some(
                    (ScoreEntry { id: t.0, value: t.1, reason: t.2 }),
                ) && t.0 == id,
                None => lookup_model(self.ledger_model(), id) is None,
            },
    {
        self.ledger.get_entry(id)
    }

    /// Whether a ledger entry carrying `id` is present.
    pub fn entry_exists(&self, id: u64) -> (r: bool)
        requires
            self.wf(),
        ensures
            r == contains_id(self.ledger_model(), id),
    {
        self.ledger.entry_exists(id)
    }

    /// Enter the `Running` state. The caller's loop then ticks until it
    /// observes [`Engine::is_running`] go false.
    pub fn start(&mut self)
        requires
            old(self).wf(),
        ensures
            final(self).wf(),
            final(self).running_spec(),
            final(self).ledger_model() == old(self).ledger_model(),
            final(self).registry_model() == old(self).registry_model(),
            final(self).poll_freq_spec() == old(self).poll_freq_spec(),
            final(self).review_interval_spec() == old(self).review_interval_spec(),
            final(self).in_tick_spec() == old(self).in_tick_spec(),
            final(self).tick_spec() == old(self).tick_spec(),
    {
        self.running = true;
    }

    /// Leave the `Running` state. Nothing else changes: an in-flight tick is
    /// not aborted, and the ledger, the registry and the counter are left as
    /// they are — the caller's loop exits at the next tick boundary. Waiting
    /// for an in-flight tick to finish (the blocking form) is the caller's
    /// loop's affair; the flag here records only the request.
    pub fn stop(&mut self, blocking: bool)
        requires
            old(self).wf(),
        ensures
            final(self).wf(),
            !final(self).running_spec(),
            final(self).ledger_model() == old(self).ledger_model(),
            final(self).registry_model() == old(self).registry_model(),
            final(self).poll_freq_spec() == old(self).poll_freq_spec(),
            final(self).review_interval_spec() == old(self).review_interval_spec(),
            final(self).in_tick_spec() == old(self).in_tick_spec(),
            final(self).tick_spec() == old(self).tick_spec(),
    {
        let _ = blocking;
        self.running = false;
    }

    /// Leave the `Running` state without waiting. The older, free-standing
    /// name of [`Engine::stop`].
    pub fn stop_engine(&mut self)
        requires
            old(self).wf(),
        ensures
            final(self).wf(),
            !final(self).running_spec(),
            final(self).ledger_model() == old(self).ledger_model(),
            final(self).registry_model() == old(self).registry_model(),
            final(self).poll_freq_spec() == old(self).poll_freq_spec(),
            final(self).review_interval_spec() == old(self).review_interval_spec(),
            final(self).in_tick_spec() == old(self).in_tick_spec(),
            final(self).tick_spec() == old(self).tick_spec(),
    {
        self.stop(false);
    }

    /// Whether the scheduler is in the `Running` state.
    pub fn is_running(&self) -> (r: bool)
        ensures
            r == self.running_spec(),
    {
        self.running
    }

    /// Whether a tick's dispatch pass is in flight.
    pub fn in_execution(&self) -> (r: bool)
        ensures
            r == self.in_tick_spec(),
    {
        self.in_tick
    }

    /// The tick counter.
    pub fn current_tick(&self) -> (r: u64)
        ensures
            r == self.tick_spec(),
    {
        self.tick
    }

    /// How many ticks per second the caller's loop should run.
    pub fn poll_frequency(&self) -> (r: u64)
        ensures
            r == self.poll_freq_spec(),
    {
        self.poll_freq
    }

    /// Every how many ticks completed entries are re-evaluated.
    pub fn completed_review_interval(&self) -> (r: u64)
        ensures
            r == self.review_interval_spec(),
    {
        self.review_interval
    }

    /// The number of registered conditions.
    pub fn condition_count(&self) -> (r: usize)
        ensures
            r == self.registry_model().len(),
    {
        self.registry.len()
    }

    /// The condition at `i`, for the caller's dispatch loop.
    pub fn condition_at(&self, i: usize) -> (r: &Condition)
        requires
            i < self.registry_model().len(),
        ensures
            *r == self.registry_model()[i as int].condition,
    {
        self.registry.condition_at(i)
    }

    /// Whether the condition at `i` is currently believed fixed.
    pub fn is_completed(&self, i: usize) -> (r: bool)
        requires
            i < self.registry_model().len(),
        ensures
            r == self.registry_model()[i as int].completed,
    {
        self.registry.is_completed(i)
    }

    /// Open a tick: mark the dispatch pass in flight and return the plan, the
    /// indices of exactly the entries eligible at the current counter, in
    /// registration order. The caller evaluates each planned entry's
    /// predicate and records its answer with [`Engine::record_result`].
    pub fn begin_tick(&mut self) -> (plan: Vec<usize>)
        requires
            old(self).wf(),
        ensures
            final(self).wf(),
            final(self).in_tick_spec(),
            final(self).ledger_model() == old(self).ledger_model(),
            final(self).registry_model() == old(self).registry_model(),
            final(self).poll_freq_spec() == old(self).poll_freq_spec(),
            final(self).review_interval_spec() == old(self).review_interval_spec(),
            final(self).running_spec() == old(self).running_spec(),
            final(self).tick_spec() == old(self).tick_spec(),
            forall|j: int|
                0 <= j < plan@.len() ==> (plan@[j] as int) < old(self).registry_model().len()
                    && eligible(
                    old(self).registry_model()[plan@[j] as int],
                    old(self).tick_spec(),
                    old(self).review_interval_spec(),
                ),
            forall|i: int|
                0 <= i < old(self).registry_model().len() && eligible(
                    old(self).registry_model()[i],
                    old(self).tick_spec(),
                    old(self).review_interval_spec(),
                ) ==> exists|j: int| 0 <= j < plan@.len() && plan@[j] as int == i,
            forall|j1: int, j2: int| 0 <= j1 < j2 < plan@.len() ==> plan@[j1] < plan@[j2],
    {
        self.in_tick = true;
        let n = self.registry.len();
        let mut plan: Vec<usize> = Vec::new();
        let mut i: usize = 0;
        while i < n
            invariant
                self.wf(),
                n == self.registry_model().len(),
                i <= n,
                forall|j: int|
                    0 <= j < plan@.len() ==> (plan@[j] as int) < i && eligible(
                        self.registry_model()[plan@[j] as int],
                        self.tick_spec(),
                        self.review_interval_spec(),
                    ),
                forall|k: int|
                    0 <= k < i && eligible(
                        self.registry_model()[k],
                        self.tick_spec(),
                        self.review_interval_spec(),
                    ) ==> exists|j: int| 0 <= j < plan@.len() && plan@[j] as int == k,
                forall|j1: int, j2: int| 0 <= j1 < j2 < plan@.len() ==> plan@[j1] < plan@[j2],
            decreases n - i,
        {
            let completed = self.registry.is_completed(i);
            let ghost plan_before = plan@;
            if !completed || self.tick % self.review_interval == 0 {
                plan.push(i);
                proof {
                    assert(plan@ == plan_before.push(i));
                    assert(plan@[plan_before.len() as int] == i);
                    assert(forall|j: int| 0 <= j < plan_before.len() ==> plan@[j] == plan_before[j]);
                    assert forall|k: int|
                        0 <= k < i + 1 && eligible(
                            self.registry_model()[k],
                            self.tick_spec(),
                            self.review_interval_spec(),
                        ) implies exists|j: int| 0 <= j < plan@.len() && plan@[j] as int == k by {
                        if k < i {
                            let j = choose|j: int|
                                0 <= j < plan_before.len() && plan_before[j] as int == k;
                            assert(plan@[j] as int == k);
                        } else {
                            assert(plan@[plan_before.len() as int] as int == k);
                        }
                    }
                }
            } else {
                proof {
                    assert(!eligible(
                        self.registry_model()[i as int],
                        self.tick_spec(),
                        self.review_interval_spec(),
                    ));
                }
            }
            i += 1;
        }
        plan
    }

    /// Record the answer a predicate returned for entry `i` of the plan's
    /// registry. The answer overwrites the completion flag unconditionally:
    /// each evaluation is authoritative for its tick.
    pub fn record_result(&mut self, i: usize, result: bool)
        requires
            old(self).wf(),
            i < old(self).registry_model().len(),
        ensures
            final(self).wf(),
            final(self).registry_model() == old(self).registry_model().update(
                i as int,
                (ConditionEntry {
                    condition: old(self).registry_model()[i as int].condition,
                    completed: result,
                }),
            ),
            Engine::same_but_registry(old(self), final(self)),
    {
        self.registry.record_result(i, result);
    }

    /// Persist a file check's byte cursor after its predicate ran, so the
    /// next dispatch resumes reading where this one stopped.
    pub fn set_file_cursor(&mut self, i: usize, pos: u64)
        requires
            old(self).wf(),
            i < old(self).registry_model().len(),
            old(self).registry_model()[i as int].condition is FileVuln,
        ensures
            final(self).wf(),
            final(self).registry_model() == old(self).registry_model().update(
                i as int,
                (ConditionEntry {
                    condition: Condition::FileVuln {
                        path: old(self).registry_model()[i as int].condition->path,
                        cursor: pos,
                    },
                    completed: old(self).registry_model()[i as int].completed,
                }),
            ),
            Engine::same_but_registry(old(self), final(self)),
    {
        self.registry.set_file_cursor(i, pos);
    }

    /// Close a tick: clear the in-flight mark and advance the counter.
    pub fn end_tick(&mut self)
        requires
            old(self).wf(),
            old(self).tick_spec() < u64::MAX,
        ensures
            final(self).wf(),
            !final(self).in_tick_spec(),
            final(self).tick_spec() == old(self).tick_spec() + 1,
            final(self).ledger_model() == old(self).ledger_model(),
            final(self).registry_model() == old(self).registry_model(),
            final(self).poll_freq_spec() == old(self).poll_freq_spec(),
            final(self).review_interval_spec() == old(self).review_interval_spec(),
            final(self).running_spec() == old(self).running_spec(),
    {
        self.in_tick = false;
        self.tick = self.tick + 1;
    }

    /// Run one whole tick when every predicate's answer is already at hand:
    /// entry `i`'s answer is `results[i]`. Every entry eligible at the
    /// current counter takes its answer as its new completion flag; every
    /// other entry is untouched; the counter advances by one.
    pub fn update_engine(&mut self, results: &Vec<bool>)
        requires
            old(self).wf(),
            results@.len() == old(self).registry_model().len(),
            old(self).tick_spec() < u64::MAX,
        ensures
            final(self).wf(),
            final(self).registry_model() == tick_model(
                old(self).registry_model(),
                old(self).tick_spec(),
                old(self).review_interval_spec(),
                results@,
            ),
            final(self).tick_spec() == old(self).tick_spec() + 1,
            final(self).ledger_model() == old(self).ledger_model(),
            final(self).poll_freq_spec() == old(self).poll_freq_spec(),
            final(self).review_interval_spec() == old(self).review_interval_spec(),
            final(self).running_spec() == old(self).running_spec(),
            final(self).in_tick_spec() == old(self).in_tick_spec(),
    {
        let ghost s0 = self.registry_model();
        let n = self.registry.len();
        let mut i: usize = 0;
        while i < n
            invariant
                self.wf(),
                n == s0.len(),
                i <= n,
                results@.len() == n,
                self.registry_model().len() == n,
                self.tick_spec() == old(self).tick_spec(),
                self.review_interval_spec() == old(self).review_interval_spec(),
                self.ledger_model() == old(self).ledger_model(),
                self.poll_freq_spec() == old(self).poll_freq_spec(),
                self.running_spec() == old(self).running_spec(),
                self.in_tick_spec() == old(self).in_tick_spec(),
                forall|j: int|
                    0 <= j < i ==> self.registry_model()[j] == tick_model(
                        s0,
                        old(self).tick_spec(),
                        old(self).review_interval_spec(),
                        results@,
                    )[j],
                forall|j: int| i <= j < n ==> self.registry_model()[j] == s0[j],
            decreases n - i,
        {
            let completed = self.registry.is_completed(i);
            if !completed || self.tick % self.review_interval == 0 {
                self.registry.record_result(i, results[i]);
            }
            i += 1;
        }
        proof {
            assert(self.registry_model() =~= tick_model(
                s0,
                old(self).tick_spec(),
                old(self).review_interval_spec(),
                results@,
            ));
        }
        self.tick = self.tick + 1;
    }
}

} // verus!
