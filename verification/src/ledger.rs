//! The score ledger: an ordered collection of score entries, at most one per id.
//!
//! Every operation is specified against a mathematical model of the ledger,
//! a sequence of entries with pairwise-distinct ids kept in insertion order.

use vstd::prelude::*;

verus! {

/// One row of the ledger: an identifier, the points granted, and the reason
/// shown in reports.
#[derive(Debug)]
pub struct ScoreEntry {
    pub id: u64,
    pub value: i32,
    pub reason: String,
}

impl Clone for ScoreEntry {
    fn clone(&self) -> (r: Self)
        ensures
            r == *self,
    {
        ScoreEntry { id: self.id, value: self.value, reason: self.reason.clone() }
    }
}

/// True when no two entries of `s` share an id.
pub open spec fn ids_unique(s: Seq<ScoreEntry>) -> bool {
    forall|i: int, j: int| 0 <= i < j < s.len() ==> s[i].id != s[j].id
}

/// True when some entry of `s` carries `id`.
pub open spec fn contains_id(s: Seq<ScoreEntry>, id: u64) -> bool {
    exists|i: int| 0 <= i < s.len() && s[i].id == id
}

/// The index of the entry carrying `id`; meaningful when `contains_id` holds
/// and `ids_unique` makes it the only one.
pub open spec fn idx_of(s: Seq<ScoreEntry>, id: u64) -> int {
    choose|i: int| 0 <= i < s.len() && s[i].id == id
}

/// The entry of `s` carrying `id`, if any.
pub open spec fn lookup_model(s: Seq<ScoreEntry>, id: u64) -> Option<ScoreEntry> {
    if contains_id(s, id) {
        Some(s[idx_of(s, id)])
    } else {
        None
    }
}

/// The sum of all values held in `s`.
pub open spec fn total_model(s: Seq<ScoreEntry>) -> int
    decreases s.len(),
{
    if s.len() == 0 {
        0
    } else {
        total_model(s.drop_last()) + s.last().value
    }
}

/// The ledger after writing (`id`, `value`, `reason`): overwritten in place
/// when `id` is present, appended otherwise.
pub open spec fn upsert_model(s: Seq<ScoreEntry>, id: u64, value: i32, reason: String) -> Seq<
    ScoreEntry,
> {
    if contains_id(s, id) {
        s.update(idx_of(s, id), ScoreEntry { id, value, reason })
    } else {
        s.push(ScoreEntry { id, value, reason })
    }
}

/// The ledger after removing `id`: unchanged when `id` is absent.
pub open spec fn remove_model(s: Seq<ScoreEntry>, id: u64) -> Seq<ScoreEntry> {
    if contains_id(s, id) {
        s.remove(idx_of(s, id))
    } else {
        s
    }
}

/// The report drawn from `s`: each entry's reason and value, in ledger order.
pub open spec fn report_model(s: Seq<ScoreEntry>) -> Seq<(String, i32)> {
    Seq::new(s.len(), |i: int| (s[i].reason, s[i].value))
}

/// With pairwise-distinct ids, an index holding `id` is the index `idx_of`
/// names.
pub proof fn lemma_idx_of_unique(s: Seq<ScoreEntry>, id: u64, i: int)
    requires
        ids_unique(s),
        0 <= i < s.len(),
        s[i].id == id,
    ensures
        contains_id(s, id),
        idx_of(s, id) == i,
{
    assert(contains_id(s, id));
    let k = idx_of(s, id);
    assert(0 <= k < s.len() && s[k].id == id);
    if k < i {
        assert(s[k].id != s[i].id);
    } else if i < k {
        assert(s[i].id != s[k].id);
    }
}

/// Appending one entry adds its value to the total.
pub proof fn lemma_total_push(s: Seq<ScoreEntry>, e: ScoreEntry)
    ensures
        total_model(s.push(e)) == total_model(s) + e.value,
{
    assert(s.push(e).drop_last() =~= s);
}

/// Overwriting the entry at `k` moves the total by the difference of values.
pub proof fn lemma_total_update(s: Seq<ScoreEntry>, k: int, e: ScoreEntry)
    requires
        0 <= k < s.len(),
    ensures
        total_model(s.update(k, e)) == total_model(s) - s[k].value + e.value,
    decreases s.len(),
{
    let t = s.update(k, e);
    if k == s.len() - 1 {
        assert(t.drop_last() =~= s.drop_last());
    } else {
        assert(t.drop_last() =~= s.drop_last().update(k, e));
        lemma_total_update(s.drop_last(), k, e);
    }
}

/// Removing the entry at `k` subtracts its value from the total.
pub proof fn lemma_total_remove(s: Seq<ScoreEntry>, k: int)
    requires
        0 <= k < s.len(),
    ensures
        total_model(s.remove(k)) == total_model(s) - s[k].value,
    decreases s.len(),
{
    let t = s.remove(k);
    if k == s.len() - 1 {
        assert(t =~= s.drop_last());
    } else {
        assert(t.drop_last() =~= s.drop_last().remove(k));
        assert(t.last() == s.last());
        lemma_total_remove(s.drop_last(), k);
    }
}

/// The total of a ledger of `n` entries lies within `n` times the value range.
pub proof fn lemma_total_bounds(s: Seq<ScoreEntry>)
    ensures
        -(s.len() as int) * 0x8000_0000 <= total_model(s) <= (s.len() as int) * 0x7fff_ffff,
    decreases s.len(),
{
    if s.len() > 0 {
        lemma_total_bounds(s.drop_last());
    }
}

/// The ordered score ledger. Holds at most one entry per id; entries stay in
/// the order of first insertion.
#[derive(Debug)]
pub struct ScoreLedger {
    entries: Vec<ScoreEntry>,
}

impl View for ScoreLedger {
    type V = Seq<ScoreEntry>;

    closed spec fn view(&self) -> Seq<ScoreEntry> {
        self.entries@
    }
}

impl ScoreLedger {
    /// The ledger's invariant: no two entries share an id.
    pub open spec fn wf(&self) -> bool {
        ids_unique(self@)
    }

    /// Create an empty ledger.
    pub fn new() -> (r: ScoreLedger)
        ensures
            r@ =~= Seq::<ScoreEntry>::empty(),
            r.wf(),
    {
        ScoreLedger { entries: Vec::new() }
    }

    /// The index of the entry carrying `id`, if one is present.
    fn find_index(&self, id: u64) -> (r: Option<usize>)
        requires
            self.wf(),
        ensures
            match r {
                Some(i) => i < self@.len() && self@[i as int].id == id && contains_id(self@, id)
                    && idx_of(self@, id) == i,
                None => !contains_id(self@, id),
            },
    {
        let n = self.entries.len();
        let mut i: usize = 0;
        while i < n
            invariant
                self.wf(),
                n == self@.len(),
                i <= n,
                forall|j: int| 0 <= j < i ==> self@[j].id != id,
            decreases n - i,
        {
            if self.entries[i].id == id {
                proof {
                    lemma_idx_of_unique(self@, id, i as int);
                }
                return Some(i);
            }
            i += 1;
        }
        None
    }

    /// Write (`id`, `value`, `reason`): overwrite the entry for `id` in place
    /// when one exists, keeping its position, else append a new entry.
    pub fn upsert(&mut self, id: u64, value: i32, reason: String)
        requires
            old(self).wf(),
        ensures
            final(self).wf(),
            final(self)@ == upsert_model(old(self)@, id, value, reason),
    {
        proof {
            lemma_upsert_post(self@, id, value, reason);
        }
        match self.find_index(id) {
            Some(i) => {
                self.entries.set(i, ScoreEntry { id, value, reason });
            },
            None => {
                self.entries.push(ScoreEntry { id, value, reason });
            },
        }
    }

    /// Remove the entry carrying `id`. Returns `Err(())` and leaves the
    /// ledger unchanged when no such entry exists.
    pub fn remove(&mut self, id: u64) -> (r: Result<(), ()>)
        requires
            old(self).wf(),
        ensures
            final(self).wf(),
            final(self)@ == remove_model(old(self)@, id),
            r is Ok <==> contains_id(old(self)@, id),
    {
        proof {
            lemma_remove_post(self@, id);
        }
        match self.find_index(id) {
            Some(i) => {
                self.entries.remove(i);
                Ok(())
            },
            None => Err(()),
        }
    }

    /// The sum of all values currently held.
    pub fn total(&self) -> (r: i128)
        ensures
            r == total_model(self@),
    {
        let n = self.entries.len();
        let mut acc: i128 = 0;
        let mut i: usize = 0;
        while i < n
            invariant
                n == self@.len(),
                i <= n,
                acc == total_model(self@.take(i as int)),
                -(i as int) * 0x8000_0000 <= acc <= (i as int) * 0x7fff_ffff,
            decreases n - i,
        {
            proof {
                assert(self@.take(i + 1).drop_last() =~= self@.take(i as int));
                assert(self@.take(i + 1).last() == self@[i as int]);
            }
            acc = acc + self.entries[i].value as i128;
            i += 1;
        }
        proof {
            assert(self@.take(n as int) =~= self@);
        }
        acc
    }

    /// The report: each entry's reason and value, in ledger order.
    pub fn report(&self) -> (r: Vec<(String, i32)>)
        ensures
            r@ == report_model(self@),
    {
        let n = self.entries.len();
        let mut out: Vec<(String, i32)> = Vec::new();
        let mut i: usize = 0;
        while i < n
            invariant
                n == self@.len(),
                i <= n,
                out@.len() == i,
                forall|j: int| 0 <= j < i ==> out@[j] == (self@[j].reason, self@[j].value),
            decreases n - i,
        {
            let e = &self.entries[i];
            out.push((e.reason.clone(), e.value));
            i += 1;
        }
        proof {
            assert(out@ =~= report_model(self@));
        }
        out
    }

    /// The entry carrying `id`, copied out, if one is present.
    pub fn get_entry(&self, id: u64) -> (r: Option<(u64, i32, String)>)
        requires
            self.wf(),
        ensures
            match r {
                Some(t) => lookup_model(self@, id) == Some(
                    (ScoreEntry { id: t.0, value: t.1, reason: t.2 }),
                ) && t.0 == id,
                None => lookup_model(self@, id) is None,
            },
    {
        match self.find_index(id) {
            Some(i) => {
                let e = &self.entries[i];
                Some((e.id, e.value, e.reason.clone()))
            },
            None => None,
        }
    }

    /// Whether an entry carrying `id` is present.
    pub fn entry_exists(&self, id: u64) -> (r: bool)
        requires
            self.wf(),
        ensures
            r == contains_id(self@, id),
    {
        match self.find_index(id) {
            Some(_) => true,
            None => false,
        }
    }
}

/// Law: writing (`id`, `value`, `reason`) leaves exactly one entry for `id`,
/// holding the values written last; entries for every other id are unchanged,
/// and the total moves by the difference against what `id` held before.
pub proof fn lemma_upsert_post(s: Seq<ScoreEntry>, id: u64, value: i32, reason: String)
    requires
        ids_unique(s),
    ensures
        ids_unique(upsert_model(s, id, value, reason)),
        lookup_model(upsert_model(s, id, value, reason), id) == Some(
            (ScoreEntry { id, value, reason }),
        ),
        forall|other: u64|
            other != id ==> lookup_model(upsert_model(s, id, value, reason), other)
                == lookup_model(s, other),
        total_model(upsert_model(s, id, value, reason)) == total_model(s) + value - (
        match lookup_model(s, id) {
            Some(e) => e.value as int,
            None => 0,
        }),
{
    let e = ScoreEntry { id, value, reason };
    let t = upsert_model(s, id, value, reason);
    if contains_id(s, id) {
        let k = idx_of(s, id);
        assert(0 <= k < s.len() && s[k].id == id);
        assert(ids_unique(t)) by {
            assert(forall|i: int, j: int| 0 <= i < j < t.len() ==> t[i].id != t[j].id) by {
                assert(forall|i: int| 0 <= i < t.len() ==> t[i].id == s[i].id);
            }
        }
        lemma_idx_of_unique(t, id, k);
        lemma_total_update(s, k, e);
        assert forall|other: u64| other != id implies lookup_model(t, other) == lookup_model(
            s,
            other,
        ) by {
            lemma_lookup_same_ids(s, t, other);
        }
    } else {
        let t2 = s.push(e);
        assert(ids_unique(t2)) by {
            assert forall|i: int, j: int| 0 <= i < j < t2.len() implies t2[i].id != t2[j].id by {
                if j == s.len() {
                    assert(t2[j].id == id);
                    assert(t2[i].id == s[i].id);
                    assert(!contains_id(s, id));
                    assert(s[i].id != id);
                }
            }
        }
        lemma_idx_of_unique(t2, id, s.len() as int);
        lemma_total_push(s, e);
        assert forall|other: u64| other != id implies lookup_model(t2, other) == lookup_model(
            s,
            other,
        ) by {
            if contains_id(s, other) {
                let k = idx_of(s, other);
                assert(0 <= k < s.len() && s[k].id == other);
                assert(t2[k].id == other);
                lemma_idx_of_unique(t2, other, k);
            } else {
                if contains_id(t2, other) {
                    let k = idx_of(t2, other);
                    assert(0 <= k < t2.len() && t2[k].id == other);
                    assert(k != s.len());
                    assert(s[k].id == other);
                }
            }
        }
    }
}

/// Two sequences with the same ids at the same indices agree on where any id
/// lives; used to carry lookups across in-place updates.
proof fn lemma_lookup_same_ids(s: Seq<ScoreEntry>, t: Seq<ScoreEntry>, id: u64)
    requires
        ids_unique(s),
        t.len() == s.len(),
        forall|i: int| 0 <= i < s.len() ==> t[i].id == s[i].id,
        forall|i: int| 0 <= i < s.len() && s[i].id == id ==> t[i] == s[i],
    ensures
        lookup_model(t, id) == lookup_model(s, id),
{
    if contains_id(s, id) {
        let k = idx_of(s, id);
        assert(0 <= k < s.len() && s[k].id == id);
        assert(ids_unique(t));
        lemma_idx_of_unique(t, id, k);
    } else {
        if contains_id(t, id) {
            let k = idx_of(t, id);
            assert(0 <= k < t.len() && t[k].id == id);
            assert(s[k].id == id);
        }
    }
}

/// Law: removing an absent id leaves the ledger unchanged; removing a present
/// id deletes exactly that entry, keeps the relative order of the remaining
/// entries, and lowers the total by the removed value.
pub proof fn lemma_remove_post(s: Seq<ScoreEntry>, id: u64)
    requires
        ids_unique(s),
    ensures
        ids_unique(remove_model(s, id)),
        !contains_id(s, id) ==> remove_model(s, id) == s,
        contains_id(s, id) ==> remove_model(s, id).len() == s.len() - 1,
        contains_id(s, id) ==> !contains_id(remove_model(s, id), id),
        contains_id(s, id) ==> total_model(remove_model(s, id)) == total_model(s) - s[idx_of(
            s,
            id,
        )].value,
        forall|other: u64|
            other != id ==> lookup_model(remove_model(s, id), other) == lookup_model(s, other),
{
    if contains_id(s, id) {
        let k = idx_of(s, id);
        assert(0 <= k < s.len() && s[k].id == id);
        let t = s.remove(k);
        lemma_total_remove(s, k);
        assert(ids_unique(t)) by {
            assert forall|i: int, j: int| 0 <= i < j < t.len() implies t[i].id != t[j].id by {
                let si = if i < k {
                    i
                } else {
                    i + 1
                };
                let sj = if j < k {
                    j
                } else {
                    j + 1
                };
                assert(t[i] == s[si]);
                assert(t[j] == s[sj]);
            }
        }
        assert(!contains_id(t, id)) by {
            if contains_id(t, id) {
                let m = idx_of(t, id);
                assert(0 <= m < t.len() && t[m].id == id);
                let sm = if m < k {
                    m
                } else {
                    m + 1
                };
                assert(t[m] == s[sm]);
                assert(sm != k);
            }
        }
        assert forall|other: u64| other != id implies lookup_model(t, other) == lookup_model(
            s,
            other,
        ) by {
            if contains_id(s, other) {
                let m = idx_of(s, other);
                assert(0 <= m < s.len() && s[m].id == other);
                assert(m != k);
                let ti = if m < k {
                    m
                } else {
                    m - 1
                };
                assert(t[ti] == s[m]);
                lemma_idx_of_unique(t, other, ti);
            } else {
                if contains_id(t, other) {
                    let m = idx_of(t, other);
                    assert(0 <= m < t.len() && t[m].id == other);
                    let sm = if m < k {
                        m
                    } else {
                        m + 1
                    };
                    assert(t[m] == s[sm]);
                }
            }
        }
    }
}

/// The ledger after a sequence of writes, each one an upsert of its entry's
/// id, value and reason, applied first to last.
pub open spec fn apply_upserts(s: Seq<ScoreEntry>, ops: Seq<ScoreEntry>) -> Seq<ScoreEntry>
    decreases ops.len(),
{
    if ops.len() == 0 {
        s
    } else {
        apply_upserts(
            upsert_model(s, ops[0].id, ops[0].value, ops[0].reason),
            ops.drop_first(),
        )
    }
}

/// The position of the last write of `id` in `ops`; meaningful when some
/// write of `id` is there.
pub open spec fn last_write(ops: Seq<ScoreEntry>, id: u64) -> int
    decreases ops.len(),
{
    if ops.len() == 0 {
        -1
    } else if ops.last().id == id {
        ops.len() - 1
    } else {
        last_write(ops.drop_last(), id)
    }
}

/// True when some write in `ops` carries `id`.
pub open spec fn writes_id(ops: Seq<ScoreEntry>, id: u64) -> bool {
    exists|k: int| 0 <= k < ops.len() && ops[k].id == id
}

/// When `id` is written, `last_write` points at a write of `id` after which
/// no other write of `id` comes.
pub proof fn lemma_last_write_bounds(ops: Seq<ScoreEntry>, id: u64)
    requires
        writes_id(ops, id),
    ensures
        0 <= last_write(ops, id) < ops.len(),
        ops[last_write(ops, id)].id == id,
        forall|k: int| last_write(ops, id) < k < ops.len() ==> ops[k].id != id,
    decreases ops.len(),
{
    let pre = ops.drop_last();
    if ops.last().id == id {
    } else {
        assert(writes_id(pre, id)) by {
            let k = choose|k: int| 0 <= k < ops.len() && ops[k].id == id;
            assert(k != ops.len() - 1);
            assert(pre[k] == ops[k]);
        }
        lemma_last_write_bounds(pre, id);
        assert(ops[last_write(pre, id)] == pre[last_write(pre, id)]);
        assert forall|k: int| last_write(ops, id) < k < ops.len() implies ops[k].id != id by {
            if k < ops.len() - 1 {
                assert(ops[k] == pre[k]);
            }
        }
    }
}

/// Appending one write to a sequence of writes applies it to their result.
proof fn lemma_apply_upserts_snoc(s: Seq<ScoreEntry>, ops: Seq<ScoreEntry>, e: ScoreEntry)
    ensures
        apply_upserts(s, ops.push(e)) == upsert_model(
            apply_upserts(s, ops),
            e.id,
            e.value,
            e.reason,
        ),
    decreases ops.len(),
{
    if ops.len() == 0 {
        assert(ops.push(e)[0] == e);
        assert(ops.push(e).drop_first() =~= Seq::<ScoreEntry>::empty());
        assert(apply_upserts(upsert_model(s, e.id, e.value, e.reason), Seq::<ScoreEntry>::empty())
            == upsert_model(s, e.id, e.value, e.reason));
    } else {
        assert(ops.push(e)[0] == ops[0]);
        assert(ops.push(e).drop_first() =~= ops.drop_first().push(e));
        let s1 = upsert_model(s, ops[0].id, ops[0].value, ops[0].reason);
        assert(apply_upserts(s, ops.push(e)) == apply_upserts(s1, ops.drop_first().push(e)));
        lemma_apply_upserts_snoc(s1, ops.drop_first(), e);
        assert(apply_upserts(s, ops) == apply_upserts(s1, ops.drop_first()));
    }
}

/// Law (any sequence of writes): after the whole sequence the ledger still
/// holds at most one entry per id; an id written at least once reads as
/// exactly the values of its last write; an id never written reads as it did
/// before the sequence. The total is the resulting ledger's sum, so it sums
/// the last-written values across all distinct ids.
pub proof fn lemma_upsert_sequence(s: Seq<ScoreEntry>, ops: Seq<ScoreEntry>, id: u64)
    requires
        ids_unique(s),
    ensures
        ids_unique(apply_upserts(s, ops)),
        writes_id(ops, id) ==> lookup_model(apply_upserts(s, ops), id) == Some(
            (ScoreEntry {
                id,
                value: ops[last_write(ops, id)].value,
                reason: ops[last_write(ops, id)].reason,
            }),
        ),
        !writes_id(ops, id) ==> lookup_model(apply_upserts(s, ops), id) == lookup_model(s, id),
    decreases ops.len(),
{
    if ops.len() == 0 {
    } else {
        let pre = ops.drop_last();
        let e = ops.last();
        assert(pre.push(e) =~= ops);
        lemma_apply_upserts_snoc(s, pre, e);
        lemma_upsert_sequence(s, pre, id);
        let t = apply_upserts(s, pre);
        lemma_upsert_post(t, e.id, e.value, e.reason);
        if e.id == id {
            assert(writes_id(ops, id));
            assert(last_write(ops, id) == ops.len() - 1);
        } else {
            if writes_id(ops, id) {
                assert(writes_id(pre, id)) by {
                    let k = choose|k: int| 0 <= k < ops.len() && ops[k].id == id;
                    assert(k != ops.len() - 1);
                    assert(pre[k] == ops[k]);
                }
                lemma_last_write_bounds(pre, id);
                assert(last_write(ops, id) == last_write(pre, id));
                assert(ops[last_write(pre, id)] == pre[last_write(pre, id)]);
            } else {
                assert(!writes_id(pre, id)) by {
                    if writes_id(pre, id) {
                        let k = choose|k: int| 0 <= k < pre.len() && pre[k].id == id;
                        assert(ops[k] == pre[k]);
                    }
                }
            }
        }
    }
}

/// Law: an in-place overwrite of an existing id keeps every entry's position
/// and id, so the report keeps its order; only the overwritten row changes,
/// and it shows the reason and value written last.
pub proof fn lemma_upsert_preserves_order(s: Seq<ScoreEntry>, id: u64, value: i32, reason: String)
    requires
        ids_unique(s),
        contains_id(s, id),
    ensures
        upsert_model(s, id, value, reason).len() == s.len(),
        forall|i: int|
            0 <= i < s.len() ==> upsert_model(s, id, value, reason)[i].id == s[i].id,
        forall|i: int|
            0 <= i < s.len() && s[i].id != id ==> report_model(upsert_model(s, id, value, reason))[i]
                == report_model(s)[i],
        report_model(upsert_model(s, id, value, reason))[idx_of(s, id)] == (reason, value),
{
    let k = idx_of(s, id);
    assert(0 <= k < s.len() && s[k].id == id);
    let t = upsert_model(s, id, value, reason);
    assert(forall|i: int| 0 <= i < s.len() && s[i].id != id ==> t[i] == s[i]);
}

} // verus!
