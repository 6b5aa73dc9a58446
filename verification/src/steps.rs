//! The step table: the fan-control policy mapping temperature to fan level.
//!
//! A step table is a non-empty list of `(threshold, fan level)` pairs, kept
//! sorted ascending by threshold.  Each entry means "use this fan level while
//! the temperature stays strictly below this threshold", so the target level
//! for a sample is the level of the first entry whose threshold strictly
//! exceeds the sample.  When no entry's threshold exceeds the sample — the
//! temperature is at or above the highest threshold — the target falls back
//! to 0; a table therefore needs an effectively unbounded final threshold to
//! guarantee a non-zero ceiling level.

use vstd::prelude::*;
use vstd::seq_lib::{to_multiset_insert, to_multiset_remove};
use crate::config::ConfigError;
use crate::temperature::Temperature;

verus! {

/// One policy entry: the fan level to use while the temperature stays
/// strictly below the threshold.
#[derive(Clone, Copy, Debug, PartialEq, Eq, Structural)]
pub struct TempSpeedPair {
    /// Threshold in whole degrees.
    pub temperature: i16,
    /// Fan level as a percentage, 0 to 100.
    pub fan_speed: u8,
}

/// An entry applies to a sample when its threshold strictly exceeds it;
/// a sample exactly at the threshold still belongs to the band below.
pub open spec fn entry_exceeds(entry: TempSpeedPair, sample: Temperature) -> bool {
    sample.millidegrees < entry.temperature * 1000
}

/// Picks the entries with one given threshold; what a stable sort keeps in
/// order.
pub open spec fn has_threshold(t: i16) -> spec_fn(TempSpeedPair) -> bool {
    |e: TempSpeedPair| e.temperature == t
}

/// The entries are sorted ascending by threshold.
pub open spec fn sorted_by_temperature(entries: Seq<TempSpeedPair>) -> bool {
    forall|i: int, j: int|
        0 <= i <= j < entries.len() ==> entries[i].temperature <= entries[j].temperature
}

/// The target fan level for a sample: the level of the first entry whose
/// threshold strictly exceeds the sample, or 0 when none does.
pub open spec fn spec_target_level(entries: Seq<TempSpeedPair>, sample: Temperature) -> u8
    decreases entries.len(),
{
    if entries.len() == 0 {
        0u8
    } else if entry_exceeds(entries[0], sample) {
        entries[0].fan_speed
    } else {
        spec_target_level(entries.drop_first(), sample)
    }
}

/// The fan-control policy: a non-empty step table sorted ascending by
/// threshold.  Built once from the configuration and immutable thereafter.
pub struct StepTable {
    entries: Vec<TempSpeedPair>,
}

impl View for StepTable {
    type V = Seq<TempSpeedPair>;

    closed spec fn view(&self) -> Seq<TempSpeedPair> {
        self.entries@
    }
}

impl StepTable {
    /// The table's invariant: non-empty and sorted ascending by threshold.
    pub open spec fn well_formed(&self) -> bool {
        self@.len() > 0 && sorted_by_temperature(self@)
    }

    /// Build a table from configured entries, in whatever order the
    /// configuration listed them.  Sorts ascending by threshold, stably —
    /// entries sharing a threshold keep their configured order; an empty
    /// list is a configuration error, never a silent no-op policy.
    pub fn new(entries: Vec<TempSpeedPair>) -> (result: Result<StepTable, ConfigError>)
        ensures
            entries@.len() == 0 ==> result == Result::<StepTable, ConfigError>::Err(
                ConfigError::EmptyStepConfig,
            ),
            entries@.len() > 0 ==> (result matches Ok(table)
                && table.well_formed()
                && table@.to_multiset() == entries@.to_multiset()
                && (forall|t: i16| #[trigger] table@.filter(has_threshold(t))
                    == entries@.filter(has_threshold(t)))),
    {
        if entries.len() == 0 {
            Err(ConfigError::EmptyStepConfig)
        } else {
            Ok(StepTable { entries: sort_by_temperature(entries) })
        }
    }

    /// The number of entries in the table.
    pub fn len(&self) -> (n: usize)
        ensures
            n == self@.len(),
    {
        self.entries.len()
    }

    /// The entry at a given position, in ascending-threshold order.
    pub fn entry(&self, index: usize) -> (entry: TempSpeedPair)
        requires
            index < self@.len(),
        ensures
            entry == self@[index as int],
    {
        self.entries[index]
    }

    /// Look up the target fan level for a temperature sample: the level of
    /// the first entry whose threshold strictly exceeds the sample, or 0
    /// when the sample is at or above every threshold.
    pub fn target_level(&self, sample: Temperature) -> (level: u8)
        ensures
            level == spec_target_level(self@, sample),
    {
        let n = self.entries.len();
        let mut i: usize = 0;
        proof {
            assert(self@.skip(0) =~= self@);
        }
        while i < n
            invariant
                0 <= i <= n,
                n == self@.len(),
                spec_target_level(self@, sample) == spec_target_level(
                    self@.skip(i as int),
                    sample,
                ),
            decreases n - i,
        {
            let entry = self.entries[i];
            proof {
                let rest = self@.skip(i as int);
                assert(rest.len() == n - i);
                assert(rest[0] == self@[i as int]);
                assert(rest.drop_first() =~= self@.skip(i as int + 1));
            }
            if sample.millidegrees < (entry.temperature as i64) * 1000 {
                proof {
                    assert(entry_exceeds(self@[i as int], sample));
                }
                return entry.fan_speed;
            }
            proof {
                assert(!entry_exceeds(self@[i as int], sample));
            }
            i = i + 1;
        }
        proof {
            assert(self@.skip(n as int) =~= Seq::<TempSpeedPair>::empty());
        }
        0
    }
}

/// A sample at or above every threshold of the first `m` entries leaves the
/// lookup to the rest of the table.
proof fn lemma_target_level_skip(entries: Seq<TempSpeedPair>, sample: Temperature, m: int)
    requires
        0 <= m <= entries.len(),
        forall|k: int| 0 <= k < m ==> !entry_exceeds(entries[k], sample),
    ensures
        spec_target_level(entries, sample) == spec_target_level(entries.skip(m), sample),
    decreases m,
{
    if m == 0 {
        assert(entries.skip(0) =~= entries);
    } else {
        assert(!entry_exceeds(entries[0], sample));
        let rest = entries.drop_first();
        assert(forall|k: int| 0 <= k < m - 1 ==> rest[k] == entries[k + 1]);
        lemma_target_level_skip(rest, sample, m - 1);
        assert(rest.skip(m - 1) =~= entries.skip(m));
    }
}

/// Law: on a table sorted ascending by threshold, the target level for a
/// sample is the level of the first entry whose threshold strictly exceeds
/// the sample.
pub proof fn lemma_target_level_first_match(
    entries: Seq<TempSpeedPair>,
    sample: Temperature,
    i: int,
)
    requires
        sorted_by_temperature(entries),
        0 <= i < entries.len(),
        entry_exceeds(entries[i], sample),
        forall|k: int| 0 <= k < i ==> !entry_exceeds(entries[k], sample),
    ensures
        spec_target_level(entries, sample) == entries[i].fan_speed,
{
    lemma_target_level_skip(entries, sample, i);
    let rest = entries.skip(i);
    assert(rest[0] == entries[i]);
    assert(spec_target_level(rest, sample) == entries[i].fan_speed);
}

/// Law: on a table sorted ascending by threshold, a sample at or above
/// every threshold falls through to target level 0.
pub proof fn lemma_target_level_default(entries: Seq<TempSpeedPair>, sample: Temperature)
    requires
        sorted_by_temperature(entries),
        forall|k: int| 0 <= k < entries.len() ==> !entry_exceeds(entries[k], sample),
    ensures
        spec_target_level(entries, sample) == 0,
{
    lemma_target_level_skip(entries, sample, entries.len() as int);
    assert(entries.skip(entries.len() as int) =~= Seq::<TempSpeedPair>::empty());
}

/// Law (boundary): the threshold comparison is strict, so a sample exactly
/// at an entry's threshold does not select that entry — it belongs to the
/// band below, and on a sorted table the lookup passes that entry and all
/// before it by.
pub proof fn lemma_boundary_band_below(
    entries: Seq<TempSpeedPair>,
    sample: Temperature,
    i: int,
)
    requires
        sorted_by_temperature(entries),
        0 <= i < entries.len(),
        sample.millidegrees == entries[i].temperature * 1000,
    ensures
        !entry_exceeds(entries[i], sample),
        spec_target_level(entries, sample) == spec_target_level(entries.skip(i + 1), sample),
{
    assert forall|k: int| 0 <= k < i + 1 implies !entry_exceeds(entries[k], sample) by {
        assert(entries[k].temperature <= entries[i].temperature);
        assert(entries[k].temperature * 1000 <= entries[i].temperature * 1000);
    }
    lemma_target_level_skip(entries, sample, i + 1);
}

proof fn lemma_filter_all_false(s: Seq<TempSpeedPair>, pred: spec_fn(TempSpeedPair) -> bool)
    requires
        forall|k: int| 0 <= k < s.len() ==> !pred(s[k]),
    ensures
        s.filter(pred) =~= Seq::<TempSpeedPair>::empty(),
    decreases s.len(),
{
    reveal(Seq::filter);
    if s.len() > 0 {
        lemma_filter_all_false(s.drop_last(), pred);
    }
}

proof fn lemma_filter_singleton(e: TempSpeedPair, pred: spec_fn(TempSpeedPair) -> bool)
    ensures
        pred(e) ==> seq![e].filter(pred) =~= seq![e],
        !pred(e) ==> seq![e].filter(pred) =~= Seq::<TempSpeedPair>::empty(),
{
    reveal(Seq::filter);
    assert(seq![e].drop_last() =~= Seq::<TempSpeedPair>::empty());
    assert(Seq::<TempSpeedPair>::empty().filter(pred) =~= Seq::<TempSpeedPair>::empty());
}

/// Sort entries ascending by threshold (insertion sort).  The result holds
/// exactly the given entries, rearranged, and the sort is stable: entries
/// sharing a threshold keep their relative order.
fn sort_by_temperature(entries: Vec<TempSpeedPair>) -> (sorted: Vec<TempSpeedPair>)
    requires
        entries@.len() > 0,
    ensures
        sorted_by_temperature(sorted@),
        sorted@.to_multiset() == entries@.to_multiset(),
        sorted@.len() == entries@.len(),
        forall|t: i16| #[trigger] sorted@.filter(has_threshold(t)) == entries@.filter(
            has_threshold(t),
        ),
{
    broadcast use to_multiset_insert, to_multiset_remove;
    broadcast use vstd::multiset::group_multiset_axioms;
    broadcast use vstd::seq_lib::group_seq_lib_default;

    let ghost original = entries@;
    let mut work = entries;
    let mut i: usize = 1;
    while i < work.len()
        invariant
            1 <= i <= work@.len(),
            work@.to_multiset() == original.to_multiset(),
            work@.len() == original.len(),
            sorted_by_temperature(work@.take(i as int)),
            forall|t: i16| #[trigger] work@.filter(has_threshold(t)) == original.filter(
                has_threshold(t),
            ),
        decreases work@.len() - i,
    {
        let ghost before = work@;
        let moved = work.remove(i);
        let ghost removed = work@;
        proof {
            assert forall|k: int| 0 <= k < i implies removed[k] == before[k] by {
                assert(removed == before.subrange(0, i as int) + before.subrange(
                    i as int + 1,
                    before.len() as int,
                ));
            }
            assert(moved == before[i as int]);
            assert(before.to_multiset().contains(moved)) by {
                vstd::seq_lib::to_multiset_contains(before, moved);
                assert(before.contains(before[i as int]));
            }
            vstd::seq_lib::to_multiset_remove(before, i as int);
            assert(removed.to_multiset() == before.to_multiset().remove(moved));
        }
        let mut position: usize = 0;
        while position < i && work[position].temperature <= moved.temperature
            invariant
                0 <= position <= i,
                i <= removed.len(),
                work@ == removed,
                forall|k: int|
                    0 <= k < position ==> work@[k].temperature <= moved.temperature,
            decreases i - position,
        {
            position = position + 1;
        }
        work.insert(position, moved);
        proof {
            let after = work@;
            assert(after == removed.insert(position as int, moved));
            vstd::seq_lib::to_multiset_insert(removed, position as int, moved);
            assert(after.to_multiset() == removed.to_multiset().insert(moved));
            assert(after.to_multiset() =~= before.to_multiset());
            assert forall|k: int| 0 <= k < position implies after[k] == removed[k] by {}
            assert(after[position as int] == moved);
            assert forall|k: int| position < k <= i implies after[k] == removed[k - 1] by {}
            assert(position < i ==> removed[position as int].temperature > moved.temperature);
            assert forall|a: int, b: int|
                0 <= a <= b < i + 1 implies after[a].temperature <= after[b].temperature by {
                assert(forall|p: int, q: int|
                    0 <= p <= q < i ==> removed[p].temperature <= removed[q].temperature);
            }
            assert(sorted_by_temperature(after.take(i as int + 1)));

            // Stability: the entries jumped over all have strictly greater
            // thresholds than the moved one, so for any one threshold the
            // entries bearing it stand as they did.
            let head = before.subrange(0, position as int);
            let jumped = before.subrange(position as int, i as int);
            let tail = before.subrange(i as int + 1, before.len() as int);
            let one = seq![moved];
            assert(before =~= ((head + jumped) + one) + tail);
            assert(after =~= ((head + one) + jumped) + tail);
            assert forall|k: int| 0 <= k < jumped.len() implies
                jumped[k].temperature > moved.temperature by {
                assert(jumped[k] == removed[position + k]);
            }
            assert forall|t: i16| #[trigger] after.filter(has_threshold(t)) == before.filter(
                has_threshold(t),
            ) by {
                let pred = has_threshold(t);
                lemma_filter_singleton(moved, pred);
                assert((((head + jumped) + one) + tail).filter(pred) == ((head.filter(pred)
                    + jumped.filter(pred)) + one.filter(pred)) + tail.filter(pred));
                assert((((head + one) + jumped) + tail).filter(pred) == ((head.filter(pred)
                    + one.filter(pred)) + jumped.filter(pred)) + tail.filter(pred));
                if t == moved.temperature {
                    lemma_filter_all_false(jumped, pred);
                    assert(jumped.filter(pred) =~= Seq::<TempSpeedPair>::empty());
                } else {
                    assert(one.filter(pred) =~= Seq::<TempSpeedPair>::empty());
                }
                assert(jumped.filter(pred) + one.filter(pred) =~= one.filter(pred)
                    + jumped.filter(pred));
                assert(after.filter(pred) == before.filter(pred));
            }
        }
        i = i + 1;
    }
    proof {
        assert(work@.take(work@.len() as int) =~= work@);
    }
    work
}

} // verus!
