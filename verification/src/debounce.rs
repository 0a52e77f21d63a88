//! Per-container restart bookkeeping. Each stop event for a container id
//! advances that id's record: when the previous attempt lies farther back
//! than the debounce window the burst counter starts over at 1, otherwise it
//! grows by one. The count is tracked for observability; it never suppresses
//! or delays a restart.
use vstd::prelude::*;

use crate::keyed::{
    keys_unique, lemma_keys_unique_push, lemma_keys_unique_remove, lemma_keys_unique_update,
    lemma_map_of_absent, lemma_map_of_index, lemma_map_of_push, lemma_map_of_remove,
    lemma_map_of_update, map_of,
};
use crate::RESTART_WINDOW_SECS;

verus! {

/// One container's restart bookkeeping: the time of the most recent restart
/// attempt and the number of attempts since the window last reset.
#[derive(Clone, Copy, Debug, PartialEq, Eq, Structural)]
pub struct RestartRecord {
    pub last_restart: u64,
    pub restart_count: u32,
}

struct RecordEntry {
    id: String,
    record: RestartRecord,
}

spec fn rec_key() -> spec_fn(RecordEntry) -> Seq<char> {
    |e: RecordEntry| e.id@
}

spec fn rec_val() -> spec_fn(RecordEntry) -> RestartRecord {
    |e: RecordEntry| e.record
}

/// The record a stop event at `now` leaves behind, given the record the id
/// had before (if any). A fresh id, or one whose last attempt lies farther
/// back than the window, restarts the burst at count 1; otherwise the count
/// grows by one, saturating at its type's maximum.
pub open spec fn spec_note_stop(prev: Option<RestartRecord>, now: u64) -> RestartRecord {
    let base: u32 = match prev {
        None => 0u32,
        Some(r) => if now > r.last_restart + RESTART_WINDOW_SECS {
            0u32
        } else {
            r.restart_count
        },
    };
    RestartRecord {
        last_restart: now,
        restart_count: if base < u32::MAX {
            (base + 1) as u32
        } else {
            u32::MAX
        },
    }
}

/// Transient map from container id to its restart record, held only for the
/// lifetime of the monitoring loop.
pub struct RestartDebouncer {
    entries: Vec<RecordEntry>,
}

impl View for RestartDebouncer {
    type V = Map<Seq<char>, RestartRecord>;

    closed spec fn view(&self) -> Map<Seq<char>, RestartRecord> {
        map_of(self.entries@, rec_key(), rec_val())
    }
}

impl RestartDebouncer {
    /// Entries carry pairwise distinct container ids.
    pub closed spec fn wf(&self) -> bool {
        keys_unique(self.entries@, rec_key())
    }

    /// An empty debouncer.
    pub fn new() -> (r: Self)
        ensures
            r.wf(),
            r@ == Map::<Seq<char>, RestartRecord>::empty(),
    {
        RestartDebouncer { entries: Vec::new() }
    }

    /// Position of the entry for `id`, if one exists.
    fn find_index(&self, id: &str) -> (r: Option<usize>)
        ensures
            match r {
                Some(i) => i < self.entries@.len() && self.entries@[i as int].id@ == id@,
                None => forall|j: int|
                    0 <= j < self.entries@.len() ==> (#[trigger] self.entries@[j]).id@ != id@,
            },
    {
        let mut i: usize = 0;
        while i < self.entries.len()
            invariant
                i <= self.entries@.len(),
                forall|j: int| 0 <= j < i ==> (#[trigger] self.entries@[j]).id@ != id@,
            decreases self.entries@.len() - i,
        {
            if crate::strutil::str_eq(self.entries[i].id.as_str(), id) {
                return Some(i);
            }
            i = i + 1;
        }
        None
    }

    /// The record currently held for `id`, if any.
    pub fn get(&self, id: &str) -> (r: Option<RestartRecord>)
        requires
            self.wf(),
        ensures
            match r {
                Some(rec) => self@.contains_key(id@) && rec == self@[id@],
                None => !self@.contains_key(id@),
            },
    {
        match self.find_index(id) {
            Some(i) => {
                proof {
                    lemma_map_of_index(self.entries@, rec_key(), rec_val(), i as int);
                }
                Some(self.entries[i].record)
            },
            None => {
                proof {
                    lemma_map_of_absent(self.entries@, rec_key(), rec_val(), id@);
                }
                None
            },
        }
    }

    /// Record a stop event for `id` at time `now` and return the attempt
    /// count the event was given.
    pub fn note_stop(&mut self, id: &str, now: u64) -> (count: u32)
        requires
            old(self).wf(),
        ensures
            final(self).wf(),
            final(self)@ == old(self)@.insert(
                id@,
                spec_note_stop(
                    if old(self)@.contains_key(id@) {
                        Some(old(self)@[id@])
                    } else {
                        None
                    },
                    now,
                ),
            ),
            count == final(self)@[id@].restart_count,
    {
        let ghost oldseq = self.entries@;
        match self.find_index(id) {
            Some(i) => {
                proof {
                    lemma_map_of_index(oldseq, rec_key(), rec_val(), i as int);
                }
                let prev = self.entries[i].record;
                let base: u32 = if now > prev.last_restart && now - prev.last_restart
                    > RESTART_WINDOW_SECS {
                    0u32
                } else {
                    prev.restart_count
                };
                let count: u32 = if base < u32::MAX {
                    base + 1
                } else {
                    u32::MAX
                };
                let entry = RecordEntry {
                    id: self.entries[i].id.clone(),
                    record: RestartRecord { last_restart: now, restart_count: count },
                };
                proof {
                    lemma_map_of_update(oldseq, rec_key(), rec_val(), i as int, entry);
                }
                proof {
                    lemma_keys_unique_update(oldseq, rec_key(), i as int, entry);
                }
                self.entries.set(i, entry);
                proof {
                    lemma_map_of_index(self.entries@, rec_key(), rec_val(), i as int);
                }
                count
            },
            None => {
                let entry = RecordEntry {
                    id: id.to_owned(),
                    record: RestartRecord { last_restart: now, restart_count: 1 },
                };
                proof {
                    lemma_map_of_absent(oldseq, rec_key(), rec_val(), id@);
                    lemma_map_of_push(oldseq, rec_key(), rec_val(), entry);
                    lemma_keys_unique_push(oldseq, rec_key(), entry);
                }
                self.entries.push(entry);
                proof {
                    lemma_map_of_index(
                        self.entries@,
                        rec_key(),
                        rec_val(),
                        self.entries@.len() - 1,
                    );
                }
                1
            },
        }
    }

    /// Forget the record for `id`: the fresh baseline a start event sets.
    pub fn clear(&mut self, id: &str)
        requires
            old(self).wf(),
        ensures
            final(self).wf(),
            final(self)@ == old(self)@.remove(id@),
    {
        let ghost oldseq = self.entries@;
        match self.find_index(id) {
            Some(i) => {
                proof {
                    lemma_map_of_index(oldseq, rec_key(), rec_val(), i as int);
                    lemma_map_of_remove(oldseq, rec_key(), rec_val(), i as int);
                    lemma_keys_unique_remove(oldseq, rec_key(), i as int);
                }
                self.entries.remove(i);
            },
            None => {
                proof {
                    lemma_map_of_absent(oldseq, rec_key(), rec_val(), id@);
                    assert(old(self)@.remove(id@) =~= old(self)@);
                }
            },
        }
    }
}

/// The record one container id holds after a sequence of stop events at the
/// given times, starting from no record.
pub open spec fn record_after(times: Seq<u64>) -> RestartRecord
    recommends
        times.len() > 0,
    decreases times.len(),
{
    if times.len() == 0 {
        arbitrary()
    } else if times.len() == 1 {
        spec_note_stop(None, times.first())
    } else {
        spec_note_stop(Some(record_after(times.drop_last())), times.last())
    }
}

/// The record map after a sequence of stop events for one id, each applied
/// as `note_stop` applies it.
pub open spec fn run_stops(
    m: Map<Seq<char>, RestartRecord>,
    id: Seq<char>,
    times: Seq<u64>,
) -> Map<Seq<char>, RestartRecord>
    decreases times.len(),
{
    if times.len() == 0 {
        m
    } else {
        let prior = run_stops(m, id, times.drop_last());
        prior.insert(
            id,
            spec_note_stop(
                if prior.contains_key(id) {
                    Some(prior[id])
                } else {
                    None
                },
                times.last(),
            ),
        )
    }
}

/// Law: a run of stop events for an id the debouncer did not yet know leaves
/// exactly the record the step function folds to, and touches no other id.
pub proof fn lemma_run_stops(m: Map<Seq<char>, RestartRecord>, id: Seq<char>, times: Seq<u64>)
    requires
        !m.contains_key(id),
        times.len() >= 1,
    ensures
        run_stops(m, id, times).contains_key(id),
        run_stops(m, id, times)[id] == record_after(times),
        forall|k: Seq<char>|
            k != id ==> run_stops(m, id, times).contains_key(k) == m.contains_key(k),
        forall|k: Seq<char>|
            k != id && m.contains_key(k) ==> run_stops(m, id, times)[k] == m[k],
    decreases times.len(),
{
    if times.len() == 1 {
        assert(times.drop_last().len() == 0);
        assert(run_stops(m, id, times.drop_last()) == m);
        assert(times.first() == times.last());
        assert(record_after(times) == spec_note_stop(None, times.first()));
    } else {
        lemma_run_stops(m, id, times.drop_last());
    }
}

/// After any stop, the record's time is the time of that stop.
proof fn lemma_record_after_last(times: Seq<u64>)
    requires
        times.len() >= 1,
    ensures
        record_after(times).last_restart == times.last(),
{
    if times.len() == 1 {
        assert(times.first() == times.last());
    }
}

/// Law: stop events for one id spaced farther apart than the debounce window
/// never accumulate — the count observed at every event is 1.
pub proof fn lemma_window_resets(times: Seq<u64>)
    requires
        times.len() >= 1,
        forall|i: int|
            0 <= i < times.len() - 1 ==> times[i + 1] > #[trigger] times[i]
                + RESTART_WINDOW_SECS,
    ensures
        forall|k: int|
            1 <= k <= times.len() ==> record_after(#[trigger] times.take(k)).restart_count == 1,
    decreases times.len(),
{
    if times.len() == 1 {
        assert(times.take(1) =~= times);
        assert(record_after(times).restart_count == 1);
    } else {
        let prefix = times.drop_last();
        assert(forall|i: int|
            0 <= i < prefix.len() - 1 ==> prefix[i + 1] > #[trigger] prefix[i]
                + RESTART_WINDOW_SECS) by {
            assert(forall|i: int| 0 <= i < prefix.len() ==> prefix[i] == times[i]);
        }
        lemma_window_resets(prefix);
        assert forall|k: int|
            1 <= k <= times.len() implies record_after(
            #[trigger] times.take(k),
        ).restart_count == 1 by {
            if k < times.len() {
                assert(times.take(k) =~= prefix.take(k));
            } else {
                assert(times.take(k) =~= times);
                lemma_record_after_last(prefix);
                assert(prefix.last() == times[times.len() - 2]);
                assert(times.last() > times[times.len() - 2] + RESTART_WINDOW_SECS);
                assert(record_after(times) == spec_note_stop(
                    Some(record_after(prefix)),
                    times.last(),
                ));
            }
        }
    }
}

/// Law: stop events for one id that all fall inside one debounce window
/// accumulate — after the n-th event the count is exactly n.
pub proof fn lemma_window_accumulates(times: Seq<u64>)
    requires
        1 <= times.len() <= u32::MAX,
        forall|i: int, j: int| 0 <= i <= j < times.len() ==> times[i] <= times[j],
        times.last() <= times.first() + RESTART_WINDOW_SECS,
    ensures
        record_after(times).restart_count == times.len(),
    decreases times.len(),
{
    if times.len() > 1 {
        let prefix = times.drop_last();
        assert(prefix.last() == times[times.len() - 2]);
        assert(prefix.first() == times.first());
        assert(prefix.last() <= prefix.first() + RESTART_WINDOW_SECS);
        lemma_window_accumulates(prefix);
        lemma_record_after_last(prefix);
        assert(times.last() <= times[times.len() - 2] + RESTART_WINDOW_SECS) by {
            assert(times.first() <= times[times.len() - 2]);
        }
        assert(record_after(times) == spec_note_stop(Some(record_after(prefix)), times.last()));
    }
}

} // verus!
