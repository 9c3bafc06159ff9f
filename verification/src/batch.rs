//! The batch accumulator: groups events by partition key and flushes a
//! batch when its accumulated encoded size reaches the byte threshold or
//! when it has been open for the configured timeout. Each partition key
//! has at most one open batch; flushing one key never affects another.
use vstd::prelude::*;

use crate::strutil::str_eq;
use crate::value::LogEvent;

verus! {

/// One batch in accumulation: the events of a single partition key, the
/// running encoded-size estimate, and the time the batch was opened.
pub struct Batch {
    pub partition_key: String,
    pub events: Vec<LogEvent>,
    pub size_estimate: u64,
    pub opened_at: u64,
}

/// The default flush policy: no event-count cap, a 100 MB byte threshold,
/// and a 900 second timeout. Small batches would slow rehydration down.
pub struct DatadogArchivesDefaultBatchSettings;

impl DatadogArchivesDefaultBatchSettings {
    /// The byte threshold a batch flushes at.
    pub fn max_bytes() -> (r: u64)
        ensures
            r == 100000000u64,
    {
        100000000
    }

    /// No maximum event count: size and time alone decide.
    pub fn max_events() -> (r: Option<u64>)
        ensures
            r is None,
    {
        None
    }

    /// The time a batch may stay open before it flushes.
    pub fn timeout_secs() -> (r: u64)
        ensures
            r == 900u64,
    {
        900
    }
}

/// Addition that stops at the largest representable size.
pub open spec fn sat_add(a: u64, b: u64) -> u64 {
    if a + b > u64::MAX {
        u64::MAX
    } else {
        (a + b) as u64
    }
}

/// The position of the open batch for a key, if one is open.
pub open spec fn find_key(open: Seq<Batch>, key: Seq<char>) -> Option<int>
    decreases open.len(),
{
    if open.len() == 0 {
        None
    } else if open[0].partition_key@ == key {
        Some(0int)
    } else {
        match find_key(open.drop_first(), key) {
            Some(i) => Some(i + 1),
            None => None,
        }
    }
}

proof fn lemma_find_key_at(open: Seq<Batch>, key: Seq<char>, idx: int)
    requires
        0 <= idx < open.len(),
        open[idx].partition_key@ == key,
        forall|j: int| 0 <= j < idx ==> open[j].partition_key@ != key,
    ensures
        find_key(open, key) == Some(idx),
    decreases idx,
{
    if idx > 0 {
        assert(open.drop_first()[idx - 1] == open[idx]);
        assert forall|j: int| 0 <= j < idx - 1 implies open.drop_first()[j].partition_key@
            != key by {
            assert(open.drop_first()[j] == open[j + 1]);
        }
        lemma_find_key_at(open.drop_first(), key, idx - 1);
    }
}

proof fn lemma_find_key_none(open: Seq<Batch>, key: Seq<char>)
    requires
        forall|j: int| 0 <= j < open.len() ==> open[j].partition_key@ != key,
    ensures
        find_key(open, key) is None,
    decreases open.len(),
{
    if open.len() > 0 {
        assert forall|j: int| 0 <= j < open.drop_first().len() implies open.drop_first()[j].partition_key@
            != key by {
            assert(open.drop_first()[j] == open[j + 1]);
        }
        lemma_find_key_none(open.drop_first(), key);
    }
}

/// Whether a batch has been open for at least the timeout at time `now`.
pub open spec fn is_expired(b: Batch, now: u64, timeout_millis: u64) -> bool {
    now >= b.opened_at && now - b.opened_at >= timeout_millis
}

/// The batches of `open` that are expired at `now`, in order.
pub open spec fn expired_of(open: Seq<Batch>, now: u64, timeout_millis: u64) -> Seq<Batch>
    decreases open.len(),
{
    if open.len() == 0 {
        Seq::empty()
    } else if is_expired(open.last(), now, timeout_millis) {
        expired_of(open.drop_last(), now, timeout_millis) + seq![open.last()]
    } else {
        expired_of(open.drop_last(), now, timeout_millis)
    }
}

/// The batches of `open` that stay open at `now`, in order.
pub open spec fn live_of(open: Seq<Batch>, now: u64, timeout_millis: u64) -> Seq<Batch>
    decreases open.len(),
{
    if open.len() == 0 {
        Seq::empty()
    } else if is_expired(open.last(), now, timeout_millis) {
        live_of(open.drop_last(), now, timeout_millis)
    } else {
        live_of(open.drop_last(), now, timeout_millis) + seq![open.last()]
    }
}

/// Pairwise-distinct partition keys.
pub open spec fn keys_distinct(s: Seq<Batch>) -> bool {
    forall|i: int, j: int|
        0 <= i < j < s.len() ==> s[i].partition_key@ != s[j].partition_key@
}

/// The accumulator: the configured thresholds and the open batches, at
/// most one per partition key.
pub struct BatchAccumulator {
    pub max_bytes: u64,
    pub timeout_millis: u64,
    pub open: Vec<Batch>,
}

impl BatchAccumulator {
    /// Every open batch belongs to a distinct partition key.
    pub open spec fn wf(&self) -> bool {
        keys_distinct(self.open@)
    }

    /// An empty accumulator with the given thresholds.
    pub fn new(max_bytes: u64, timeout_millis: u64) -> (r: Self)
        ensures
            r.wf(),
            r.max_bytes == max_bytes,
            r.timeout_millis == timeout_millis,
            r.open@.len() == 0,
    {
        BatchAccumulator { max_bytes, timeout_millis, open: Vec::new() }
    }

    /// Finds the open batch for a key.
    fn find_open(&self, key: &str) -> (r: Option<usize>)
        ensures
            match r {
                Some(idx) => idx < self.open@.len() && self.open@[idx as int].partition_key@
                    == key@ && find_key(self.open@, key@) == Some(idx as int) && forall|j: int|
                    0 <= j < idx ==> self.open@[j].partition_key@ != key@,
                None => find_key(self.open@, key@) is None && forall|j: int|
                    0 <= j < self.open@.len() ==> self.open@[j].partition_key@ != key@,
            },
    {
        let mut idx: usize = 0;
        while idx < self.open.len()
            invariant
                idx <= self.open@.len(),
                forall|j: int| 0 <= j < idx ==> self.open@[j].partition_key@ != key@,
            decreases self.open@.len() - idx,
        {
            if str_eq(self.open[idx].partition_key.as_str(), key) {
                proof {
                    lemma_find_key_at(self.open@, key@, idx as int);
                }
                return Some(idx);
            }
            idx = idx + 1;
        }
        proof {
            lemma_find_key_none(self.open@, key@);
        }
        None
    }

    /// Accepts one event for a partition key. Opens a batch on the key's
    /// first event, appends and grows the size estimate on each further
    /// one, and flushes the batch the moment the estimate reaches the byte
    /// threshold: a flushed batch leaves the open set, so no further event
    /// joins it.
    #[verifier::loop_isolation(false)]
    pub fn push(&mut self, key: String, event: LogEvent, event_size: u64, now_millis: u64) -> (r:
        Option<Batch>)
        requires
            old(self).wf(),
        ensures
            final(self).wf(),
            final(self).max_bytes == old(self).max_bytes,
            final(self).timeout_millis == old(self).timeout_millis,
            ({
                let prior = find_key(old(self).open@, key@);
                let pevents = match prior {
                    Some(i) => old(self).open@[i].events@,
                    None => Seq::<LogEvent>::empty(),
                };
                let psize = match prior {
                    Some(i) => old(self).open@[i].size_estimate,
                    None => 0u64,
                };
                let popen = match prior {
                    Some(i) => old(self).open@[i].opened_at,
                    None => now_millis,
                };
                let nsize = sat_add(psize, event_size);
                if nsize >= old(self).max_bytes {
                    &&& r matches Some(b) && b.partition_key@ == key@ && b.events@
                        == pevents.push(event) && b.size_estimate == nsize && b.opened_at == popen
                    &&& match prior {
                        Some(i) => final(self).open@ == old(self).open@.remove(i),
                        None => final(self).open@ == old(self).open@,
                    }
                } else {
                    &&& r is None
                    &&& match prior {
                        Some(i) => {
                            &&& final(self).open@.len() == old(self).open@.len()
                            &&& (forall|j: int|
                                0 <= j < old(self).open@.len() && j != i ==> final(self).open@[j]
                                    == old(self).open@[j])
                            &&& final(self).open@[i].partition_key
                                == old(self).open@[i].partition_key
                            &&& final(self).open@[i].events@ == pevents.push(event)
                            &&& final(self).open@[i].size_estimate == nsize
                            &&& final(self).open@[i].opened_at == popen
                        },
                        None => {
                            &&& final(self).open@.len() == old(self).open@.len() + 1
                            &&& (forall|j: int|
                                0 <= j < old(self).open@.len() ==> final(self).open@[j] == old(
                                    self,
                                ).open@[j])
                            &&& final(self).open@.last().partition_key == key
                            &&& final(self).open@.last().events@ == seq![event]
                            &&& final(self).open@.last().size_estimate == nsize
                            &&& final(self).open@.last().opened_at == now_millis
                        },
                    }
                }
            }),
    {
        match self.find_open(key.as_str()) {
            Some(idx) => {
                let ghost before = self.open@;
                let mut b = self.open.remove(idx);
                b.events.push(event);
                b.size_estimate = if b.size_estimate > u64::MAX - event_size {
                    u64::MAX
                } else {
                    b.size_estimate + event_size
                };
                if b.size_estimate >= self.max_bytes {
                    proof {
                        assert forall|p: int, q: int|
                            0 <= p < q < self.open@.len() implies self.open@[p].partition_key@
                            != self.open@[q].partition_key@ by {
                            if q < idx {
                                assert(self.open@[p] == before[p] && self.open@[q] == before[q]);
                            } else if p < idx {
                                assert(self.open@[p] == before[p] && self.open@[q] == before[q
                                    + 1]);
                            } else {
                                assert(self.open@[p] == before[p + 1] && self.open@[q] == before[q
                                    + 1]);
                            }
                        }
                    }
                    Some(b)
                } else {
                    let ghost nb = b;
                    self.open.insert(idx, b);
                    proof {
                        assert(self.open@ =~= before.update(idx as int, nb));
                        assert forall|p: int, q: int|
                            0 <= p < q < self.open@.len() implies self.open@[p].partition_key@
                            != self.open@[q].partition_key@ by {
                            assert(self.open@[p].partition_key@ == before[p].partition_key@);
                            assert(self.open@[q].partition_key@ == before[q].partition_key@);
                        }
                    }
                    None
                }
            },
            None => {
                let nsize = event_size;
                let mut events: Vec<LogEvent> = Vec::new();
                events.push(event);
                let b = Batch {
                    partition_key: key,
                    events,
                    size_estimate: nsize,
                    opened_at: now_millis,
                };
                if nsize >= self.max_bytes {
                    Some(b)
                } else {
                    let ghost before = self.open@;
                    let ghost nb = b;
                    self.open.push(b);
                    proof {
                        assert(self.open@ =~= before.push(nb));
                        assert forall|p: int, q: int|
                            0 <= p < q < self.open@.len() implies self.open@[p].partition_key@
                            != self.open@[q].partition_key@ by {
                            if q < before.len() {
                                assert(self.open@[p] == before[p] && self.open@[q] == before[q]);
                            } else {
                                assert(self.open@[p] == before[p]);
                                assert(self.open@[q] == nb);
                            }
                        }
                    }
                    None
                }
            },
        }
    }

    /// Flushes every batch that has been open for at least the timeout.
    /// What stays open is exactly what has time left, and flushing one key
    /// never touches another's batch.
    #[verifier::loop_isolation(false)]
    pub fn poll_expired(&mut self, now_millis: u64) -> (r: Vec<Batch>)
        requires
            old(self).wf(),
        ensures
            final(self).wf(),
            final(self).max_bytes == old(self).max_bytes,
            final(self).timeout_millis == old(self).timeout_millis,
            r@ == expired_of(old(self).open@, now_millis, old(self).timeout_millis),
            final(self).open@ == live_of(old(self).open@, now_millis, old(self).timeout_millis),
            forall|j: int|
                0 <= j < final(self).open@.len() ==> !is_expired(
                    #[trigger] final(self).open@[j],
                    now_millis,
                    old(self).timeout_millis,
                ),
    {
        let ghost original = self.open@;
        let mut rest: Vec<Batch> = Vec::new();
        core::mem::swap(&mut rest, &mut self.open);
        let mut live: Vec<Batch> = Vec::new();
        let mut out: Vec<Batch> = Vec::new();
        let ghost mut i: int = 0;
        while rest.len() > 0
            invariant
                0 <= i,
                i + rest@.len() == original.len(),
                rest@ == original.skip(i),
                live@ == live_of(original.take(i), now_millis, self.timeout_millis),
                out@ == expired_of(original.take(i), now_millis, self.timeout_millis),
                self.timeout_millis == old(self).timeout_millis,
                self.max_bytes == old(self).max_bytes,
                forall|j: int|
                    0 <= j < live@.len() ==> !is_expired(
                        #[trigger] live@[j],
                        now_millis,
                        self.timeout_millis,
                    ),
                forall|p: int, q: int|
                    0 <= p < q < live@.len() ==> live@[p].partition_key@ != live@[q].partition_key@,
                forall|p: int, q: int|
                    0 <= p < live@.len() && 0 <= q < rest@.len() ==> live@[p].partition_key@
                        != rest@[q].partition_key@,
            decreases rest@.len(),
        {
            let b = rest.remove(0);
            proof {
                assert(original.skip(i).remove(0) =~= original.skip(i + 1));
                assert(b == original[i]);
                assert(original.take(i + 1).drop_last() =~= original.take(i));
                assert(original.take(i + 1).last() == original[i]);
            }
            let expired = now_millis >= b.opened_at && now_millis - b.opened_at
                >= self.timeout_millis;
            if expired {
                out.push(b);
            } else {
                live.push(b);
            }
            proof {
                assert forall|p: int, q: int|
                    0 <= p < live@.len() && 0 <= q < rest@.len() implies live@[p].partition_key@
                    != rest@[q].partition_key@ by {
                    assert(rest@[q] == original[i + 1 + q]);
                    if p < live@.len() - 1 || expired {
                    } else {
                        assert(live@[p] == original[i]);
                    }
                }
                i = i + 1;
            }
        }
        proof {
            assert(original.take(i) =~= original);
        }
        self.open = live;
        out
    }
}

} // verus!
