//! Per-peripheral accumulated state: the advertisement snapshot, the last
//! RSSI sample, and the event log.
//!
//! The event log maps an [`EventKey`] to the monotonic timestamp of its last
//! occurrence.  An absent key means the fact was never observed; a present
//! key's timestamp only ever grows.

use vstd::prelude::*;

use crate::keys::EventKey;

verus! {

/// A copy of the most recently observed advertisement for a peripheral:
/// the advertised service identifiers and the raw payload bytes.
pub struct AdvertisementSnapshot {
    /// Canonical identifiers of the services the advertisement announced.
    pub service_uuids: Vec<u64>,
    /// The advertisement payload, kept as an opaque blob.
    pub raw_data: Vec<u8>,
}

impl AdvertisementSnapshot {
    /// An empty snapshot, for a record created by a connection that was
    /// never preceded by a scan sighting.
    pub fn empty() -> (r: AdvertisementSnapshot)
        ensures
            r.service_uuids@ == Seq::<u64>::empty(),
            r.raw_data@ == Seq::<u8>::empty(),
    {
        AdvertisementSnapshot { service_uuids: Vec::new(), raw_data: Vec::new() }
    }
}

/// The timestamp stored for `key` after stamping `time` into `log`:
/// the stored value never moves backward.
pub open spec fn stamped_time(log: Map<EventKey, u64>, key: EventKey, time: u64) -> u64 {
    if log.contains_key(key) && log[key] >= time {
        log[key]
    } else {
        time
    }
}

/// A mapping from event key to the monotonic timestamp of that event's last
/// occurrence, abstracted as `Map<EventKey, u64>`.
pub struct EventLog {
    entries: Vec<(EventKey, u64)>,
}

impl View for EventLog {
    type V = Map<EventKey, u64>;

    closed spec fn view(&self) -> Map<EventKey, u64> {
        Map::new(
            |k: EventKey|
                exists|i: int|
                    0 <= i < self.entries@.len() && (#[trigger] self.entries@[i]).0 == k,
            |k: EventKey|
                {
                    let i = choose|i: int|
                        0 <= i < self.entries@.len() && (#[trigger] self.entries@[i]).0 == k;
                    self.entries@[i].1
                },
        )
    }
}

impl EventLog {
    /// Each key occurs in at most one entry.
    pub closed spec fn wf(&self) -> bool {
        forall|i: int, j: int|
            0 <= i < j < self.entries@.len() ==> (#[trigger] self.entries@[i]).0 != (
            #[trigger] self.entries@[j]).0
    }

    /// The entry at a given index is what the abstract map says for its key.
    proof fn lemma_entry_is_mapped(&self, i: int)
        requires
            self.wf(),
            0 <= i < self.entries@.len(),
        ensures
            self@.contains_key(self.entries@[i].0),
            self@[self.entries@[i].0] == self.entries@[i].1,
    {
        let k = self.entries@[i].0;
        assert(self@.contains_key(k));
        let j = choose|j: int| 0 <= j < self.entries@.len() && (#[trigger] self.entries@[j]).0 == k;
        assert(j == i);
    }

    /// An empty log: nothing was ever observed.
    pub fn new() -> (r: EventLog)
        ensures
            r.wf(),
            r@ == Map::<EventKey, u64>::empty(),
    {
        let r = EventLog { entries: Vec::new() };
        proof {
            assert(r@ =~= Map::<EventKey, u64>::empty());
        }
        r
    }

    /// The index of the entry for `key`, if one exists.
    fn find(&self, key: EventKey) -> (r: Option<usize>)
        requires
            self.wf(),
        ensures
            match r {
                Some(i) => i < self.entries@.len() && self.entries@[i as int].0 == key,
                None => forall|j: int|
                    0 <= j < self.entries@.len() ==> (#[trigger] self.entries@[j]).0 != key,
            },
    {
        let n = self.entries.len();
        let mut i: usize = 0;
        while i < n
            invariant
                n == self.entries@.len(),
                i <= n,
                forall|j: int| 0 <= j < i ==> (#[trigger] self.entries@[j]).0 != key,
            decreases n - i,
        {
            if self.entries[i].0 == key {
                return Some(i);
            }
            i += 1;
        }
        None
    }

    /// The timestamp of the last occurrence of `key`, absent if never stamped.
    pub fn get(&self, key: EventKey) -> (r: Option<u64>)
        requires
            self.wf(),
        ensures
            match r {
                Some(t) => self@.contains_key(key) && self@[key] == t,
                None => !self@.contains_key(key),
            },
    {
        match self.find(key) {
            Some(i) => {
                proof {
                    self.lemma_entry_is_mapped(i as int);
                }
                Some(self.entries[i].1)
            },
            None => {
                proof {
                    assert(!self@.contains_key(key));
                }
                None
            },
        }
    }

    /// Records an occurrence of `key` at `time`.  A fresh key is inserted at
    /// `time`; a present key is advanced to `max(existing, time)`, so a late
    /// or duplicated callback can never move a timestamp backward.
    pub fn stamp(&mut self, key: EventKey, time: u64)
        requires
            old(self).wf(),
        ensures
            final(self).wf(),
            final(self)@ == old(self)@.insert(key, stamped_time(old(self)@, key, time)),
    {
        match self.find(key) {
            Some(i) => {
                let existing = self.entries[i].1;
                let updated = if existing >= time {
                    existing
                } else {
                    time
                };
                proof {
                    self.lemma_entry_is_mapped(i as int);
                }
                self.entries[i] = (key, updated);
                proof {
                    self.lemma_update_view(old(self), i as int, key, updated);
                }
            },
            None => {
                self.entries.push((key, time));
                proof {
                    self.lemma_push_view(old(self), key, time);
                }
            },
        }
    }

    /// View change for an in-place overwrite of the entry at index `i`.
    proof fn lemma_update_view(&self, prior: &EventLog, i: int, key: EventKey, updated: u64)
        requires
            prior.wf(),
            0 <= i < prior.entries@.len(),
            prior.entries@[i].0 == key,
            self.entries@ == prior.entries@.update(i, (key, updated)),
        ensures
            self.wf(),
            self@ == prior@.insert(key, updated),
    {
        let s_old = prior.entries@;
        let s_new = self.entries@;
        assert(forall|j: int| 0 <= j < s_old.len() ==> (#[trigger] s_new[j]).0 == s_old[j].0);
        assert(self.wf());
        assert forall|k: EventKey| #[trigger] self@.contains_key(k) implies prior@.insert(
            key,
            updated,
        ).contains_key(k) && self@[k] == prior@.insert(key, updated)[k] by {
            let j = choose|j: int| 0 <= j < s_new.len() && (#[trigger] s_new[j]).0 == k;
            self.lemma_entry_is_mapped(j);
            prior.lemma_entry_is_mapped(j);
            if k == key {
                assert(j == i);
            }
        }
        assert forall|k: EventKey| #[trigger] prior@.insert(key, updated).contains_key(k)
            implies self@.contains_key(k) by {
            if k == key {
                assert(s_new[i].0 == k);
            } else {
                let j = choose|j: int| 0 <= j < s_old.len() && (#[trigger] s_old[j]).0 == k;
                assert(s_new[j].0 == k);
            }
        }
        assert(self@ =~= prior@.insert(key, updated));
    }

    /// View change for appending an entry whose key is fresh.
    proof fn lemma_push_view(&self, prior: &EventLog, key: EventKey, time: u64)
        requires
            prior.wf(),
            forall|j: int|
                0 <= j < prior.entries@.len() ==> (#[trigger] prior.entries@[j]).0 != key,
            self.entries@ == prior.entries@.push((key, time)),
        ensures
            self.wf(),
            !prior@.contains_key(key),
            self@ == prior@.insert(key, time),
    {
        let s_old = prior.entries@;
        let s_new = self.entries@;
        assert(forall|j: int| 0 <= j < s_old.len() ==> (#[trigger] s_new[j]) == s_old[j]);
        assert(s_new[s_old.len() as int] == (key, time));
        assert(self.wf());
        assert(!prior@.contains_key(key));
        assert forall|k: EventKey| #[trigger] self@.contains_key(k) implies prior@.insert(
            key,
            time,
        ).contains_key(k) && self@[k] == prior@.insert(key, time)[k] by {
            let j = choose|j: int| 0 <= j < s_new.len() && (#[trigger] s_new[j]).0 == k;
            self.lemma_entry_is_mapped(j);
            if j < s_old.len() {
                prior.lemma_entry_is_mapped(j);
            } else {
                assert(k == key);
            }
        }
        assert forall|k: EventKey| #[trigger] prior@.insert(key, time).contains_key(k)
            implies self@.contains_key(k) by {
            if k == key {
                assert(s_new[s_old.len() as int].0 == k);
            } else {
                let j = choose|j: int| 0 <= j < s_old.len() && (#[trigger] s_old[j]).0 == k;
                assert(s_new[j].0 == k);
            }
        }
        assert(self@ =~= prior@.insert(key, time));
    }
}

/// Everything the bridge has accumulated for one peripheral.
pub struct PeripheralRecord {
    /// The peripheral's stable identity, the registry key.
    pub id: u64,
    /// The most recently observed advertisement, replaced wholesale on every
    /// new sighting.
    pub adv: AdvertisementSnapshot,
    /// The last observed signal strength, absent until a sighting or an
    /// explicit RSSI read succeeds.
    pub rssi: Option<i32>,
    /// Which facts have been observed for this peripheral, and when last.
    pub events: EventLog,
}

} // verus!
