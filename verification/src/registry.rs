//! The keyed store of peripheral records: the single source of truth that
//! the event normalizer writes and waiting callers read.
//!
//! Abstracted as `Map<u64, PeripheralRecord>` keyed by peripheral identity.
//! Exactly one record ever exists per identity.  The transition predicates
//! (`upsert_post` and friends) say precisely how each mutation changes that
//! map; the dispatcher's contract and the bridge laws are stated over them.

use vstd::prelude::*;

use crate::keys::EventKey;
use crate::record::AdvertisementSnapshot;
use crate::record::EventLog;
use crate::record::PeripheralRecord;
use crate::record::stamped_time;

verus! {

/// How a sighting changes the registry: the record for `id` exists
/// afterwards with the given snapshot and RSSI sample, its event log is
/// preserved (or empty if the record is new), and no other record moves.
pub open spec fn upsert_post(
    pre: Map<u64, PeripheralRecord>,
    post: Map<u64, PeripheralRecord>,
    id: u64,
    adv: AdvertisementSnapshot,
    rssi: i32,
) -> bool {
    &&& post.dom() == pre.dom().insert(id)
    &&& post.contains_key(id)
    &&& post[id].id == id
    &&& post[id].adv == adv
    &&& post[id].rssi == Some(rssi)
    &&& post[id].events@ == if pre.contains_key(id) {
        pre[id].events@
    } else {
        Map::<EventKey, u64>::empty()
    }
    &&& forall|p: u64| p != id && #[trigger] pre.contains_key(p) ==> post[p] == pre[p]
}

/// How making sure a record exists changes the registry: an existing record
/// is left alone; a missing one appears with an empty snapshot, no RSSI
/// sample and an empty event log.
pub open spec fn touch_post(
    pre: Map<u64, PeripheralRecord>,
    post: Map<u64, PeripheralRecord>,
    id: u64,
) -> bool {
    if pre.contains_key(id) {
        post == pre
    } else {
        &&& post.dom() == pre.dom().insert(id)
        &&& post.contains_key(id)
        &&& post[id].id == id
        &&& post[id].adv.service_uuids@ == Seq::<u64>::empty()
        &&& post[id].adv.raw_data@ == Seq::<u8>::empty()
        &&& post[id].rssi is None
        &&& post[id].events@ == Map::<EventKey, u64>::empty()
        &&& forall|p: u64| p != id && #[trigger] pre.contains_key(p) ==> post[p] == pre[p]
    }
}

/// How stamping an event changes the registry: for a present record only
/// the event log entry for `key` moves, and it moves to
/// `max(existing, time)`; a stamp for an absent record is silently dropped,
/// so a late callback can never resurrect a disconnected peripheral.
pub open spec fn stamp_post(
    pre: Map<u64, PeripheralRecord>,
    post: Map<u64, PeripheralRecord>,
    id: u64,
    key: EventKey,
    time: u64,
) -> bool {
    if pre.contains_key(id) {
        &&& post.dom() == pre.dom()
        &&& post.contains_key(id)
        &&& post[id].id == pre[id].id
        &&& post[id].adv == pre[id].adv
        &&& post[id].rssi == pre[id].rssi
        &&& post[id].events@ == pre[id].events@.insert(key, stamped_time(pre[id].events@, key, time))
        &&& forall|p: u64| p != id && #[trigger] pre.contains_key(p) ==> post[p] == pre[p]
    } else {
        post == pre
    }
}

/// How a successful RSSI read changes the registry: for a present record
/// only the RSSI sample is replaced; for an absent record nothing happens.
pub open spec fn rssi_post(
    pre: Map<u64, PeripheralRecord>,
    post: Map<u64, PeripheralRecord>,
    id: u64,
    rssi: i32,
) -> bool {
    if pre.contains_key(id) {
        &&& post.dom() == pre.dom()
        &&& post.contains_key(id)
        &&& post[id].id == pre[id].id
        &&& post[id].adv == pre[id].adv
        &&& post[id].rssi == Some(rssi)
        &&& post[id].events == pre[id].events
        &&& forall|p: u64| p != id && #[trigger] pre.contains_key(p) ==> post[p] == pre[p]
    } else {
        post == pre
    }
}

/// The keyed store of peripheral records.
pub struct PeripheralRegistry {
    records: Vec<PeripheralRecord>,
}

impl View for PeripheralRegistry {
    type V = Map<u64, PeripheralRecord>;

    closed spec fn view(&self) -> Map<u64, PeripheralRecord> {
        Map::new(
            |p: u64|
                exists|i: int|
                    0 <= i < self.records@.len() && (#[trigger] self.records@[i]).id == p,
            |p: u64|
                {
                    let i = choose|i: int|
                        0 <= i < self.records@.len() && (#[trigger] self.records@[i]).id == p;
                    self.records@[i]
                },
        )
    }
}

impl PeripheralRegistry {
    /// Identities are unique and every stored event log is well formed.
    pub closed spec fn wf(&self) -> bool {
        &&& forall|i: int, j: int|
            0 <= i < j < self.records@.len() ==> (#[trigger] self.records@[i]).id != (
            #[trigger] self.records@[j]).id
        &&& forall|i: int|
            0 <= i < self.records@.len() ==> (#[trigger] self.records@[i]).events.wf()
    }

    /// What well-formedness gives every reader of the abstract map: each
    /// record sits under its own identity and carries a well-formed log.
    pub proof fn lemma_wf(&self)
        requires
            self.wf(),
        ensures
            forall|p: u64| #[trigger]
                self@.contains_key(p) ==> self@[p].id == p && self@[p].events.wf(),
    {
        assert forall|p: u64| #[trigger] self@.contains_key(p) implies self@[p].id == p
            && self@[p].events.wf() by {
            let i = choose|i: int|
                0 <= i < self.records@.len() && (#[trigger] self.records@[i]).id == p;
            assert(self.records@[i].events.wf());
        }
    }

    /// The record at a given index is what the abstract map says for its id.
    proof fn lemma_entry_is_mapped(&self, i: int)
        requires
            self.wf(),
            0 <= i < self.records@.len(),
        ensures
            self@.contains_key(self.records@[i].id),
            self@[self.records@[i].id] == self.records@[i],
    {
        let p = self.records@[i].id;
        assert(self@.contains_key(p));
        let j = choose|j: int| 0 <= j < self.records@.len() && (#[trigger] self.records@[j]).id == p;
        assert(j == i);
    }

    /// An empty registry: no peripheral was ever observed.
    pub fn new() -> (r: PeripheralRegistry)
        ensures
            r.wf(),
            r@ == Map::<u64, PeripheralRecord>::empty(),
    {
        let r = PeripheralRegistry { records: Vec::new() };
        proof {
            assert(r@ =~= Map::<u64, PeripheralRecord>::empty());
        }
        r
    }

    /// The index of the record for `id`, if one exists.
    fn find(&self, id: u64) -> (r: Option<usize>)
        requires
            self.wf(),
        ensures
            match r {
                Some(i) => i < self.records@.len() && self.records@[i as int].id == id,
                None => forall|j: int|
                    0 <= j < self.records@.len() ==> (#[trigger] self.records@[j]).id != id,
            },
    {
        let n = self.records.len();
        let mut i: usize = 0;
        while i < n
            invariant
                n == self.records@.len(),
                i <= n,
                forall|j: int| 0 <= j < i ==> (#[trigger] self.records@[j]).id != id,
            decreases n - i,
        {
            if self.records[i].id == id {
                return Some(i);
            }
            i += 1;
        }
        None
    }

    /// A snapshot view of the record for `id`, absent if the peripheral was
    /// never observed or has disconnected.
    pub fn get(&self, id: u64) -> (r: Option<&PeripheralRecord>)
        requires
            self.wf(),
        ensures
            match r {
                Some(rec) => self@.contains_key(id) && *rec == self@[id],
                None => !self@.contains_key(id),
            },
    {
        match self.find(id) {
            Some(i) => {
                proof {
                    self.lemma_entry_is_mapped(i as int);
                }
                Some(&self.records[i])
            },
            None => {
                proof {
                    assert(!self@.contains_key(id));
                }
                None
            },
        }
    }

    /// Accumulates a scan sighting: creates the record if absent, otherwise
    /// replaces the advertisement snapshot and RSSI sample in place, leaving
    /// the event log untouched.
    pub fn upsert_sighting(&mut self, id: u64, adv: AdvertisementSnapshot, rssi: i32)
        requires
            old(self).wf(),
        ensures
            final(self).wf(),
            upsert_post(old(self)@, final(self)@, id, adv, rssi),
    {
        match self.find(id) {
            Some(i) => {
                proof {
                    self.lemma_entry_is_mapped(i as int);
                }
                let rec = &mut self.records[i];
                rec.adv = adv;
                rec.rssi = Some(rssi);
                proof {
                    self.lemma_replace_view(old(self), i as int);
                    assert(old(self)@.dom().insert(id) =~= old(self)@.dom());
                }
            },
            None => {
                let rec = PeripheralRecord {
                    id,
                    adv,
                    rssi: Some(rssi),
                    events: EventLog::new(),
                };
                self.records.push(rec);
                proof {
                    self.lemma_push_view(old(self));
                }
            },
        }
    }

    /// Makes sure a record exists for a peripheral that just connected
    /// without a prior sighting; an existing record is left untouched.
    pub fn ensure_present(&mut self, id: u64)
        requires
            old(self).wf(),
        ensures
            final(self).wf(),
            touch_post(old(self)@, final(self)@, id),
    {
        match self.find(id) {
            Some(i) => {
                proof {
                    self.lemma_entry_is_mapped(i as int);
                }
            },
            None => {
                let rec = PeripheralRecord {
                    id,
                    adv: AdvertisementSnapshot::empty(),
                    rssi: None,
                    events: EventLog::new(),
                };
                self.records.push(rec);
                proof {
                    self.lemma_push_view(old(self));
                }
            },
        }
    }

    /// Deletes the record for `id` entirely; removing an absent id is a
    /// no-op.
    pub fn remove(&mut self, id: u64)
        requires
            old(self).wf(),
        ensures
            final(self).wf(),
            final(self)@ == old(self)@.remove(id),
    {
        match self.find(id) {
            Some(i) => {
                self.records.remove(i);
                proof {
                    self.lemma_remove_view(old(self), i as int);
                }
            },
            None => {
                proof {
                    assert(!old(self)@.contains_key(id));
                    assert(self@ =~= old(self)@.remove(id));
                }
            },
        }
    }

    /// Stamps the event log entry for `key` on the record for `id` to
    /// `max(existing, time)`.  For an absent record the stamp is silently
    /// dropped: a late callback for a peripheral that already disconnected
    /// must not resurrect state.
    pub fn stamp_event(&mut self, id: u64, key: EventKey, time: u64)
        requires
            old(self).wf(),
        ensures
            final(self).wf(),
            stamp_post(old(self)@, final(self)@, id, key, time),
    {
        match self.find(id) {
            Some(i) => {
                proof {
                    self.lemma_entry_is_mapped(i as int);
                }
                let rec = &mut self.records[i];
                rec.events.stamp(key, time);
                proof {
                    self.lemma_replace_view(old(self), i as int);
                    assert(self@.dom() =~= old(self)@.dom());
                }
            },
            None => {
                proof {
                    assert(!old(self)@.contains_key(id));
                }
            },
        }
    }

    /// Replaces the RSSI sample on the record for `id` after a successful
    /// RSSI read; a read result for an absent record is dropped.
    pub fn update_rssi(&mut self, id: u64, rssi: i32)
        requires
            old(self).wf(),
        ensures
            final(self).wf(),
            rssi_post(old(self)@, final(self)@, id, rssi),
    {
        match self.find(id) {
            Some(i) => {
                proof {
                    self.lemma_entry_is_mapped(i as int);
                }
                let rec = &mut self.records[i];
                rec.rssi = Some(rssi);
                proof {
                    self.lemma_replace_view(old(self), i as int);
                    assert(self@.dom() =~= old(self)@.dom());
                }
            },
            None => {
                proof {
                    assert(!old(self)@.contains_key(id));
                }
            },
        }
    }

    /// View change for replacing the record at index `i` by one with the
    /// same identity and a well-formed log.
    proof fn lemma_replace_view(&self, prior: &PeripheralRegistry, i: int)
        requires
            prior.wf(),
            0 <= i < prior.records@.len(),
            self.records@.len() == prior.records@.len(),
            self.records@[i].id == prior.records@[i].id,
            self.records@[i].events.wf(),
            forall|j: int|
                0 <= j < prior.records@.len() && j != i ==> (#[trigger] self.records@[j])
                    == prior.records@[j],
        ensures
            self.wf(),
            self@ == prior@.insert(prior.records@[i].id, self.records@[i]),
    {
        let id = prior.records@[i].id;
        let s_old = prior.records@;
        let s_new = self.records@;
        assert(forall|j: int| 0 <= j < s_old.len() ==> (#[trigger] s_new[j]).id == s_old[j].id);
        assert(self.wf());
        assert forall|k: u64| #[trigger] self@.contains_key(k) implies prior@.insert(
            id,
            s_new[i],
        ).contains_key(k) && self@[k] == prior@.insert(id, s_new[i])[k] by {
            let j = choose|j: int| 0 <= j < s_new.len() && (#[trigger] s_new[j]).id == k;
            self.lemma_entry_is_mapped(j);
            prior.lemma_entry_is_mapped(j);
            if k == id {
                assert(j == i);
            }
        }
        assert forall|k: u64| #[trigger] prior@.insert(id, s_new[i]).contains_key(k)
            implies self@.contains_key(k) by {
            if k == id {
                assert(s_new[i].id == k);
            } else {
                let j = choose|j: int| 0 <= j < s_old.len() && (#[trigger] s_old[j]).id == k;
                assert(s_new[j].id == k);
            }
        }
        assert(self@ =~= prior@.insert(id, s_new[i]));
    }

    /// View change for appending a record whose identity is fresh.
    proof fn lemma_push_view(&self, prior: &PeripheralRegistry)
        requires
            prior.wf(),
            self.records@.len() == prior.records@.len() + 1,
            self.records@.last().events.wf(),
            forall|j: int|
                0 <= j < prior.records@.len() ==> (#[trigger] prior.records@[j]).id
                    != self.records@.last().id,
            forall|j: int|
                0 <= j < prior.records@.len() ==> (#[trigger] self.records@[j])
                    == prior.records@[j],
        ensures
            self.wf(),
            !prior@.contains_key(self.records@.last().id),
            self@ == prior@.insert(self.records@.last().id, self.records@.last()),
    {
        let rec = self.records@.last();
        let id = rec.id;
        let s_old = prior.records@;
        let s_new = self.records@;
        assert(s_new[s_old.len() as int] == rec);
        assert(self.wf());
        assert(!prior@.contains_key(id));
        assert forall|k: u64| #[trigger] self@.contains_key(k) implies prior@.insert(
            id,
            rec,
        ).contains_key(k) && self@[k] == prior@.insert(id, rec)[k] by {
            let j = choose|j: int| 0 <= j < s_new.len() && (#[trigger] s_new[j]).id == k;
            self.lemma_entry_is_mapped(j);
            if j < s_old.len() {
                prior.lemma_entry_is_mapped(j);
            } else {
                assert(k == id);
            }
        }
        assert forall|k: u64| #[trigger] prior@.insert(id, rec).contains_key(k)
            implies self@.contains_key(k) by {
            if k == id {
                assert(s_new[s_old.len() as int].id == k);
            } else {
                let j = choose|j: int| 0 <= j < s_old.len() && (#[trigger] s_old[j]).id == k;
                assert(s_new[j].id == k);
            }
        }
        assert(self@ =~= prior@.insert(id, rec));
    }

    /// View change for deleting the record at index `i`.
    proof fn lemma_remove_view(&self, prior: &PeripheralRegistry, i: int)
        requires
            prior.wf(),
            0 <= i < prior.records@.len(),
            self.records@ == prior.records@.remove(i),
        ensures
            self.wf(),
            self@ == prior@.remove(prior.records@[i].id),
    {
        let id = prior.records@[i].id;
        let s_old = prior.records@;
        let s_new = self.records@;
        s_old.remove_ensures(i);
        assert(self.wf());
        assert forall|k: u64| #[trigger] self@.contains_key(k) implies prior@.remove(
            id,
        ).contains_key(k) && self@[k] == prior@.remove(id)[k] by {
            let j = choose|j: int| 0 <= j < s_new.len() && (#[trigger] s_new[j]).id == k;
            self.lemma_entry_is_mapped(j);
            if j < i {
                prior.lemma_entry_is_mapped(j);
                assert(k != id);
            } else {
                assert(s_new[j] == s_old[j + 1]);
                prior.lemma_entry_is_mapped(j + 1);
                assert(k != id);
            }
        }
        assert forall|k: u64| #[trigger] prior@.remove(id).contains_key(k)
            implies self@.contains_key(k) by {
            let j = choose|j: int| 0 <= j < s_old.len() && (#[trigger] s_old[j]).id == k;
            assert(j != i);
            if j < i {
                assert(s_new[j].id == k);
            } else {
                assert(s_new[j - 1] == s_old[j]);
                assert(s_new[j - 1].id == k);
            }
        }
        assert(self@ =~= prior@.remove(id));
    }
}

} // verus!
