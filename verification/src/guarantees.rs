//! Bridge-wide guarantees, stated over the registry's transition predicates
//! and proved once here.  Each proof function is a law of the bridge: it
//! holds for every registry state its `requires` admits, not just the
//! states a particular run reaches.

use vstd::prelude::*;

use crate::bridge::BridgeError;
use crate::bridge::WaitStep;
use crate::bridge::wait_outcome;
use crate::dispatch::NativeRequest;
use crate::dispatch::included_fanout;
use crate::dispatch::service_fanout;
use crate::keys::EventKey;
use crate::record::AdvertisementSnapshot;
use crate::record::PeripheralRecord;
use crate::registry::stamp_post;
use crate::registry::upsert_post;

verus! {

/// A peripheral with no record cannot satisfy a wait: whatever the key,
/// baseline or deadline, the verdict is `NotFound`.  Together with
/// `PeripheralRegistry::get`, whose contract returns `None` exactly when no
/// record exists, this pins down every query about a peripheral that was
/// never upserted or that was removed.
pub proof fn lemma_absent_peripheral_not_found(
    reg: Map<u64, PeripheralRecord>,
    id: u64,
    key: EventKey,
    baseline: u64,
    now: u64,
    deadline: u64,
)
    requires
        !reg.contains_key(id),
    ensures
        wait_outcome(reg, id, key, baseline, now, deadline) == WaitStep::Failed(
            BridgeError::NotFound,
        ),
{
}

/// Sightings are idempotent on identity: a second sighting of the same
/// peripheral leaves exactly the records one sighting left — no second
/// record appears — while the snapshot and RSSI sample are replaced in
/// place and the event log stays what it was before either sighting.
pub proof fn lemma_upsert_idempotent(
    pre: Map<u64, PeripheralRecord>,
    mid: Map<u64, PeripheralRecord>,
    post: Map<u64, PeripheralRecord>,
    id: u64,
    adv1: AdvertisementSnapshot,
    rssi1: i32,
    adv2: AdvertisementSnapshot,
    rssi2: i32,
)
    requires
        upsert_post(pre, mid, id, adv1, rssi1),
        upsert_post(mid, post, id, adv2, rssi2),
    ensures
        post.dom() == pre.dom().insert(id),
        post[id].adv == adv2,
        post[id].rssi == Some(rssi2),
        post[id].events@ == if pre.contains_key(id) {
            pre[id].events@
        } else {
            Map::<EventKey, u64>::empty()
        },
        forall|p: u64| p != id && #[trigger] pre.contains_key(p) ==> post[p] == pre[p],
{
    assert(post.dom() =~= pre.dom().insert(id));
    assert(mid.contains_key(id));
    assert forall|p: u64| p != id && #[trigger] pre.contains_key(p) implies post[p] == pre[p] by {
        assert(mid.contains_key(p));
    }
}

/// Event-log timestamps are monotonic non-decreasing per key: no stamp,
/// whatever key or time it carries, leaves any already-stored timestamp
/// smaller than it was.
pub proof fn lemma_stamp_never_decreases(
    pre: Map<u64, PeripheralRecord>,
    post: Map<u64, PeripheralRecord>,
    id: u64,
    key: EventKey,
    time: u64,
    k: EventKey,
)
    requires
        stamp_post(pre, post, id, key, time),
        pre.contains_key(id),
        pre[id].events@.contains_key(k),
    ensures
        post[id].events@.contains_key(k),
        post[id].events@[k] >= pre[id].events@[k],
{
}

/// Stamps are monotonic: stamping the same key twice in a row, whatever the
/// two times, never leaves the stored timestamp smaller than it was after
/// the first stamp.
pub proof fn lemma_stamp_monotonic(
    pre: Map<u64, PeripheralRecord>,
    mid: Map<u64, PeripheralRecord>,
    post: Map<u64, PeripheralRecord>,
    id: u64,
    key: EventKey,
    t1: u64,
    t2: u64,
)
    requires
        pre.contains_key(id),
        stamp_post(pre, mid, id, key, t1),
        stamp_post(mid, post, id, key, t2),
    ensures
        mid[id].events@.contains_key(key),
        post[id].events@.contains_key(key),
        post[id].events@[key] >= mid[id].events@[key],
{
}

/// A removed peripheral stays gone, whatever its event log held: after the
/// registry transition `post == pre.remove(id)` no record for `id` exists,
/// so `get` answers absent and every wait on it answers `NotFound`.
pub proof fn lemma_removed_is_absent(
    pre: Map<u64, PeripheralRecord>,
    post: Map<u64, PeripheralRecord>,
    id: u64,
)
    requires
        post == pre.remove(id),
    ensures
        !post.contains_key(id),
        forall|key: EventKey, baseline: u64, now: u64, deadline: u64|
            #[trigger] wait_outcome(post, id, key, baseline, now, deadline) == WaitStep::Failed(
                BridgeError::NotFound,
            ),
{
}

/// The fan-out after service discovery is complete: every service in the
/// list gets both a characteristics request and an included-services
/// request, and nothing else is in the batch.
pub proof fn lemma_service_fanout_complete(peripheral: u64, services: Seq<u64>, i: int)
    requires
        0 <= i < services.len(),
    ensures
        service_fanout(peripheral, services).len() == 2 * services.len(),
        service_fanout(peripheral, services).contains(
            NativeRequest::DiscoverCharacteristics { peripheral, service: services[i] },
        ),
        service_fanout(peripheral, services).contains(
            NativeRequest::DiscoverIncludedServices { peripheral, service: services[i] },
        ),
    decreases services.len(),
{
    let f = service_fanout(peripheral, services);
    lemma_service_fanout_len(peripheral, services);
    if i == services.len() - 1 {
        assert(f[f.len() - 2] == NativeRequest::DiscoverCharacteristics {
            peripheral,
            service: services[i],
        });
        assert(f[f.len() - 1] == NativeRequest::DiscoverIncludedServices {
            peripheral,
            service: services[i],
        });
    } else {
        let shorter = services.drop_last();
        lemma_service_fanout_complete(peripheral, shorter, i);
        let g = service_fanout(peripheral, shorter);
        let j = choose|j: int|
            0 <= j < g.len() && g[j] == (NativeRequest::DiscoverCharacteristics {
                peripheral,
                service: shorter[i],
            });
        assert(f[j] == NativeRequest::DiscoverCharacteristics {
            peripheral,
            service: services[i],
        });
        let k = choose|k: int|
            0 <= k < g.len() && g[k] == (NativeRequest::DiscoverIncludedServices {
                peripheral,
                service: shorter[i],
            });
        assert(f[k] == NativeRequest::DiscoverIncludedServices {
            peripheral,
            service: services[i],
        });
    }
}

/// The fan-out issues exactly two requests per discovered service.
pub proof fn lemma_service_fanout_len(peripheral: u64, services: Seq<u64>)
    ensures
        service_fanout(peripheral, services).len() == 2 * services.len(),
    decreases services.len(),
{
    if services.len() > 0 {
        lemma_service_fanout_len(peripheral, services.drop_last());
    }
}

/// The fan-out issues exactly one request per included service.
pub proof fn lemma_included_fanout_len(peripheral: u64, included: Seq<u64>)
    ensures
        included_fanout(peripheral, included).len() == included.len(),
    decreases included.len(),
{
    if included.len() > 0 {
        lemma_included_fanout_len(peripheral, included.drop_last());
    }
}

/// The fan-out after included-service discovery is complete: every included
/// service gets a characteristics request, one request each.
pub proof fn lemma_included_fanout_complete(peripheral: u64, included: Seq<u64>, i: int)
    requires
        0 <= i < included.len(),
    ensures
        included_fanout(peripheral, included).len() == included.len(),
        included_fanout(peripheral, included).contains(
            NativeRequest::DiscoverCharacteristics { peripheral, service: included[i] },
        ),
    decreases included.len(),
{
    let f = included_fanout(peripheral, included);
    lemma_included_fanout_len(peripheral, included);
    if i == included.len() - 1 {
        assert(f[f.len() - 1] == NativeRequest::DiscoverCharacteristics {
            peripheral,
            service: included[i],
        });
    } else {
        let shorter = included.drop_last();
        lemma_included_fanout_complete(peripheral, shorter, i);
        let g = included_fanout(peripheral, shorter);
        let j = choose|j: int|
            0 <= j < g.len() && g[j] == (NativeRequest::DiscoverCharacteristics {
                peripheral,
                service: shorter[i],
            });
        assert(f[j] == NativeRequest::DiscoverCharacteristics {
            peripheral,
            service: included[i],
        });
    }
}

/// Discovery sub-steps land independently: once the characteristics of one
/// service are stamped after the service list was, a wait on that service's
/// key succeeds for any baseline older than the stamp time — whether or not
/// any other service's discovery has completed yet.
pub proof fn lemma_cascade_step_independent(
    s0: Map<u64, PeripheralRecord>,
    s1: Map<u64, PeripheralRecord>,
    s2: Map<u64, PeripheralRecord>,
    peripheral: u64,
    service: u64,
    t1: u64,
    t2: u64,
    baseline: u64,
    now: u64,
    deadline: u64,
)
    requires
        s0.contains_key(peripheral),
        stamp_post(s0, s1, peripheral, EventKey::ServicesDiscovered, t1),
        stamp_post(s1, s2, peripheral, EventKey::CharacteristicsDiscovered(service), t2),
        baseline < t2,
    ensures
        s2[peripheral].events@.contains_key(EventKey::CharacteristicsDiscovered(service)),
        s2[peripheral].events@[EventKey::CharacteristicsDiscovered(service)] >= t2,
        wait_outcome(
            s2,
            peripheral,
            EventKey::CharacteristicsDiscovered(service),
            baseline,
            now,
            deadline,
        ) == WaitStep::Ready(
            s2[peripheral].events@[EventKey::CharacteristicsDiscovered(service)],
        ),
{
    assert(s1.contains_key(peripheral));
}

} // verus!
