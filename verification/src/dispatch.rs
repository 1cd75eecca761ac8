//! The event normalizer: the sole translation point between native
//! host-stack callbacks and registry mutations.
//!
//! Each native callback arrives as a [`NativeEvent`] carrying plain values;
//! dispatching it mutates the registry and returns the fire-and-forget
//! follow-up requests the host stack should be given.  Discovery cascades
//! from here with no caller-driven steps: a connection asks for services,
//! each discovered service fans out to characteristics and included
//! services, and each included service asks for its characteristics.
//! Nothing here blocks; issuing requests is returning them.

use vstd::prelude::*;

use crate::keys::EventKey;
use crate::record::PeripheralRecord;
use crate::registry::PeripheralRegistry;
use crate::registry::rssi_post;
use crate::registry::stamp_post;
use crate::registry::touch_post;
use crate::registry::upsert_post;
use crate::record::AdvertisementSnapshot;

verus! {

/// One normalized native callback.  `error` codes are opaque: only their
/// presence matters, and a present error means the step's result is
/// discarded without poisoning the record.
pub enum NativeEvent {
    /// A scan sighting with the advertisement and its RSSI reading.
    Discovered { peripheral: u64, adv: AdvertisementSnapshot, rssi: i32 },
    /// A connection was established; discovery starts here.
    Connected { peripheral: u64 },
    /// The link dropped, with or without an error: the record is discarded
    /// either way and a reconnect starts fresh.
    Disconnected { peripheral: u64, error: Option<u64> },
    /// The peripheral's service list was discovered.
    ServicesDiscovered { peripheral: u64, services: Vec<u64>, error: Option<u64> },
    /// The included services of `service` were discovered.
    IncludedServicesDiscovered {
        peripheral: u64,
        service: u64,
        included: Vec<u64>,
        error: Option<u64>,
    },
    /// The characteristics of `service` were discovered.
    CharacteristicsDiscovered { peripheral: u64, service: u64, error: Option<u64> },
    /// A read or notification delivered a value for `characteristic`.
    ValueUpdated { peripheral: u64, characteristic: u64, error: Option<u64> },
    /// A write to `characteristic` was confirmed.
    ValueWritten { peripheral: u64, characteristic: u64, error: Option<u64> },
    /// An explicit RSSI read completed.
    RssiRead { peripheral: u64, rssi: i32, error: Option<u64> },
}

/// A fire-and-forget command for the native host stack.
#[derive(Clone, Copy, PartialEq, Eq, Structural, Debug)]
pub enum NativeRequest {
    /// Ask for the peripheral's services.
    DiscoverServices { peripheral: u64 },
    /// Ask for the characteristics of one service.
    DiscoverCharacteristics { peripheral: u64, service: u64 },
    /// Ask for the services included in one service.
    DiscoverIncludedServices { peripheral: u64, service: u64 },
}

/// The fan-out after a service list arrives: for each service in order, a
/// characteristics request then an included-services request.
pub open spec fn service_fanout(peripheral: u64, services: Seq<u64>) -> Seq<NativeRequest>
    decreases services.len(),
{
    if services.len() == 0 {
        Seq::<NativeRequest>::empty()
    } else {
        service_fanout(peripheral, services.drop_last()).push(
            NativeRequest::DiscoverCharacteristics { peripheral, service: services.last() },
        ).push(NativeRequest::DiscoverIncludedServices { peripheral, service: services.last() })
    }
}

/// The fan-out after an included-service list arrives: one characteristics
/// request per included service, in order.
pub open spec fn included_fanout(peripheral: u64, included: Seq<u64>) -> Seq<NativeRequest>
    decreases included.len(),
{
    if included.len() == 0 {
        Seq::<NativeRequest>::empty()
    } else {
        included_fanout(peripheral, included.drop_last()).push(
            NativeRequest::DiscoverCharacteristics { peripheral, service: included.last() },
        )
    }
}

/// What dispatching one event does: the registry transition it performs and
/// the requests it hands back, by event.
pub open spec fn dispatch_post(
    pre: Map<u64, PeripheralRecord>,
    post: Map<u64, PeripheralRecord>,
    event: NativeEvent,
    now: u64,
    reqs: Seq<NativeRequest>,
) -> bool {
    match event {
        NativeEvent::Discovered { peripheral, adv, rssi } => {
            &&& upsert_post(pre, post, peripheral, adv, rssi)
            &&& reqs == Seq::<NativeRequest>::empty()
        },
        NativeEvent::Connected { peripheral } => {
            &&& touch_post(pre, post, peripheral)
            &&& reqs == seq![NativeRequest::DiscoverServices { peripheral }]
        },
        NativeEvent::Disconnected { peripheral, error } => {
            &&& post == pre.remove(peripheral)
            &&& reqs == Seq::<NativeRequest>::empty()
        },
        NativeEvent::ServicesDiscovered { peripheral, services, error } => {
            if error is Some {
                &&& post == pre
                &&& reqs == Seq::<NativeRequest>::empty()
            } else {
                &&& stamp_post(pre, post, peripheral, EventKey::ServicesDiscovered, now)
                &&& reqs == service_fanout(peripheral, services@)
            }
        },
        NativeEvent::IncludedServicesDiscovered { peripheral, service, included, error } => {
            if error is Some {
                &&& post == pre
                &&& reqs == Seq::<NativeRequest>::empty()
            } else {
                &&& stamp_post(
                    pre,
                    post,
                    peripheral,
                    EventKey::IncludedServicesDiscovered(service),
                    now,
                )
                &&& reqs == included_fanout(peripheral, included@)
            }
        },
        NativeEvent::CharacteristicsDiscovered { peripheral, service, error } => {
            &&& if error is Some {
                post == pre
            } else {
                stamp_post(pre, post, peripheral, EventKey::CharacteristicsDiscovered(service), now)
            }
            &&& reqs == Seq::<NativeRequest>::empty()
        },
        NativeEvent::ValueUpdated { peripheral, characteristic, error } => {
            &&& if error is Some {
                post == pre
            } else {
                stamp_post(pre, post, peripheral, EventKey::ValueUpdated(characteristic), now)
            }
            &&& reqs == Seq::<NativeRequest>::empty()
        },
        NativeEvent::ValueWritten { peripheral, characteristic, error } => {
            &&& if error is Some {
                post == pre
            } else {
                stamp_post(pre, post, peripheral, EventKey::ValueWritten(characteristic), now)
            }
            &&& reqs == Seq::<NativeRequest>::empty()
        },
        NativeEvent::RssiRead { peripheral, rssi, error } => {
            &&& if error is Some {
                post == pre
            } else {
                rssi_post(pre, post, peripheral, rssi)
            }
            &&& reqs == Seq::<NativeRequest>::empty()
        },
    }
}

/// Applies one native callback to the registry and returns the follow-up
/// discovery requests to issue.  `now` is the delivery-time reading of the
/// monotonic clock, taken by the caller on the delivery thread.
pub fn dispatch(reg: &mut PeripheralRegistry, event: NativeEvent, now: u64) -> (reqs: Vec<
    NativeRequest,
>)
    requires
        old(reg).wf(),
    ensures
        final(reg).wf(),
        dispatch_post(old(reg)@, final(reg)@, event, now, reqs@),
{
    match event {
        NativeEvent::Discovered { peripheral, adv, rssi } => {
            reg.upsert_sighting(peripheral, adv, rssi);
            Vec::new()
        },
        NativeEvent::Connected { peripheral } => {
            reg.ensure_present(peripheral);
            let mut reqs: Vec<NativeRequest> = Vec::new();
            reqs.push(NativeRequest::DiscoverServices { peripheral });
            proof {
                assert(reqs@ =~= seq![NativeRequest::DiscoverServices { peripheral }]);
            }
            reqs
        },
        NativeEvent::Disconnected { peripheral, error: _ } => {
            reg.remove(peripheral);
            Vec::new()
        },
        NativeEvent::ServicesDiscovered { peripheral, services, error } => {
            if error.is_some() {
                Vec::new()
            } else {
                let mut reqs: Vec<NativeRequest> = Vec::new();
                let n = services.len();
                let mut i: usize = 0;
                while i < n
                    invariant
                        n == services@.len(),
                        i <= n,
                        reqs@ == service_fanout(peripheral, services@.take(i as int)),
                    decreases n - i,
                {
                    let service = services[i];
                    reqs.push(NativeRequest::DiscoverCharacteristics { peripheral, service });
                    reqs.push(NativeRequest::DiscoverIncludedServices { peripheral, service });
                    proof {
                        let taken = services@.take(i + 1);
                        assert(taken.drop_last() =~= services@.take(i as int));
                        assert(taken.last() == services@[i as int]);
                    }
                    i += 1;
                }
                proof {
                    assert(services@.take(n as int) =~= services@);
                }
                reg.stamp_event(peripheral, EventKey::ServicesDiscovered, now);
                reqs
            }
        },
        NativeEvent::IncludedServicesDiscovered { peripheral, service, included, error } => {
            if error.is_some() {
                Vec::new()
            } else {
                let mut reqs: Vec<NativeRequest> = Vec::new();
                let n = included.len();
                let mut i: usize = 0;
                while i < n
                    invariant
                        n == included@.len(),
                        i <= n,
                        reqs@ == included_fanout(peripheral, included@.take(i as int)),
                    decreases n - i,
                {
                    let inner = included[i];
                    reqs.push(NativeRequest::DiscoverCharacteristics { peripheral, service: inner });
                    proof {
                        let taken = included@.take(i + 1);
                        assert(taken.drop_last() =~= included@.take(i as int));
                        assert(taken.last() == included@[i as int]);
                    }
                    i += 1;
                }
                proof {
                    assert(included@.take(n as int) =~= included@);
                }
                reg.stamp_event(peripheral, EventKey::IncludedServicesDiscovered(service), now);
                reqs
            }
        },
        NativeEvent::CharacteristicsDiscovered { peripheral, service, error } => {
            if error.is_none() {
                reg.stamp_event(peripheral, EventKey::CharacteristicsDiscovered(service), now);
            }
            Vec::new()
        },
        NativeEvent::ValueUpdated { peripheral, characteristic, error } => {
            if error.is_none() {
                reg.stamp_event(peripheral, EventKey::ValueUpdated(characteristic), now);
            }
            Vec::new()
        },
        NativeEvent::ValueWritten { peripheral, characteristic, error } => {
            if error.is_none() {
                reg.stamp_event(peripheral, EventKey::ValueWritten(characteristic), now);
            }
            Vec::new()
        },
        NativeEvent::RssiRead { peripheral, rssi, error } => {
            if error.is_none() {
                reg.update_rssi(peripheral, rssi);
            }
            Vec::new()
        },
    }
}

} // verus!
