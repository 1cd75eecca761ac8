use blebridge::AdvertisementSnapshot;
use blebridge::BridgeError;
use blebridge::EventKey;
use blebridge::NativeEvent;
use blebridge::PeripheralRegistry;
use blebridge::WaitStep;
use blebridge::bridge::deadline_after;
use blebridge::bridge::poll_wait;
use blebridge::dispatch::dispatch;

fn snapshot() -> AdvertisementSnapshot {
    AdvertisementSnapshot { service_uuids: vec![], raw_data: vec![] }
}

#[test]
fn wait_on_unknown_peripheral_is_not_found() {
    let reg = PeripheralRegistry::new();
    let step = poll_wait(&reg, 42, EventKey::ServicesDiscovered, 0, 0, 1000);
    assert_eq!(step, WaitStep::Failed(BridgeError::NotFound));
}

#[test]
fn wait_succeeds_on_fresh_stamp() {
    let mut reg = PeripheralRegistry::new();
    reg.upsert_sighting(1, snapshot(), -40);
    dispatch(
        &mut reg,
        NativeEvent::ServicesDiscovered { peripheral: 1, services: vec![10], error: None },
        100,
    );
    let step = poll_wait(&reg, 1, EventKey::ServicesDiscovered, 99, 100, 5100);
    assert_eq!(
        step,
        WaitStep::Ready(100),
        "a baseline just before the stamp succeeds immediately"
    );
}

#[test]
fn wait_times_out_on_stale_stamp() {
    let mut reg = PeripheralRegistry::new();
    reg.upsert_sighting(1, snapshot(), -40);
    dispatch(
        &mut reg,
        NativeEvent::ServicesDiscovered { peripheral: 1, services: vec![10], error: None },
        100,
    );
    let deadline = deadline_after(101, 200);
    assert_eq!(deadline, 301);
    let step = poll_wait(&reg, 1, EventKey::ServicesDiscovered, 101, 301, deadline);
    assert_eq!(
        step,
        WaitStep::Failed(BridgeError::Timeout),
        "a baseline after the stamp must not match the stale event"
    );
}

#[test]
fn wait_is_pending_before_the_deadline() {
    let mut reg = PeripheralRegistry::new();
    reg.upsert_sighting(1, snapshot(), -40);
    let step = poll_wait(&reg, 1, EventKey::ServicesDiscovered, 0, 10, 1000);
    assert_eq!(step, WaitStep::Pending);
}

#[test]
fn failed_discovery_leaves_waiters_to_time_out() {
    let mut reg = PeripheralRegistry::new();
    reg.upsert_sighting(1, snapshot(), -40);
    dispatch(
        &mut reg,
        NativeEvent::ServicesDiscovered { peripheral: 1, services: vec![], error: Some(7) },
        100,
    );
    let pending = poll_wait(&reg, 1, EventKey::ServicesDiscovered, 50, 200, 1000);
    assert_eq!(pending, WaitStep::Pending);
    let timed_out = poll_wait(&reg, 1, EventKey::ServicesDiscovered, 50, 1000, 1000);
    assert_eq!(timed_out, WaitStep::Failed(BridgeError::Timeout));
}

#[test]
fn disconnect_during_wait_yields_not_found_or_timeout() {
    let mut reg = PeripheralRegistry::new();
    reg.upsert_sighting(1, snapshot(), -40);
    dispatch(
        &mut reg,
        NativeEvent::ServicesDiscovered { peripheral: 1, services: vec![10], error: None },
        100,
    );
    let waiting = poll_wait(&reg, 1, EventKey::CharacteristicsDiscovered(10), 99, 150, 5000);
    assert_eq!(waiting, WaitStep::Pending);
    dispatch(&mut reg, NativeEvent::Disconnected { peripheral: 1, error: None }, 200);
    let recheck = poll_wait(&reg, 1, EventKey::CharacteristicsDiscovered(10), 99, 250, 5000);
    assert_eq!(
        recheck,
        WaitStep::Failed(BridgeError::NotFound),
        "never a stale success from before removal"
    );
}

#[test]
fn second_wait_reuses_the_same_key() {
    let mut reg = PeripheralRegistry::new();
    reg.upsert_sighting(1, snapshot(), -40);
    let key = EventKey::ValueUpdated(30);
    reg.stamp_event(1, key, 100);
    assert_eq!(poll_wait(&reg, 1, key, 99, 100, 1000), WaitStep::Ready(100));
    let stale = poll_wait(&reg, 1, key, 100, 500, 1000);
    assert_eq!(stale, WaitStep::Pending, "the old stamp is not a fresh occurrence");
    reg.stamp_event(1, key, 600);
    assert_eq!(poll_wait(&reg, 1, key, 100, 700, 1000), WaitStep::Ready(600));
}

#[test]
fn deadline_saturates_at_the_largest_time() {
    assert_eq!(deadline_after(10, 20), 30);
    assert_eq!(deadline_after(u64::MAX - 5, 100), u64::MAX);
    assert_eq!(deadline_after(0, u64::MAX), u64::MAX);
}
