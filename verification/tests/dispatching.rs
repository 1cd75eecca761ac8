use blebridge::AdvertisementSnapshot;
use blebridge::EventKey;
use blebridge::NativeEvent;
use blebridge::NativeRequest;
use blebridge::PeripheralRegistry;
use blebridge::dispatch::dispatch;

fn snapshot(uuids: Vec<u64>, raw: Vec<u8>) -> AdvertisementSnapshot {
    AdvertisementSnapshot { service_uuids: uuids, raw_data: raw }
}

fn sighted(reg: &mut PeripheralRegistry, id: u64) {
    let reqs = dispatch(
        reg,
        NativeEvent::Discovered { peripheral: id, adv: snapshot(vec![], vec![]), rssi: -40 },
        0,
    );
    assert!(reqs.is_empty());
}

#[test]
fn connected_requests_service_discovery() {
    let mut reg = PeripheralRegistry::new();
    let reqs = dispatch(&mut reg, NativeEvent::Connected { peripheral: 1 }, 0);
    assert_eq!(reqs, vec![NativeRequest::DiscoverServices { peripheral: 1 }]);
    let rec = reg.get(1).expect("a connection creates a record");
    assert!(
        rec.events.get(EventKey::ServicesDiscovered).is_none(),
        "no event log change on connect"
    );
}

#[test]
fn service_discovery_fans_out() {
    let mut reg = PeripheralRegistry::new();
    sighted(&mut reg, 1);
    let reqs = dispatch(
        &mut reg,
        NativeEvent::ServicesDiscovered { peripheral: 1, services: vec![10, 11], error: None },
        7,
    );
    assert_eq!(
        reqs,
        vec![
            NativeRequest::DiscoverCharacteristics { peripheral: 1, service: 10 },
            NativeRequest::DiscoverIncludedServices { peripheral: 1, service: 10 },
            NativeRequest::DiscoverCharacteristics { peripheral: 1, service: 11 },
            NativeRequest::DiscoverIncludedServices { peripheral: 1, service: 11 },
        ]
    );
    let rec = reg.get(1).unwrap();
    assert_eq!(rec.events.get(EventKey::ServicesDiscovered), Some(7));
}

#[test]
fn included_service_discovery_fans_out() {
    let mut reg = PeripheralRegistry::new();
    sighted(&mut reg, 1);
    let reqs = dispatch(
        &mut reg,
        NativeEvent::IncludedServicesDiscovered {
            peripheral: 1,
            service: 10,
            included: vec![20, 21],
            error: None,
        },
        9,
    );
    assert_eq!(
        reqs,
        vec![
            NativeRequest::DiscoverCharacteristics { peripheral: 1, service: 20 },
            NativeRequest::DiscoverCharacteristics { peripheral: 1, service: 21 },
        ]
    );
    let rec = reg.get(1).unwrap();
    assert_eq!(rec.events.get(EventKey::IncludedServicesDiscovered(10)), Some(9));
}

#[test]
fn characteristics_discovered_stamps_per_service() {
    let mut reg = PeripheralRegistry::new();
    sighted(&mut reg, 1);
    dispatch(
        &mut reg,
        NativeEvent::ServicesDiscovered { peripheral: 1, services: vec![10, 11], error: None },
        5,
    );
    let reqs = dispatch(
        &mut reg,
        NativeEvent::CharacteristicsDiscovered { peripheral: 1, service: 10, error: None },
        6,
    );
    assert!(reqs.is_empty());
    let rec = reg.get(1).unwrap();
    assert_eq!(
        rec.events.get(EventKey::CharacteristicsDiscovered(10)),
        Some(6),
        "the first service's stamp lands independently of the second's"
    );
    assert!(rec.events.get(EventKey::CharacteristicsDiscovered(11)).is_none());
    dispatch(
        &mut reg,
        NativeEvent::CharacteristicsDiscovered { peripheral: 1, service: 11, error: None },
        8,
    );
    let rec = reg.get(1).unwrap();
    assert_eq!(rec.events.get(EventKey::CharacteristicsDiscovered(11)), Some(8));
    assert_eq!(rec.events.get(EventKey::CharacteristicsDiscovered(10)), Some(6));
}

#[test]
fn failed_discovery_stamps_nothing() {
    let mut reg = PeripheralRegistry::new();
    sighted(&mut reg, 1);
    let reqs = dispatch(
        &mut reg,
        NativeEvent::ServicesDiscovered { peripheral: 1, services: vec![], error: Some(3) },
        5,
    );
    assert!(reqs.is_empty(), "a failed step must not cascade");
    let rec = reg.get(1).unwrap();
    assert!(
        rec.events.get(EventKey::ServicesDiscovered).is_none(),
        "a native error leaves the event log unchanged"
    );
}

#[test]
fn value_events_stamp_on_success_only() {
    let mut reg = PeripheralRegistry::new();
    sighted(&mut reg, 1);
    dispatch(
        &mut reg,
        NativeEvent::ValueUpdated { peripheral: 1, characteristic: 30, error: None },
        11,
    );
    dispatch(
        &mut reg,
        NativeEvent::ValueWritten { peripheral: 1, characteristic: 30, error: Some(2) },
        12,
    );
    dispatch(
        &mut reg,
        NativeEvent::ValueWritten { peripheral: 1, characteristic: 31, error: None },
        13,
    );
    let rec = reg.get(1).unwrap();
    assert_eq!(rec.events.get(EventKey::ValueUpdated(30)), Some(11));
    assert!(rec.events.get(EventKey::ValueWritten(30)).is_none());
    assert_eq!(rec.events.get(EventKey::ValueWritten(31)), Some(13));
}

#[test]
fn disconnect_discards_the_record() {
    let mut reg = PeripheralRegistry::new();
    sighted(&mut reg, 1);
    dispatch(
        &mut reg,
        NativeEvent::ServicesDiscovered { peripheral: 1, services: vec![10], error: None },
        5,
    );
    let reqs = dispatch(&mut reg, NativeEvent::Disconnected { peripheral: 1, error: None }, 6);
    assert!(reqs.is_empty());
    assert!(reg.get(1).is_none());
    let reqs = dispatch(&mut reg, NativeEvent::Disconnected { peripheral: 1, error: Some(4) }, 7);
    assert!(reqs.is_empty());
    assert!(reg.get(1).is_none(), "disconnecting twice is a no-op");
}

#[test]
fn rssi_read_updates_sample() {
    let mut reg = PeripheralRegistry::new();
    sighted(&mut reg, 1);
    dispatch(&mut reg, NativeEvent::RssiRead { peripheral: 1, rssi: -77, error: None }, 5);
    assert_eq!(reg.get(1).unwrap().rssi, Some(-77));
    dispatch(&mut reg, NativeEvent::RssiRead { peripheral: 1, rssi: -10, error: Some(1) }, 6);
    assert_eq!(reg.get(1).unwrap().rssi, Some(-77), "a failed read changes nothing");
}

#[test]
fn discovered_replaces_snapshot_wholesale() {
    let mut reg = PeripheralRegistry::new();
    dispatch(
        &mut reg,
        NativeEvent::Discovered { peripheral: 2, adv: snapshot(vec![1, 2], vec![0xFF]), rssi: -42 },
        0,
    );
    dispatch(
        &mut reg,
        NativeEvent::Discovered { peripheral: 2, adv: snapshot(vec![3], vec![0x00, 0x01]), rssi: -48 },
        1,
    );
    let rec = reg.get(2).unwrap();
    assert_eq!(rec.adv.service_uuids, vec![3]);
    assert_eq!(rec.adv.raw_data, vec![0x00, 0x01]);
    assert_eq!(rec.rssi, Some(-48));
}
