use aranet::endpoints::{
    map_device_endpoints, resolve_pair, Endpoint, EndPoints, CHAR_BATTERY_LEVEL, CHAR_CMD,
    CHAR_CURRENT_READINGS, CHAR_CURRENT_READINGS_A_AR2, SERVICE_BATTERY, SERVICE_SAF_TEHNIKA,
};
use aranet::error::Error;

const SERVICE_GAP: u128 = 0x00001800_0000_1000_8000_00805f9b34fb;
const CHAR_DEVICE_NAME: u128 = 0x00002a00_0000_1000_8000_00805f9b34fb;

#[test]
fn battery_only_table_has_no_readings() {
    let t = map_device_endpoints(&[(SERVICE_BATTERY, CHAR_BATTERY_LEVEL)]);
    assert_eq!(t.get(Endpoint::BatteryLevel), Some(0));
    assert_eq!(t.get(Endpoint::CurrentReadings), None);
    assert_eq!(t.readings_endpoint(), Err(Error::NoReadingsCharacteristic));
    assert_eq!(t.read(&[0u8; 9]), Err(Error::NoReadingsCharacteristic));
}

#[test]
fn vendor_pairs_resolve() {
    assert_eq!(resolve_pair(SERVICE_SAF_TEHNIKA, CHAR_CURRENT_READINGS), Some(Endpoint::CurrentReadings));
    assert_eq!(resolve_pair(SERVICE_SAF_TEHNIKA, CHAR_CURRENT_READINGS_A_AR2), Some(Endpoint::CurrentReadingsAAr2));
    assert_eq!(resolve_pair(SERVICE_BATTERY, CHAR_BATTERY_LEVEL), Some(Endpoint::BatteryLevel));
}

#[test]
fn pairs_under_the_wrong_service_are_ignored() {
    assert_eq!(resolve_pair(SERVICE_BATTERY, CHAR_CURRENT_READINGS), None);
    assert_eq!(resolve_pair(SERVICE_SAF_TEHNIKA, CHAR_BATTERY_LEVEL), None);
    assert_eq!(resolve_pair(SERVICE_GAP, CHAR_DEVICE_NAME), None);
}

#[test]
fn table_positions_follow_enumeration() {
    let pairs = [
        (SERVICE_GAP, CHAR_DEVICE_NAME),
        (SERVICE_SAF_TEHNIKA, CHAR_CMD),
        (SERVICE_SAF_TEHNIKA, CHAR_CURRENT_READINGS),
        (SERVICE_BATTERY, CHAR_BATTERY_LEVEL),
    ];
    let t = map_device_endpoints(&pairs);
    assert_eq!(t.get(Endpoint::Cmd), Some(1));
    assert_eq!(t.get(Endpoint::CurrentReadings), Some(2));
    assert_eq!(t.get(Endpoint::BatteryLevel), Some(3));
    assert_eq!(t.get(Endpoint::Interval), None);
    assert_eq!(t.readings_endpoint(), Ok(2));
}

#[test]
fn last_repeated_pair_wins() {
    let pairs = [
        (SERVICE_SAF_TEHNIKA, CHAR_CURRENT_READINGS),
        (SERVICE_GAP, CHAR_DEVICE_NAME),
        (SERVICE_SAF_TEHNIKA, CHAR_CURRENT_READINGS),
    ];
    let t = EndPoints::build(&pairs);
    assert_eq!(t.get(Endpoint::CurrentReadings), Some(2));
}

#[test]
fn empty_enumeration_gives_empty_table() {
    let t = map_device_endpoints(&[]);
    assert_eq!(t.get(Endpoint::BatteryLevel), None);
    assert_eq!(t.readings_endpoint(), Err(Error::NoReadingsCharacteristic));
}

#[test]
fn read_through_table_decodes_or_reports_short_payload() {
    let t = map_device_endpoints(&[(SERVICE_SAF_TEHNIKA, CHAR_CURRENT_READINGS)]);
    let r = t.read(&[0x52, 0x03, 0x90, 0x01, 0x94, 0x27, 45, 80, 0]).unwrap();
    assert_eq!(r.c02, 850);
    assert_eq!(r.temp.raw(), 400);
    assert_eq!(t.read(&[1, 2, 3]), Err(Error::ShortPayload));
}

#[test]
fn endpoint_indices_are_distinct() {
    let all = [
        Endpoint::BatteryLevel,
        Endpoint::SensorState,
        Endpoint::Cmd,
        Endpoint::CalibrationData,
        Endpoint::CurrentReadings,
        Endpoint::CurrentReadingsAr2,
        Endpoint::TotalReadings,
        Endpoint::Interval,
        Endpoint::HistoryReadingsV1,
        Endpoint::SecondsSinceUpdate,
        Endpoint::HistoryReadingsV2,
        Endpoint::CurrentReadingsDet,
        Endpoint::CurrentReadingsA,
        Endpoint::CurrentReadingsAAr2,
    ];
    let mut seen: Vec<usize> = all.iter().map(|e| e.index()).collect();
    seen.sort();
    assert_eq!(seen, (0..14).collect::<Vec<usize>>());
}
