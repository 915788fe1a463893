use iot_sensors::payload::{json_body, json_fields, uplink_payload};
use iot_sensors::sensor_data::DhtData;

#[test]
fn fields_hold_all_readings_in_order() {
    let f = json_fields(
        Some(DhtData { temperature: 25, humidity: 60 }),
        Some(1234),
        Some(42),
    );
    assert_eq!(
        f.as_str(),
        "\"temperature\":25,\"humidity\":60,\"light\":1234,\"distance_cm\":42"
    );
}

#[test]
fn fields_skip_missing_readings() {
    let f = json_fields(None, Some(7), Some(3));
    assert_eq!(f.as_str(), "\"light\":7,\"distance_cm\":3");
    let g = json_fields(Some(DhtData { temperature: 0, humidity: 9 }), None, Some(100));
    assert_eq!(g.as_str(), "\"temperature\":0,\"humidity\":9,\"distance_cm\":100");
}

#[test]
fn fields_single_reading_has_no_comma() {
    assert_eq!(json_fields(None, None, Some(0)).as_str(), "\"distance_cm\":0");
    assert_eq!(json_fields(None, Some(65535), None).as_str(), "\"light\":65535");
}

#[test]
fn fields_empty_without_readings() {
    assert_eq!(json_fields(None, None, None).as_str(), "");
}

#[test]
fn widest_fields_are_71_bytes_and_complete() {
    let f = json_fields(
        Some(DhtData { temperature: 255, humidity: 255 }),
        Some(u16::MAX),
        Some(u32::MAX),
    );
    assert_eq!(
        f.as_str(),
        "\"temperature\":255,\"humidity\":255,\"light\":65535,\"distance_cm\":4294967295"
    );
    assert_eq!(f.len(), 71);
}

#[test]
fn body_wraps_fields() {
    let f = json_fields(None, Some(512), None);
    let b = json_body(&f);
    assert_eq!(b.as_str(), "{\"payload\":{\"light\":512}}");
}

#[test]
fn body_of_full_fields_buffer_fits() {
    let mut f: heapless::String<128> = heapless::String::new();
    for _ in 0..128 {
        f.push('x').unwrap();
    }
    let b = json_body(&f);
    assert_eq!(b.len(), 142);
    assert!(b.as_str().starts_with("{\"payload\":{xxx"));
    assert!(b.as_str().ends_with("xxx}}"));
}

#[test]
fn no_readings_no_post() {
    assert!(uplink_payload(None, None, None).is_none());
}

#[test]
fn payload_of_dht_reading() {
    let p = uplink_payload(Some(DhtData { temperature: 20, humidity: 50 }), None, None).unwrap();
    assert_eq!(p.as_str(), "{\"payload\":{\"temperature\":20,\"humidity\":50}}");
}

#[test]
fn payload_of_all_readings() {
    let p = uplink_payload(
        Some(DhtData { temperature: 21, humidity: 40 }),
        Some(300),
        Some(12),
    )
    .unwrap();
    assert_eq!(
        p.as_str(),
        "{\"payload\":{\"temperature\":21,\"humidity\":40,\"light\":300,\"distance_cm\":12}}"
    );
}
