use ponder::crc16::crc16;
use ponder::device::{DeviceTypes, DeviceWrapper, WriteError};
use ponder::tlv::{parse_tlv, Tlv};

fn session() -> DeviceWrapper {
    DeviceWrapper::new(
        DeviceTypes::RAC_056905_WW,
        "DEV1".to_string(),
        "lime/devices/DEV1".to_string(),
    )
}

fn decode_write_frame(frame_hex: &str) -> Vec<Tlv> {
    let frame = hex::decode(frame_hex).unwrap();
    assert_eq!(&frame[0..2], &[1, 1]);
    assert_eq!(&frame[2..7], &[0x04, 0x00, 0x00, 0x00, 0x65]);
    assert_eq!(&frame[7..10], &[2, 1, 1]);
    assert_eq!(frame[10] as usize, frame.len() - 13);
    let crc = crc16(&frame[2..frame.len() - 2]);
    assert_eq!(frame[frame.len() - 2], (crc >> 8) as u8);
    assert_eq!(frame[frame.len() - 1], (crc & 0xFF) as u8);
    parse_tlv(&frame[11..frame.len() - 2])
}

#[test]
fn inbound_temperature_update_publishes_current_temperature() {
    let mut dev = session();
    let pubs = dev.process_tlv("ponder".to_string(), vec![Tlv { t: 0x1fd, v: 20 }]);
    assert_eq!(pubs.len(), 1);
    assert_eq!(pubs[0].topic, "ponder/DEV1/current_temperature");
    assert_eq!(pubs[0].payload, "10");
    assert!(pubs[0].retain);
    assert_eq!(dev.get_raw_clip_state(0x1fd), Some(20));
}

#[test]
fn unknown_tag_is_cached_but_not_published() {
    let mut dev = session();
    let pubs = dev.process_tlv("ponder".to_string(), vec![Tlv { t: 0x123, v: 7 }]);
    assert!(pubs.is_empty());
    assert_eq!(dev.get_raw_clip_state(0x123), Some(7));
}

#[test]
fn unrecognized_value_falls_back_to_decimal() {
    let mut dev = session();
    // fan mode 7 has no symbolic reading
    let pubs = dev.process_tlv("ponder".to_string(), vec![Tlv { t: 0x1fa, v: 7 }]);
    assert_eq!(pubs.len(), 1);
    assert_eq!(pubs[0].topic, "ponder/DEV1/fan_mode");
    assert_eq!(pubs[0].payload, "7");
}

#[test]
fn power_off_redirects_to_mode_and_publishes_off() {
    // the two-hop chain: the power update redirects, mode publishes
    let mut dev = session();
    let pubs = dev.process_tlv("ponder".to_string(), vec![Tlv { t: 0x1f7, v: 0 }]);
    assert_eq!(pubs.len(), 1);
    assert_eq!(pubs[0].topic, "ponder/DEV1/mode");
    assert_eq!(pubs[0].payload, "off");
    assert_eq!(dev.get_raw_clip_state(0x1f7), Some(0));
    // the redirect resumes at field lookup: nothing is stored under the
    // mode tag
    assert_eq!(dev.get_raw_clip_state(0x1f9), None);
}

#[test]
fn redirect_leaves_the_mode_register_cache_intact() {
    // a cached mode register survives a power update, so a later write
    // echoes the real mode value, not the power update's raw value
    let mut dev = session();
    dev.process_tlv(
        "ponder".to_string(),
        vec![Tlv { t: 0x1f9, v: 4 }, Tlv { t: 0x1fe, v: 36 }],
    );
    dev.process_tlv("ponder".to_string(), vec![Tlv { t: 0x1f7, v: 1 }]);
    assert_eq!(dev.get_raw_clip_state(0x1f9), Some(4));
    let (packets, err) = dev.set_property("fan_mode".to_string(), "low".to_string());
    assert!(err.is_none());
    let records = decode_write_frame(&packets[0].frame_hex);
    assert_eq!(
        records,
        vec![Tlv { t: 0x1fa, v: 3 }, Tlv { t: 0x1f9, v: 4 }, Tlv { t: 0x1fe, v: 36 }]
    );
}

#[test]
fn power_on_redirects_and_reads_mode_from_reused_value() {
    let mut dev = session();
    let pubs = dev.process_tlv("ponder".to_string(), vec![Tlv { t: 0x1f7, v: 1 }]);
    assert_eq!(pubs.len(), 1);
    assert_eq!(pubs[0].topic, "ponder/DEV1/mode");
    assert_eq!(pubs[0].payload, "dry");
}

#[test]
fn later_records_see_earlier_cache_updates() {
    let mut dev = session();
    let pubs = dev.process_tlv(
        "ponder".to_string(),
        vec![Tlv { t: 0x1f7, v: 0 }, Tlv { t: 0x1f9, v: 4 }],
    );
    // the mode record still reads off because power is cached as 0
    assert_eq!(pubs.len(), 2);
    assert_eq!(pubs[1].topic, "ponder/DEV1/mode");
    assert_eq!(pubs[1].payload, "off");
}

#[test]
fn setting_mode_off_powers_the_unit_off() {
    // the prerequisite write carries the whole effect: power goes to 0,
    // and "off" has no mode register value of its own
    let mut dev = session();
    let (packets, err) = dev.set_property("mode".to_string(), "off".to_string());
    assert!(err.is_none());
    assert_eq!(packets.len(), 1);
    assert_eq!(packets[0].topic, "lime/devices/DEV1");
    assert_eq!(packets[0].did, "DEV1");
    let records = decode_write_frame(&packets[0].frame_hex);
    assert_eq!(records, vec![Tlv { t: 0x1f7, v: 0 }]);
    assert_eq!(dev.get_raw_clip_state(0x1f7), Some(0));
}

#[test]
fn write_echoes_attach_registers_from_cache() {
    let mut dev = session();
    dev.process_tlv(
        "ponder".to_string(),
        vec![Tlv { t: 0x1f9, v: 0 }, Tlv { t: 0x1fe, v: 36 }],
    );
    let (packets, err) = dev.set_property("fan_mode".to_string(), "low".to_string());
    assert!(err.is_none());
    assert_eq!(packets.len(), 1);
    let records = decode_write_frame(&packets[0].frame_hex);
    assert_eq!(
        records,
        vec![Tlv { t: 0x1fa, v: 3 }, Tlv { t: 0x1f9, v: 0 }, Tlv { t: 0x1fe, v: 36 }]
    );
    // the primary register is cached; the echoed ones keep their values
    assert_eq!(dev.get_raw_clip_state(0x1fa), Some(3));
    assert_eq!(dev.get_raw_clip_state(0x1f9), Some(0));
}

#[test]
fn missing_attach_state_is_a_recoverable_error() {
    let mut dev = session();
    let (packets, err) = dev.set_property("temperature".to_string(), "18".to_string());
    assert!(packets.is_empty());
    assert_eq!(err, Some(WriteError::MissingAttachState(0x1f9)));
    // the failed write left no trace in the cache
    assert_eq!(dev.get_raw_clip_state(0x1fe), None);
}

#[test]
fn unwritable_and_unknown_properties_are_no_ops() {
    let mut dev = session();
    let (packets, err) = dev.set_property("current_temperature".to_string(), "10".to_string());
    assert!(packets.is_empty() && err.is_none());
    let (packets, err) = dev.set_property("no_such_property".to_string(), "1".to_string());
    assert!(packets.is_empty() && err.is_none());
}

#[test]
fn unparseable_value_aborts_silently() {
    let mut dev = session();
    let (packets, err) = dev.set_property("mode".to_string(), "warp".to_string());
    assert!(packets.is_empty() && err.is_none());
    assert_eq!(dev.get_raw_clip_state(0x1f9), None);
}

#[test]
fn query_packet_matches_the_wire_format() {
    let dev = session();
    let q = dev.query();
    assert_eq!(q.topic, "lime/devices/DEV1");
    assert_eq!(q.did, "DEV1");
    let frame = hex::decode(&q.frame_hex).unwrap();
    assert_eq!(&frame[0..2], &[1, 1]);
    assert_eq!(&frame[7..10], &[2, 2, 1]);
    let records = parse_tlv(&frame[11..frame.len() - 2]);
    assert_eq!(records, vec![Tlv { t: 0x1f5, v: 2 }]);
}

#[test]
fn publish_config_announces_discovery_and_availability() {
    let dev = session();
    let (discovery, availability) =
        dev.publish_config("homeassistant".to_string(), "ponder".to_string());
    assert_eq!(discovery.topic, "homeassistant/climate/ponder/DEV1/config");
    assert_eq!(discovery.device_id, "DEV1");
    assert_eq!(discovery.ponder_prefix, "ponder");
    assert_eq!(availability.topic, "ponder/DEV1/availability");
    assert_eq!(availability.payload, "online");
    assert!(!availability.retain);
}
