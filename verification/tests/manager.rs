use ponder::device_manager::{DeviceManager, Effect, Payload};

fn manager() -> DeviceManager {
    DeviceManager::new("homeassistant".to_string(), "ponder".to_string())
}

fn deploy(m: &mut DeviceManager, did: &str) -> Vec<Effect> {
    m.on_publish(
        format!("clip/provisioning/devices/{}", did),
        Payload {
            cmd: "deploy".to_string(),
            did: did.to_string(),
            kind: String::new(),
            data: String::new(),
        },
        "{\"raw\":\"deploy\"}".to_string(),
    )
}

fn ack(m: &mut DeviceManager, did: &str, kind: &str) -> Vec<Effect> {
    m.on_publish(
        format!("clip/message/devices/{}", did),
        Payload {
            cmd: "completeProvisioning_ack".to_string(),
            did: did.to_string(),
            kind: kind.to_string(),
            data: String::new(),
        },
        String::new(),
    )
}

#[test]
fn deploy_request_answers_with_provisioning_response() {
    let mut m = manager();
    let effects = deploy(&mut m, "DEV1");
    assert_eq!(effects.len(), 1);
    match &effects[0] {
        Effect::DeployAck(a) => {
            assert_eq!(a.topic, "lime/devices/DEV1");
            assert_eq!(a.did, "DEV1");
            assert_eq!(a.provisioning_type, "deploy");
        }
        _ => panic!("expected a provisioning response"),
    }
}

#[test]
fn predeploy_also_arms_provisioning() {
    let mut m = manager();
    let effects = m.on_publish(
        "clip/provisioning/devices/DEV1".to_string(),
        Payload {
            cmd: "preDeploy".to_string(),
            did: "DEV1".to_string(),
            kind: String::new(),
            data: String::new(),
        },
        "{\"raw\":\"preDeploy\"}".to_string(),
    );
    assert_eq!(effects.len(), 1);
    match &effects[0] {
        Effect::DeployAck(a) => assert_eq!(a.provisioning_type, "preDeploy"),
        _ => panic!("expected a provisioning response"),
    }
    // a repeated deploy replaces the pending record and answers again
    let again = deploy(&mut m, "DEV1");
    assert_eq!(again.len(), 1);
    // the acknowledgment still completes provisioning
    assert_eq!(ack(&mut m, "DEV1", "RAC_056905_WW").len(), 3);
}

#[test]
fn provisioning_creates_one_session_with_announcements() {
    let mut m = manager();
    deploy(&mut m, "DEV1");
    let effects = ack(&mut m, "DEV1", "RAC_056905_WW");
    assert_eq!(effects.len(), 3);
    match &effects[0] {
        Effect::Discovery(d) => {
            assert_eq!(d.topic, "homeassistant/climate/ponder/DEV1/config");
            assert_eq!(d.device_id, "DEV1");
        }
        _ => panic!("expected the discovery descriptor first"),
    }
    match &effects[1] {
        Effect::Hub(hp) => {
            assert_eq!(hp.topic, "ponder/DEV1/availability");
            assert_eq!(hp.payload, "online");
            assert!(!hp.retain);
        }
        _ => panic!("expected the availability announcement second"),
    }
    match &effects[2] {
        Effect::Packet(p) => {
            assert_eq!(p.topic, "lime/devices/DEV1");
            assert_eq!(p.did, "DEV1");
        }
        _ => panic!("expected the initial state query third"),
    }
    // one session announced on rediscovery
    assert_eq!(m.on_discovery().len(), 2);
}

#[test]
fn duplicate_ack_is_a_reported_no_op() {
    let mut m = manager();
    deploy(&mut m, "DEV1");
    let first = ack(&mut m, "DEV1", "RAC_056905_WW");
    assert_eq!(first.len(), 3);
    let second = ack(&mut m, "DEV1", "RAC_056905_WW");
    assert_eq!(second.len(), 1);
    match &second[0] {
        Effect::Report(msg) => assert_eq!(msg, "completeProvisioning_ack received twice"),
        _ => panic!("expected a report"),
    }
    // still exactly one session
    assert_eq!(m.on_discovery().len(), 2);
}

#[test]
fn ack_without_deploy_is_reported() {
    let mut m = manager();
    let effects = ack(&mut m, "DEV1", "RAC_056905_WW");
    assert_eq!(effects.len(), 1);
    match &effects[0] {
        Effect::Report(msg) => {
            assert_eq!(msg, "completeProvisioning_ack received without deploy/preDeploy")
        }
        _ => panic!("expected a report"),
    }
    assert_eq!(m.on_discovery().len(), 0);
}

#[test]
fn ack_with_unknown_kind_is_reported() {
    let mut m = manager();
    deploy(&mut m, "DEV1");
    let effects = ack(&mut m, "DEV1", "XYZ_000000_WW");
    assert_eq!(effects.len(), 1);
    match &effects[0] {
        Effect::Report(msg) => {
            assert_eq!(msg, "completeProvisioning_ack for unknown device kind")
        }
        _ => panic!("expected a report"),
    }
    assert_eq!(m.on_discovery().len(), 0);
}

#[test]
fn inbound_frame_publishes_current_temperature_end_to_end() {
    // frame bytes 04 00 00 00 65 02 04 at offsets 2..=8, with the
    // TLV (0x1fd, 20): published as current_temperature = "10", retained
    let mut m = manager();
    deploy(&mut m, "DEV1");
    ack(&mut m, "DEV1", "RAC_056905_WW");
    let effects = m.on_publish(
        "clip/message/devices/DEV1".to_string(),
        Payload {
            cmd: "device_packet".to_string(),
            did: "DEV1".to_string(),
            kind: String::new(),
            data: "00000400000065020401037f50140000".to_string(),
        },
        String::new(),
    );
    assert_eq!(effects.len(), 1);
    match &effects[0] {
        Effect::Hub(hp) => {
            assert_eq!(hp.topic, "ponder/DEV1/current_temperature");
            assert_eq!(hp.payload, "10");
            assert!(hp.retain);
        }
        _ => panic!("expected a hub property publish"),
    }
}

#[test]
fn packets_for_unknown_devices_are_dropped() {
    let mut m = manager();
    let effects = m.on_publish(
        "clip/message/devices/GHOST".to_string(),
        Payload {
            cmd: "device_packet".to_string(),
            did: "GHOST".to_string(),
            kind: String::new(),
            data: "00000400000065020401037f50140000".to_string(),
        },
        String::new(),
    );
    assert!(effects.is_empty());
}

#[test]
fn malformed_packets_are_dropped_silently() {
    let mut m = manager();
    deploy(&mut m, "DEV1");
    ack(&mut m, "DEV1", "RAC_056905_WW");
    // not hex at all
    let e1 = m.on_publish(
        "clip/message/devices/DEV1".to_string(),
        Payload {
            cmd: "device_packet".to_string(),
            did: "DEV1".to_string(),
            kind: String::new(),
            data: "zz".to_string(),
        },
        String::new(),
    );
    assert!(e1.is_empty());
    // hex, but too short for a frame
    let e2 = m.on_publish(
        "clip/message/devices/DEV1".to_string(),
        Payload {
            cmd: "device_packet".to_string(),
            did: "DEV1".to_string(),
            kind: String::new(),
            data: "0400".to_string(),
        },
        String::new(),
    );
    assert!(e2.is_empty());
}

#[test]
fn unrelated_topics_are_ignored() {
    let mut m = manager();
    let effects = m.on_publish(
        "some/other/topic".to_string(),
        Payload {
            cmd: "device_packet".to_string(),
            did: "DEV1".to_string(),
            kind: String::new(),
            data: String::new(),
        },
        String::new(),
    );
    assert!(effects.is_empty());
}

#[test]
fn set_property_routes_to_the_device_session() {
    let mut m = manager();
    deploy(&mut m, "DEV1");
    ack(&mut m, "DEV1", "RAC_056905_WW");
    let (effects, err) =
        m.on_set_property("DEV1".to_string(), "mode".to_string(), "off".to_string());
    assert!(err.is_none());
    assert_eq!(effects.len(), 1);
    match &effects[0] {
        Effect::Packet(p) => {
            assert_eq!(p.topic, "lime/devices/DEV1");
            assert_eq!(p.did, "DEV1");
        }
        _ => panic!("expected a write packet"),
    }
    let (effects, err) =
        m.on_set_property("GHOST".to_string(), "mode".to_string(), "cool".to_string());
    assert!(effects.is_empty() && err.is_none());
}
