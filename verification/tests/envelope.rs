use ponder::device::DeviceTypes;
use ponder::envelope::{deploy_response, packet_envelope};

#[test]
fn packet_envelope_exact_text() {
    let body = packet_envelope("DEV1", "0102ff", "1700000000000");
    assert_eq!(
        body,
        "{\"cmd\":\"packet\",\"data\":\"0102ff\",\"did\":\"DEV1\",\"mid\":1700000000000,\"type\":1}"
    );
    // and it is well-formed JSON with the right fields
    let v: serde_json::Value = serde_json::from_str(&body).unwrap();
    assert_eq!(v["cmd"], "packet");
    assert_eq!(v["data"], "0102ff");
    assert_eq!(v["did"], "DEV1");
    assert_eq!(v["mid"], 1700000000000i64);
    assert_eq!(v["type"], 1);
}

#[test]
fn deploy_response_names_the_follow_up_topics() {
    let body = deploy_response("DEV1", "preDeploy", "42");
    let v: serde_json::Value = serde_json::from_str(&body).unwrap();
    assert_eq!(v["cmd"], "completeProvisioning");
    assert_eq!(v["did"], "DEV1");
    assert_eq!(v["mid"], 42);
    assert_eq!(v["type"], 0);
    assert_eq!(v["data"]["result"], 0);
    assert_eq!(v["data"]["host"], "message");
    assert_eq!(v["data"]["provisioningType"], "preDeploy");
    assert_eq!(v["data"]["deployInterval"], 600);
    assert_eq!(v["data"]["appInfo"]["host"], "message");
    assert_eq!(
        v["data"]["appInfo"]["publication"]["message"],
        "clip/message/devices/DEV1"
    );
    assert_eq!(
        v["data"]["appInfo"]["publication"]["provisioning"],
        "clip/provisioning/devices/DEV1"
    );
}

#[test]
fn capability_table_lists_the_climate_descriptor() {
    let table = DeviceTypes::RAC_056905_WW.get_inner_config("DEV1", "ponder");
    assert_eq!(table.len(), 17);
    assert_eq!(table[0], ("name".to_string(), "\"LG Air Conditioner\"".to_string()));
    assert_eq!(table[2], ("temp_step".to_string(), "0.5".to_string()));
    assert_eq!(
        table[7],
        (
            "current_temperature_topic".to_string(),
            "\"ponder/DEV1/current_temperature\"".to_string()
        )
    );
    assert_eq!(
        table[16],
        ("swing_mode_command_topic".to_string(), "\"ponder/DEV1/swing_mode/set\"".to_string())
    );
    // every value is a well-formed JSON fragment
    for (_, fragment) in &table {
        assert!(serde_json::from_str::<serde_json::Value>(fragment).is_ok());
    }
    let modes: serde_json::Value = serde_json::from_str(&table[4].1).unwrap();
    assert_eq!(modes[0], "auto");
    assert_eq!(modes[5], "very high");
}
