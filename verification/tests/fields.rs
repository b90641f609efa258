use ponder::cache::RegisterCache;
use ponder::rac_056905_ww::RAC_056905_WW_Fields;
use ponder::text::{parse_temperature, u32_to_string};

fn field(name: &str) -> RAC_056905_WW_Fields {
    RAC_056905_WW_Fields::from_name(name).unwrap()
}

#[test]
fn registry_lookup_by_id_and_name_agree() {
    for name in [
        "current_temperature",
        "power",
        "mode",
        "fan_mode",
        "temperature",
        "vertical_swing_mode",
        "swing_mode",
    ] {
        let f = field(name);
        assert_eq!(f.name(), name);
        assert_eq!(RAC_056905_WW_Fields::from_id(f.id()), Some(f));
    }
    assert!(RAC_056905_WW_Fields::from_id(0x999).is_none());
    assert!(RAC_056905_WW_Fields::from_name("no_such_property").is_none());
}

#[test]
fn readable_and_writable_flags() {
    assert!(!field("power").readable());
    assert!(field("mode").readable());
    assert!(!field("current_temperature").writable());
    assert!(field("temperature").writable());
}

#[test]
fn read_xform_halves_temperatures() {
    let cache = RegisterCache::new();
    let f = field("current_temperature");
    assert_eq!(f.read_xform(20, &cache), Some("10".to_string()));
    assert_eq!(f.read_xform(37, &cache), Some("18".to_string()));
}

#[test]
fn read_xform_mode_follows_cached_power() {
    let mut cache = RegisterCache::new();
    let f = field("mode");
    // without a cached power register the mode value decides
    assert_eq!(f.read_xform(0, &cache), Some("cool".to_string()));
    assert_eq!(f.read_xform(4, &cache), Some("heat".to_string()));
    assert_eq!(f.read_xform(3, &cache), None);
    // a powered-off unit reads as off whatever the register holds
    cache.insert(0x1f7, 0);
    assert_eq!(f.read_xform(4, &cache), Some("off".to_string()));
    // powered on again
    cache.insert(0x1f7, 1);
    assert_eq!(f.read_xform(6, &cache), Some("auto".to_string()));
}

#[test]
fn read_xform_fan_and_swing_tables() {
    let cache = RegisterCache::new();
    assert_eq!(field("fan_mode").read_xform(2, &cache), Some("very low".to_string()));
    assert_eq!(field("fan_mode").read_xform(8, &cache), Some("auto".to_string()));
    assert_eq!(field("fan_mode").read_xform(7, &cache), None);
    assert_eq!(field("vertical_swing_mode").read_xform(0, &cache), Some("off".to_string()));
    assert_eq!(field("vertical_swing_mode").read_xform(3, &cache), Some("3".to_string()));
    assert_eq!(field("vertical_swing_mode").read_xform(100, &cache), Some("on".to_string()));
    assert_eq!(field("vertical_swing_mode").read_xform(7, &cache), None);
    assert_eq!(field("swing_mode").read_xform(13, &cache), Some("1-3".to_string()));
    assert_eq!(field("swing_mode").read_xform(35, &cache), Some("3-5".to_string()));
    assert_eq!(field("swing_mode").read_xform(6, &cache), None);
}

#[test]
fn read_callback_redirects_power_to_mode() {
    assert_eq!(field("power").read_callback("ON".to_string()), Some(0x1f9));
    assert_eq!(field("mode").read_callback("cool".to_string()), None);
}

#[test]
fn pre_write_orders_power_off_before_mode_off() {
    let f = field("mode");
    assert_eq!(
        f.pre_write_xform_set_property("off".to_string()),
        Some(("power".to_string(), "OFF".to_string()))
    );
    assert_eq!(f.pre_write_xform_set_property("cool".to_string()), None);
    assert_eq!(field("power").pre_write_xform_set_property("OFF".to_string()), None);
}

#[test]
fn write_xform_tables() {
    assert_eq!(field("power").write_xform("ON".to_string()), Some(1));
    assert_eq!(field("power").write_xform("anything else".to_string()), Some(0));
    assert_eq!(field("mode").write_xform("fan_only".to_string()), Some(2));
    assert_eq!(field("mode").write_xform("off".to_string()), None);
    assert_eq!(field("fan_mode").write_xform("very high".to_string()), Some(6));
    assert_eq!(field("fan_mode").write_xform("turbo".to_string()), None);
    assert_eq!(field("swing_mode").write_xform("1-3".to_string()), Some(13));
    assert_eq!(field("swing_mode").write_xform("on".to_string()), Some(100));
    assert_eq!(field("current_temperature").write_xform("10".to_string()), None);
}

#[test]
fn write_xform_temperature_doubles_and_rounds() {
    let f = field("temperature");
    assert_eq!(f.write_xform("18".to_string()), Some(36));
    assert_eq!(f.write_xform("18.5".to_string()), Some(37));
    assert_eq!(f.write_xform("18.0".to_string()), Some(36));
    assert_eq!(f.write_xform("twenty".to_string()), None);
}

#[test]
fn write_attach_lists() {
    assert_eq!(field("power").write_attach(0), Some(vec![]));
    assert_eq!(field("power").write_attach(1), Some(vec![0x1f9, 0x1fa]));
    assert_eq!(field("mode").write_attach(0), Some(vec![0x1fa, 0x1fe]));
    assert_eq!(field("fan_mode").write_attach(3), Some(vec![0x1f9, 0x1fe]));
    assert_eq!(field("temperature").write_attach(36), Some(vec![0x1f9, 0x1fa]));
    assert_eq!(field("current_temperature").write_attach(0), None);
}

#[test]
fn decimal_rendering() {
    assert_eq!(u32_to_string(0), "0");
    assert_eq!(u32_to_string(10), "10");
    assert_eq!(u32_to_string(4294967295), "4294967295");
}

#[test]
fn temperature_scanner_rounds_halves_up() {
    assert_eq!(parse_temperature("0"), Some(0));
    assert_eq!(parse_temperature("0.24"), Some(0));
    assert_eq!(parse_temperature("0.25"), Some(1));
    assert_eq!(parse_temperature("0.74"), Some(1));
    assert_eq!(parse_temperature("0.75"), Some(2));
    assert_eq!(parse_temperature("21.5"), Some(43));
    assert_eq!(parse_temperature(""), None);
    // a trailing dot reads as a whole number
    assert_eq!(parse_temperature("1."), Some(2));
    assert_eq!(parse_temperature("20."), Some(40));
    assert_eq!(parse_temperature(".5"), None);
    assert_eq!(parse_temperature("1.2.3"), None);
    assert_eq!(parse_temperature("-3"), None);
    assert_eq!(parse_temperature("99999999999999999999"), None);
}

#[test]
fn cache_stores_last_seen_values() {
    let mut cache = RegisterCache::new();
    assert_eq!(cache.get(0x1f7), None);
    cache.insert(0x1f7, 1);
    cache.insert(0x1f9, 4);
    assert_eq!(cache.get(0x1f7), Some(1));
    cache.insert(0x1f7, 0);
    assert_eq!(cache.get(0x1f7), Some(0));
    assert_eq!(cache.get(0x1f9), Some(4));
    assert_eq!(cache.get(0x1fa), None);
}
