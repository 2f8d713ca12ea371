use jotunheim::sensors::mqtt_heater::requests::HeaterFanStateUpdateRequest;
use jotunheim::sensors::mqtt_heater::requests::ThermostatState;
use jotunheim::sensors::mqtt_heater::state::get_path;
use jotunheim::sensors::mqtt_heater::state::operation_state;
use jotunheim::sensors::mqtt_heater::state::suffix_of;
use jotunheim::sensors::mqtt_heater::state::to_topic;
use jotunheim::sensors::mqtt_heater::state::HeatStatus;
use jotunheim::sensors::mqtt_heater::state::HeaterFanMode;
use jotunheim::sensors::mqtt_heater::state::HeaterFanState;
use jotunheim::sensors::mqtt_heater::state::ParseError;
use jotunheim::sensors::mqtt_heater::state::Payload;
use jotunheim::sensors::mqtt_heater::state::Property;
use jotunheim::sensors::mqtt_heater::state::StateMap;

#[test]
fn to_topic_builds_the_canonical_key() {
    assert_eq!(
        to_topic("aabbcc", "power_on"),
        "appliance/heaterfan/aabbcc/state/power_on"
    );
    assert_eq!(to_topic("", ""), "appliance/heaterfan//state/");
}

#[test]
fn operation_state_holds_every_property_once() {
    let m = operation_state("dev");
    assert_eq!(m.len(), 12);
    let keys = m.keys();
    let expected = vec![
        "power_on",
        "mode",
        "target_temperature",
        "current_temperature",
        "fan_speed",
        "oscillate",
        "timer",
        "silent",
        "heater",
        "vent_heat",
        "heat_status",
        "error",
    ];
    for (k, e) in keys.iter().zip(expected.iter()) {
        assert_eq!(k, &format!("appliance/heaterfan/dev/state/{}", e));
    }
    assert_eq!(
        m.get("appliance/heaterfan/dev/state/power_on"),
        Some(&HeaterFanState::PowerOn(false))
    );
    assert_eq!(
        m.get("appliance/heaterfan/dev/state/mode"),
        Some(&HeaterFanState::Mode(HeaterFanMode::Normal))
    );
    assert_eq!(
        m.get("appliance/heaterfan/dev/state/heat_status"),
        Some(&HeaterFanState::HeatStatus(HeatStatus::Idle))
    );
    assert_eq!(
        m.get("appliance/heaterfan/dev/state/timer"),
        Some(&HeaterFanState::Timer(0))
    );
    assert_eq!(m.get("appliance/heaterfan/other/state/timer"), None);
}

#[test]
fn state_map_replaces_and_never_appends() {
    let mut m = StateMap::new();
    assert_eq!(m.insert("a/x".to_string(), HeaterFanState::FanSpeed(1)), None);
    assert_eq!(m.insert("a/y".to_string(), HeaterFanState::Timer(7)), None);
    assert_eq!(
        m.insert("a/x".to_string(), HeaterFanState::FanSpeed(9)),
        Some(HeaterFanState::FanSpeed(1))
    );
    assert_eq!(m.len(), 2);
    assert_eq!(m.get("a/x"), Some(&HeaterFanState::FanSpeed(9)));
    assert_eq!(m.keys(), vec!["a/x".to_string(), "a/y".to_string()]);
    assert_eq!(
        m.values(),
        vec![HeaterFanState::FanSpeed(9), HeaterFanState::Timer(7)]
    );
    assert!(m.contains_key("a/y"));
    assert!(!m.contains_key("a/z"));
    assert_eq!(m.last(Property::Timer), Some(HeaterFanState::Timer(7)));
    assert_eq!(m.last(Property::Mode), None);
}

#[test]
fn get_path_finds_the_key_of_the_property() {
    let m = operation_state("dev");
    assert_eq!(
        get_path(&m, &HeaterFanStateUpdateRequest::PowerOn(true)),
        Some("appliance/heaterfan/dev/state/power_on")
    );
    assert_eq!(
        get_path(&m, &HeaterFanStateUpdateRequest::Heater(ThermostatState::Off)),
        Some("appliance/heaterfan/dev/state/heater")
    );
    assert_eq!(
        get_path(&m, &HeaterFanStateUpdateRequest::VentHeat(false)),
        Some("appliance/heaterfan/dev/state/vent_heat")
    );
    let empty = StateMap::new();
    assert_eq!(get_path(&empty, &HeaterFanStateUpdateRequest::Timer(3)), None);
    let mut first = StateMap::new();
    first.insert("one/timer".to_string(), HeaterFanState::Timer(1));
    first.insert("two/timer".to_string(), HeaterFanState::Timer(2));
    assert_eq!(
        get_path(&first, &HeaterFanStateUpdateRequest::Timer(3)),
        Some("one/timer")
    );
}

#[test]
fn suffix_is_what_follows_the_last_slash() {
    assert_eq!(suffix_of("a/b/c"), Some("c"));
    assert_eq!(suffix_of("a/b/"), Some(""));
    assert_eq!(suffix_of("/x"), Some("x"));
    assert_eq!(suffix_of("abc"), None);
    assert_eq!(suffix_of(""), None);
    assert_eq!(suffix_of("grad/\u{b0}C"), Some("\u{b0}C"));
}

#[test]
fn property_table_round_trips() {
    let all = [
        Property::PowerOn,
        Property::Mode,
        Property::TargetTemperature,
        Property::CurrentTemperature,
        Property::FanSpeed,
        Property::Oscillate,
        Property::Timer,
        Property::Silent,
        Property::Heater,
        Property::VentHeat,
        Property::HeatStatus,
        Property::Error,
    ];
    for p in all.iter() {
        assert_eq!(Property::from_suffix(p.suffix()), Some(*p));
    }
    assert_eq!(Property::from_suffix("power"), None);
    assert_eq!(Property::from_suffix("Power_on"), None);
    assert_eq!(HeaterFanState::Timer(3).property(), Property::Timer);
}

#[test]
fn parse_by_key_decodes_each_property() {
    let t = |s: &str| format!("appliance/heaterfan/dev/state/{}", s);
    assert_eq!(
        HeaterFanState::parse_by_key(&t("power_on"), &Payload::Bool(true)),
        Ok(HeaterFanState::PowerOn(true))
    );
    assert_eq!(
        HeaterFanState::parse_by_key(&t("mode"), &Payload::Text("natural".to_string())),
        Ok(HeaterFanState::Mode(HeaterFanMode::Natural))
    );
    assert_eq!(
        HeaterFanState::parse_by_key(&t("mode"), &Payload::Text("sleep".to_string())),
        Ok(HeaterFanState::Mode(HeaterFanMode::Sleep))
    );
    assert_eq!(
        HeaterFanState::parse_by_key(&t("target_temperature"), &Payload::Unsigned(22)),
        Ok(HeaterFanState::TargetTemperature(22))
    );
    assert_eq!(
        HeaterFanState::parse_by_key(&t("current_temperature"), &Payload::Unsigned(255)),
        Ok(HeaterFanState::CurrentTemperature(255))
    );
    assert_eq!(
        HeaterFanState::parse_by_key(&t("fan_speed"), &Payload::Unsigned(10)),
        Ok(HeaterFanState::FanSpeed(10))
    );
    assert_eq!(
        HeaterFanState::parse_by_key(&t("oscillate"), &Payload::Bool(false)),
        Ok(HeaterFanState::Oscillate(false))
    );
    assert_eq!(
        HeaterFanState::parse_by_key(&t("timer"), &Payload::Unsigned(65535)),
        Ok(HeaterFanState::Timer(65535))
    );
    assert_eq!(
        HeaterFanState::parse_by_key(&t("silent"), &Payload::Bool(true)),
        Ok(HeaterFanState::Silent(true))
    );
    assert_eq!(
        HeaterFanState::parse_by_key(&t("heater"), &Payload::Bool(true)),
        Ok(HeaterFanState::Heater(true))
    );
    assert_eq!(
        HeaterFanState::parse_by_key(&t("vent_heat"), &Payload::Bool(true)),
        Ok(HeaterFanState::VentHeat(true))
    );
    assert_eq!(
        HeaterFanState::parse_by_key(&t("heat_status"), &Payload::Text("active".to_string())),
        Ok(HeaterFanState::HeatStatus(HeatStatus::Active))
    );
    assert_eq!(
        HeaterFanState::parse_by_key(&t("error"), &Payload::Unsigned(3)),
        Ok(HeaterFanState::Error(3))
    );
}

#[test]
fn parse_by_key_rejects_unknown_topics_and_bad_payloads() {
    assert_eq!(
        HeaterFanState::parse_by_key("appliance/heaterfan/dev/state/colour", &Payload::Bool(true)),
        Err(ParseError::UnresolvedTopic)
    );
    assert_eq!(
        HeaterFanState::parse_by_key("power_on", &Payload::Bool(true)),
        Err(ParseError::UnresolvedTopic)
    );
    assert_eq!(
        HeaterFanState::parse_by_key("a/power_on/", &Payload::Bool(true)),
        Err(ParseError::UnresolvedTopic)
    );
    assert_eq!(
        HeaterFanState::parse_by_key("a/power_on", &Payload::Unsigned(1)),
        Err(ParseError::MalformedPayload)
    );
    assert_eq!(
        HeaterFanState::parse_by_key("a/target_temperature", &Payload::Unsigned(256)),
        Err(ParseError::MalformedPayload)
    );
    assert_eq!(
        HeaterFanState::parse_by_key("a/timer", &Payload::Unsigned(65536)),
        Err(ParseError::MalformedPayload)
    );
    assert_eq!(
        HeaterFanState::parse_by_key("a/mode", &Payload::Text("Normal".to_string())),
        Err(ParseError::MalformedPayload)
    );
    assert_eq!(
        HeaterFanState::parse_by_key("a/heat_status", &Payload::Text("on".to_string())),
        Err(ParseError::MalformedPayload)
    );
    assert_eq!(
        HeaterFanState::parse_by_key("a/fan_speed", &Payload::Other),
        Err(ParseError::MalformedPayload)
    );
}
