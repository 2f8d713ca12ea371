use jotunheim::db::DataCollector;
use jotunheim::db::Effect;
use jotunheim::db::Metric;
use jotunheim::db::PrometheusCollector;
use jotunheim::db::Update;
use jotunheim::msg::AccessoryType;
use jotunheim::msg::SensorReading;
use jotunheim::msg::SetupMetrics;
use jotunheim::msg::Switch;
use jotunheim::msg::Value;
use jotunheim::sensors::mqtt_heater::requests::find_current_state;
use jotunheim::switches::gpio::GpioSwitch;
use jotunheim::sensors::mqtt_heater::requests::webhook_state_requests;
use jotunheim::sensors::mqtt_heater::requests::ThermostatState;
use jotunheim::sensors::mqtt_heater::util::bool_from_int;
use jotunheim::sensors::mqtt_heater::util::int_from_bool;
use jotunheim::utils::decimal_text;
use jotunheim::utils::flag_text;
use jotunheim::utils::single_of_bool;
use jotunheim::utils::single_of_u8;
use jotunheim::webhook::match_state_str;
use jotunheim::webhook::WebHookCollector;

fn labels(a: &str, b: &str) -> Vec<String> {
    vec![a.to_string(), b.to_string()]
}

fn reading(id: u128, value: Value, a: &str, b: &str) -> SensorReading {
    SensorReading {
        id,
        reading: value,
        labels: labels(a, b),
        accessory_type: None,
    }
}

#[test]
fn gauge_round_trip_reports_the_value() {
    let mut registry = PrometheusCollector::new();
    registry.register(SetupMetrics::Gauge(1, "temp".to_string(), labels("kind", "unit")));
    let update = registry
        .reading(&reading(1, Value::Simple(21.5f32.to_bits()), "temperature", "celsius"))
        .unwrap();
    assert_eq!(
        update,
        Update {
            name: "temp".to_string(),
            label_values: labels("temperature", "celsius"),
            effect: Effect::Store(21.5f32.to_bits()),
        }
    );
    let gauge = prometheus::GaugeVec::new(prometheus::Opts::new("temp", "help"), &["kind", "unit"])
        .unwrap();
    let exporter = prometheus::Registry::new();
    exporter.register(Box::new(gauge.clone())).unwrap();
    let values: Vec<&str> = update.label_values.iter().map(|s| s.as_str()).collect();
    match update.effect {
        Effect::Store(bits) => gauge.with_label_values(&values).set(f32::from_bits(bits) as f64),
        _ => panic!("a scalar sets the gauge"),
    }
    let text = prometheus::TextEncoder::new()
        .encode_to_string(&exporter.gather())
        .unwrap();
    assert!(text.contains("temp{kind=\"temperature\",unit=\"celsius\"} 21.5"));
}

#[test]
fn readings_of_unknown_identities_are_dropped() {
    let mut registry = PrometheusCollector::new();
    assert_eq!(registry.reading(&reading(9, Value::Inc, "a", "b")), None);
    registry.register(SetupMetrics::Counter(1, "hits".to_string(), labels("kind", "unit")));
    assert_eq!(registry.reading(&reading(9, Value::Inc, "a", "b")), None);
    assert!(!registry.contains(9));
    assert!(registry.contains(1));
    let mut forwarder = WebHookCollector::new("http://bridge/?{}".to_string());
    assert_eq!(forwarder.reading(&reading(9, Value::Simple(0), "a", "b"), "0"), None);
    forwarder.register(SetupMetrics::Gauge(1, "room".to_string(), labels("kind", "unit")));
    assert_eq!(forwarder.reading(&reading(9, Value::Simple(0), "a", "b"), "0"), None);
}

#[test]
fn a_reading_moves_the_metric_of_its_identity_only() {
    let mut registry = PrometheusCollector::new();
    registry.register(SetupMetrics::Gauge(1, "one".to_string(), labels("kind", "unit")));
    registry.register(SetupMetrics::Counter(2, "two".to_string(), labels("kind", "unit")));
    let first = registry.reading(&reading(1, Value::Dec, "a", "b")).unwrap();
    assert_eq!(first.name, "one");
    assert_eq!(first.effect, Effect::Dec);
    let second = registry.reading(&reading(2, Value::Inc, "a", "b")).unwrap();
    assert_eq!(second.name, "two");
    assert_eq!(second.effect, Effect::Inc);
    registry.register(SetupMetrics::Gauge(3, "three".to_string(), labels("kind", "unit")));
    assert_eq!(registry.reading(&reading(1, Value::Dec, "a", "b")).unwrap(), first);
}

#[test]
fn registering_again_overwrites() {
    let mut registry = PrometheusCollector::new();
    registry.register(SetupMetrics::Gauge(1, "old".to_string(), labels("kind", "unit")));
    registry.register(SetupMetrics::Counter(1, "new".to_string(), labels("kind", "unit")));
    let update = registry.reading(&reading(1, Value::Simple(5), "a", "b")).unwrap();
    assert_eq!(update.name, "new");
    assert_eq!(update.effect, Effect::Nothing);
}

#[test]
fn counters_only_count_up() {
    let m = Metric {
        name: "m".to_string(),
        labels: labels("kind", "unit"),
    };
    let gauge = DataCollector::Gauge(m.clone());
    let counter = DataCollector::Counter(m);
    assert_eq!(gauge.set(17), Effect::Store(17));
    assert_eq!(gauge.inc(), Effect::Inc);
    assert_eq!(gauge.dec(), Effect::Dec);
    assert_eq!(counter.set(17), Effect::Nothing);
    assert_eq!(counter.inc(), Effect::Inc);
    assert_eq!(counter.dec(), Effect::Nothing);
}

#[test]
fn state_str_follows_the_category() {
    let v = Value::Simple(0);
    assert_eq!(
        match_state_str("room", Some(AccessoryType::Temperature), v, "21.5"),
        "accessoryId=room-temperature&value=21.5"
    );
    assert_eq!(
        match_state_str("room", Some(AccessoryType::Pressure), v, "1013"),
        "accessoryId=room-pressure&value=1013"
    );
    assert_eq!(
        match_state_str("room", Some(AccessoryType::Humidity), v, "40"),
        "accessoryId=room-humidity&value=40"
    );
    assert_eq!(
        match_state_str("room", Some(AccessoryType::GasResistance), v, "9"),
        "accessoryId=room-gasresistance&value=9"
    );
    assert_eq!(
        match_state_str("room", Some(AccessoryType::Switch), v, "0.0"),
        "accessoryId=room-switch&state=true"
    );
    assert_eq!(
        match_state_str("room", Some(AccessoryType::Switch), v, "1"),
        "accessoryId=room-switch&state=false"
    );
    assert_eq!(
        match_state_str("room", Some(AccessoryType::Wind), v, "3"),
        "accessoryId=room&value=3"
    );
    assert_eq!(match_state_str("room", None, v, "3"), "accessoryId=room&value=3");
    assert_eq!(match_state_str("room", None, Value::Inc, "3"), "");
    assert_eq!(match_state_str("room", None, Value::Dec, "3"), "");
}

#[test]
fn forwarder_fills_the_endpoint_template() {
    let mut forwarder = WebHookCollector::new("http://bridge:51828/?{}".to_string());
    forwarder.register(SetupMetrics::Counter(5, "room".to_string(), labels("kind", "unit")));
    let mut r = reading(5, Value::Simple(21.5f32.to_bits()), "temperature", "celsius");
    r.accessory_type = Some(AccessoryType::Temperature);
    assert_eq!(
        forwarder.reading(&r, "21.5"),
        Some("http://bridge:51828/?accessoryId=room-temperature&value=21.5".to_string())
    );
    forwarder.register(SetupMetrics::Gauge(5, "hall".to_string(), labels("kind", "unit")));
    assert_eq!(
        forwarder.reading(&r, "21.5"),
        Some("http://bridge:51828/?accessoryId=hall-temperature&value=21.5".to_string())
    );
}

#[test]
fn singles_of_whole_numbers() {
    for n in 0..=255u8 {
        assert_eq!(single_of_u8(n), (n as f32).to_bits());
    }
    assert_eq!(single_of_u8(1), 0x3f80_0000);
    assert_eq!(single_of_bool(true), 1.0f32.to_bits());
    assert_eq!(single_of_bool(false), 0.0f32.to_bits());
}

#[test]
fn decimal_and_flag_texts() {
    assert_eq!(decimal_text(0), "0");
    assert_eq!(decimal_text(9), "9");
    assert_eq!(decimal_text(10), "10");
    assert_eq!(decimal_text(255), "255");
    assert_eq!(decimal_text(1000), "1000");
    assert_eq!(decimal_text(65535), "65535");
    assert_eq!(flag_text(true), "true");
    assert_eq!(flag_text(false), "false");
}

#[test]
fn flags_as_numbers() {
    assert_eq!(int_from_bool(&true), 1);
    assert_eq!(int_from_bool(&false), 0);
    assert_eq!(bool_from_int(0), Ok(false));
    assert_eq!(bool_from_int(1), Ok(true));
    assert_eq!(bool_from_int(2), Err(2));
    assert_eq!(bool_from_int(255), Err(255));
}

#[test]
fn thermostat_states() {
    assert_eq!(find_current_state(false, false), ThermostatState::Off);
    assert_eq!(find_current_state(false, true), ThermostatState::Off);
    assert_eq!(find_current_state(true, true), ThermostatState::Heating);
    assert_eq!(find_current_state(true, false), ThermostatState::Cooling);
    assert_eq!(ThermostatState::Off.code(), 0);
    assert_eq!(ThermostatState::Heating.code(), 1);
    assert_eq!(ThermostatState::Cooling.code(), 2);
    assert_eq!(ThermostatState::Auto.code(), 3);
    assert_eq!(ThermostatState::from_code(3), Some(ThermostatState::Auto));
    assert_eq!(ThermostatState::from_code(1), Some(ThermostatState::Heating));
    assert_eq!(ThermostatState::from_code(4), None);
}

#[test]
fn full_state_push_has_six_reports() {
    let rqs = webhook_state_requests("dev", false, 3, false, 20, 22, true);
    assert_eq!(rqs.len(), 6);
    let ids: Vec<&str> = rqs.iter().map(|r| r.accessory_id.as_str()).collect();
    assert_eq!(ids, vec!["t-dev", "t-dev", "t-dev", "dev", "dev", "dev"]);
}

#[test]
fn zero_switches_off() {
    assert_eq!(Switch::from_number(0), Switch::Off);
    assert_eq!(Switch::from_number(1), Switch::On);
    assert_eq!(Switch::from_number(-1), Switch::On);
    assert_eq!(Switch::from_number(i32::MAX), Switch::On);
}

#[test]
fn sensors_register_a_gauge_by_kind_and_unit() {
    match SetupMetrics::kind_unit_gauge(7, "netatmo".to_string()) {
        SetupMetrics::Gauge(id, name, label_names) => {
            assert_eq!(id, 7);
            assert_eq!(name, "netatmo");
            assert_eq!(label_names, labels("kind", "unit"));
        }
        _ => panic!("a gauge is due"),
    }
}

#[test]
fn gpio_switch_registers_reads_and_sets() {
    let s = GpioSwitch::new(17, "lamp".to_string(), 3);
    assert!(!s.switch_state());
    assert_eq!(s.device_pin(), 17);
    assert_eq!(GpioSwitch::new(256 + 4, "x".to_string(), 3).device_pin(), 4);
    assert_eq!(GpioSwitch::new(u32::MAX, "x".to_string(), 3).device_pin(), 255);
    match s.started() {
        SetupMetrics::Gauge(id, name, label_names) => {
            assert_eq!(id, 3);
            assert_eq!(name, "switch:lamp");
            assert_eq!(label_names, vec!["name".to_string()]);
        }
        _ => panic!("a gauge is due"),
    }
    let r = s.read_now();
    assert_eq!(r.id, 3);
    assert_eq!(r.reading, Value::Simple(0.0f32.to_bits()));
    assert_eq!(r.labels, vec!["lamp".to_string()]);
    assert_eq!(r.accessory_type, Some(AccessoryType::Switch));
    let mut on = s.clone();
    on.state = true;
    assert_eq!(on.read_now().reading, Value::Simple(1.0f32.to_bits()));
    assert!(s.level_for(Switch::On));
    assert!(!s.level_for(Switch::Off));
    let fresh = GpioSwitch::create(4, "fan".to_string());
    assert_eq!(fresh.pin_no, 4);
    assert_eq!(fresh.name, "fan");
    assert!(!fresh.state);
}
