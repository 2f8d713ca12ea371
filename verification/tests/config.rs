use jotunheim::config::broker_of;
use jotunheim::config::Config;
use jotunheim::config::ConfigError;
use jotunheim::config::DEFAULT_MQTT_PORT;
use jotunheim::sensors::api::netatmo::parse;
use jotunheim::sensors::api::netatmo::refresh_delay;
use jotunheim::sensors::api::netatmo::AuthRefreshRequest;
use jotunheim::sensors::api::netatmo::AuthResponse;
use jotunheim::sensors::api::netatmo::CredentialsError;
use jotunheim::sensors::api::netatmo::NetatmoSingleAuth;
use jotunheim::utils::find_char;
use jotunheim::utils::is_white_space;
use jotunheim::utils::parse_u32;
use jotunheim::utils::trim;
use jotunheim::utils::split;
use std::time::Duration;

#[allow(non_snake_case)]
#[test]
fn test_Config_parse_credentials_is_base64() {
    let mut conf = Config::default();
    let (v1, v2) = ("id|user|password|clientid|secret", "abcd");
    conf.api_credentials = Some(format!(
        "netatmo:{},someotherservice:{}",
        base64::encode(v1),
        base64::encode(v2)
    ));
    let got = conf.parsed_credentials().unwrap();
    assert_eq!(got.len(), 2);
    assert_eq!(got.get("netatmo"), Some(&v1.to_string()));
    assert_eq!(got.get("someotherservice"), Some(&v2.to_string()));
}

#[test]
fn test_parse_credentials_separates_well() {
    let credential_str = "id|user|password|clientid|secret";
    let expected = (
        "id".to_string(),
        NetatmoSingleAuth::with_scope_read_station("clientid", "secret", "user", "password"),
    );
    let actual = parse(credential_str).unwrap();
    assert_eq!(actual.0, expected.0);
    assert_eq!(actual.1, expected.1);
}

#[test]
fn credentials_need_five_parts() {
    assert_eq!(parse(""), Err(CredentialsError::NoUser));
    assert_eq!(parse("id"), Err(CredentialsError::NoUser));
    assert_eq!(parse("id|user"), Err(CredentialsError::NoPassword));
    assert_eq!(parse("id|user|pw"), Err(CredentialsError::NoClientId));
    assert_eq!(parse("id|user|pw|client"), Err(CredentialsError::NoSecret));
    let (id, auth) = parse(" id | user |pw| client |secret |more").unwrap();
    assert_eq!(id, "id");
    assert_eq!(auth.username, "user");
    assert_eq!(auth.password, "pw");
    assert_eq!(auth.client_id, "client");
    assert_eq!(auth.client_secret, "secret");
    assert_eq!(auth.grant_type, "password");
    assert_eq!(auth.scope, "read_station");
}

#[test]
fn refresh_request_takes_token_and_application() {
    let previous = AuthResponse {
        access_token: "a".to_string(),
        expires_in: 3600,
        refresh_token: "r".to_string(),
    };
    let client = NetatmoSingleAuth::with_scope_read_station("client", "secret", "u", "p");
    let request = AuthRefreshRequest::create_from(&previous, &client);
    assert_eq!(
        request,
        AuthRefreshRequest {
            grant_type: "refresh_token".to_string(),
            refresh_token: "r".to_string(),
            client_id: "client".to_string(),
            client_secret: "secret".to_string(),
        }
    );
}

#[test]
fn default_config_is_empty() {
    let conf = Config::default();
    assert_eq!(conf.endpoint, "");
    assert_eq!(conf.resolution_ms, 0);
    assert_eq!(conf.gpios, None);
    assert!(conf.parsed_gpios().is_empty());
    assert!(conf.parsed_externals().is_empty());
    assert_eq!(
        conf.parsed_credentials().err(),
        Some(ConfigError::CredentialsNotSet)
    );
    assert_eq!(conf.heaterfan_mac(), Err(ConfigError::HeaterfanMacNotSet));
    assert_eq!(conf.mqtt_address().err(), Some(ConfigError::MqttConnectionNotSet));
    assert_eq!(conf.webhook_url().err(), Some(ConfigError::WebhookUrlNotSet));
}

#[test]
fn gpios_are_name_and_pin() {
    let mut conf = Config::default();
    conf.gpios = Some("lamp:17,fan:4,broken,door:x,:9,late:+3, pad:5,win:5 ".to_string());
    assert_eq!(
        conf.parsed_gpios(),
        vec![
            ("lamp".to_string(), 17),
            ("fan".to_string(), 4),
            ("".to_string(), 9),
            ("late".to_string(), 3),
            (" pad".to_string(), 5),
        ]
    );
    conf.gpios = Some("a:1:2,b:4294967295,c:4294967296".to_string());
    assert_eq!(conf.parsed_gpios(), vec![("b".to_string(), 4294967295)]);
    conf.gpios = Some("".to_string());
    assert!(conf.parsed_gpios().is_empty());
}

#[test]
fn externals_are_trimmed() {
    let mut conf = Config::default();
    conf.externals = Some(" /usr/bin/a , b,,c ".to_string());
    assert_eq!(
        conf.parsed_externals(),
        vec![
            "/usr/bin/a".to_string(),
            "b".to_string(),
            "".to_string(),
            "c".to_string()
        ]
    );
    conf.externals = Some("".to_string());
    assert_eq!(conf.parsed_externals(), vec!["".to_string()]);
}

#[test]
fn credentials_are_decoded_and_later_ones_win() {
    let mut conf = Config::default();
    conf.api_credentials = Some(format!(
        " a: {} ,skipped, b:{},a:{}",
        base64::encode("one"),
        base64::encode([0xffu8, b'x']),
        base64::encode("two")
    ));
    let got = conf.parsed_credentials().unwrap();
    assert_eq!(got.len(), 2);
    assert_eq!(got.get("a"), Some(&"two".to_string()));
    assert_eq!(got.get("b"), Some(&"\u{fffd}x".to_string()));
    assert_eq!(got.get("skipped"), None);
    assert!(conf.credentials_are_base64());
    let checked = conf.checked_credentials().unwrap().unwrap();
    assert_eq!(checked.len(), 2);
    assert_eq!(checked.get("a"), Some(&"two".to_string()));
    conf.api_credentials = Some("a:!!!".to_string());
    assert!(!conf.credentials_are_base64());
    assert!(conf.checked_credentials().is_none());
    conf.api_credentials = Some(format!("a:{},b:%", base64::encode("one")));
    assert!(!conf.credentials_are_base64());
    assert!(conf.checked_credentials().is_none());
    conf.api_credentials = Some("".to_string());
    assert!(conf.credentials_are_base64());
    assert_eq!(conf.parsed_credentials().unwrap().len(), 0);
    conf.api_credentials = None;
    assert!(conf.credentials_are_base64());
    assert_eq!(
        conf.checked_credentials().unwrap().err(),
        Some(ConfigError::CredentialsNotSet)
    );
}

#[test]
fn resolution_is_in_milliseconds() {
    let mut conf = Config::default();
    conf.resolution_ms = 1500;
    assert_eq!(conf.resolution(), Duration::from_millis(1500));
    assert_eq!(conf.resolution().as_secs(), 1);
}

#[test]
fn addresses_are_urls() {
    let mut conf = Config::default();
    conf.mqtt_connection = Some("mqtt://broker.local:1884".to_string());
    let address = conf.mqtt_address().unwrap();
    assert_eq!(address.host_str(), Some("broker.local"));
    assert_eq!(address.port(), Some(1884));
    assert_eq!(
        broker_of(address.host_str().map(|h| h.to_string()), address.port()),
        Some(("broker.local".to_string(), 1884))
    );
    conf.mqtt_connection = Some("not a url".to_string());
    assert_eq!(conf.mqtt_address().err(), Some(ConfigError::NotAUrl));
    conf.webhook_url = Some("http://bridge:51828/".to_string());
    assert_eq!(conf.webhook_url().unwrap().as_str(), "http://bridge:51828/");
    conf.webhook_url = Some("bridge".to_string());
    assert_eq!(conf.webhook_url().err(), Some(ConfigError::NotAUrl));
    assert_eq!(
        broker_of(Some("h".to_string()), None),
        Some(("h".to_string(), DEFAULT_MQTT_PORT))
    );
    assert_eq!(DEFAULT_MQTT_PORT, 1883);
    assert_eq!(broker_of(None, Some(1)), None);
}

#[test]
fn heaterfan_mac_is_handed_out() {
    let mut conf = Config::default();
    conf.heaterfan_mac = Some("aabbcc".to_string());
    assert_eq!(conf.heaterfan_mac(), Ok("aabbcc".to_string()));
}

#[test]
fn split_and_find() {
    assert_eq!(split("a,b", ','), vec!["a".to_string(), "b".to_string()]);
    assert_eq!(split("", ','), vec!["".to_string()]);
    assert_eq!(
        split(",a,", ','),
        vec!["".to_string(), "a".to_string(), "".to_string()]
    );
    assert_eq!(split("\u{e4}|\u{f6}", '|'), vec!["\u{e4}".to_string(), "\u{f6}".to_string()]);
    assert_eq!(find_char("a:b:c", ':'), Some(1));
    assert_eq!(find_char("\u{e4}:b", ':'), Some(1));
    assert_eq!(find_char("abc", ':'), None);
}

#[test]
fn tokens_are_renewed_a_minute_early() {
    assert_eq!(refresh_delay(60), 0);
    assert_eq!(refresh_delay(3600), 3540);
    assert_eq!(refresh_delay(10800), 10740);
}

#[test]
fn white_space_is_unicode_white_space() {
    for n in 0..=0x10ffffu32 {
        if let Some(c) = char::from_u32(n) {
            assert_eq!(is_white_space(c), c.is_whitespace(), "U+{:04X}", n);
        }
    }
}

#[test]
fn trim_removes_white_space_at_both_ends() {
    let texts = [
        "",
        " ",
        " \t\n ",
        "a",
        " a",
        "a ",
        "  a b  ",
        "\u{a0}x\u{3000}",
        "\u{2003}\u{e4} \u{f6}\u{2009}",
        "x\u{200b}",
        "\r\nline\r\n",
    ];
    for t in texts.iter() {
        assert_eq!(trim(t), t.trim(), "{:?}", t);
    }
    assert_eq!(trim("  a b  "), "a b");
    assert_eq!(trim(" \t "), "");
}

#[test]
fn numbers_are_read_in_decimal() {
    let texts = [
        "",
        "+",
        "0",
        "007",
        "+3",
        "-3",
        "++3",
        "3+",
        "17",
        "4294967295",
        "4294967296",
        "+4294967295",
        "00000000004294967295",
        "42949672950",
        "99999999999999999999999999",
        "1a",
        " 1",
        "1 ",
        "\u{661}",
        "1_000",
        "0x10",
    ];
    for t in texts.iter() {
        assert_eq!(parse_u32(t), t.parse::<u32>().ok(), "{:?}", t);
    }
    assert_eq!(parse_u32("17"), Some(17));
    assert_eq!(parse_u32("+3"), Some(3));
    assert_eq!(parse_u32("4294967296"), None);
}
