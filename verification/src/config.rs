//! Configuration of the hub, and how its lists are read.

use std::time::Duration;
use vstd::hash_map::StringHashMap;
use vstd::prelude::*;
use vstd::string::*;
use crate::msg::texts;
use crate::utils::find_char;
use crate::utils::first_index;
use crate::utils::parse_u32;
use crate::utils::split;
use crate::utils::split_on;
use crate::utils::trim;
use crate::utils::trimmed;
use crate::utils::u32_of;

verus! {

/// `url::Url`, a parsed absolute URL. Nothing is said of what it holds: the
/// library hands it on as it came from the parser.
#[verifier::external_type_specification]
#[verifier::external_body]
pub struct ExUrl(url::Url);

/// The settings of the hub.
#[derive(Debug, Clone)]
pub struct Config {
    pub endpoint: String,
    pub metrics_name: String,
    pub gpios: Option<String>,
    pub externals: Option<String>,
    pub bme680: String,
    pub resolution_ms: u64,
    pub api_credentials: Option<String>,
    pub location: Option<String>,
    pub mqtt_connection: Option<String>,
    pub heaterfan_mac: Option<String>,
    pub webhook_url: Option<String>,
}

impl Default for Config {
    fn default() -> (c: Config)
        ensures
            c.endpoint@.len() == 0,
            c.metrics_name@.len() == 0,
            c.bme680@.len() == 0,
            c.resolution_ms == 0,
            c.gpios is None,
            c.externals is None,
            c.api_credentials is None,
            c.location is None,
            c.mqtt_connection is None,
            c.heaterfan_mac is None,
            c.webhook_url is None,
    {
        Config {
            endpoint: String::new(),
            metrics_name: String::new(),
            gpios: None,
            externals: None,
            bme680: String::new(),
            resolution_ms: 0,
            api_credentials: None,
            location: None,
            mqtt_connection: None,
            heaterfan_mac: None,
            webhook_url: None,
        }
    }
}

/// Why a setting cannot be used.
#[derive(Debug, PartialEq, Eq, Clone, Copy, Structural)]
pub enum ConfigError {
    CredentialsNotSet,
    MqttConnectionNotSet,
    WebhookUrlNotSet,
    HeaterfanMacNotSet,
    /// The setting is no absolute URL.
    NotAUrl,
}

/// The duration of a number of milliseconds.
pub uninterp spec fn millis(ms: u64) -> Duration;

/// `Duration::from_millis` makes the duration of that many milliseconds. The
/// contract only names the result.
pub assume_specification[ Duration::from_millis ](ms: u64) -> (d: Duration)
    ensures
        d == millis(ms),
;

/// The URL that a text parses to, `None` where it is no absolute URL.
pub uninterp spec fn url_of(s: Seq<char>) -> Option<url::Url>;

/// Calls `url::Url::parse` and drops the error. The contract only names the
/// result: the URL on success, `None` on any error.
#[verifier::external_body]
fn parse_url(s: &str) -> (r: Option<url::Url>)
    ensures
        r == url_of(s@),
{
    url::Url::parse(s).ok()
}

/// The bytes that a base64 text stands for, `None` where it is not base64.
pub uninterp spec fn base64_bytes(s: Seq<char>) -> Option<Seq<u8>>;

/// Calls `base64::decode`, the standard alphabet with padding, and drops the
/// error. The contract only names the result.
#[verifier::external_body]
fn base64_decode(s: &str) -> (r: Option<Vec<u8>>)
    ensures
        match r {
            Some(b) => base64_bytes(s@) == Some(b@),
            None => base64_bytes(s@) is None,
        },
{
    base64::decode(s).ok()
}

/// The text of bytes read as UTF-8, with the replacement character for what
/// is not UTF-8.
pub uninterp spec fn utf8_lossy(bytes: Seq<u8>) -> Seq<char>;

/// Calls `String::from_utf8_lossy` and copies the text. The contract only
/// names the result.
#[verifier::external_body]
fn from_utf8_lossy(bytes: &Vec<u8>) -> (r: String)
    ensures
        r@ == utf8_lossy(bytes@),
{
    String::from_utf8_lossy(bytes).to_string()
}

/// The trimmed pieces of a list.
pub open spec fn each_trimmed(pieces: Seq<Seq<char>>) -> Seq<Seq<char>> {
    Seq::new(pieces.len(), |i: int| trimmed(pieces[i]))
}

/// The switch that one piece of the list names: what stands before the first
/// colon, and the pin that the rest spells. `None` without a colon or a pin.
pub open spec fn gpio_of(piece: Seq<char>) -> Option<(Seq<char>, u32)> {
    match first_index(piece, ':') {
        Some(i) => match u32_of(piece.subrange(i + 1, piece.len() as int)) {
            Some(pin) => Some((piece.subrange(0, i), pin)),
            None => None,
        },
        None => None,
    }
}

/// The switches of a list of pieces, in order; pieces that name none are
/// left out.
pub open spec fn gpios_of(pieces: Seq<Seq<char>>) -> Seq<(Seq<char>, u32)>
    decreases pieces.len(),
{
    if pieces.len() == 0 {
        Seq::empty()
    } else {
        match gpio_of(pieces.last()) {
            Some(g) => gpios_of(pieces.drop_last()).push(g),
            None => gpios_of(pieces.drop_last()),
        }
    }
}

/// Names and pins of a list.
pub open spec fn named_pins(v: Seq<(String, u32)>) -> Seq<(Seq<char>, u32)> {
    Seq::new(v.len(), |i: int| (v[i].0@, v[i].1))
}

/// The credential that one piece of the list holds: the piece is trimmed,
/// the service stands before its first colon, the trimmed rest is the
/// encoded secret. `None` without a colon.
pub open spec fn entry_of(piece: Seq<char>) -> Option<(Seq<char>, Seq<char>)> {
    let t = trimmed(piece);
    match first_index(t, ':') {
        Some(i) => Some((t.subrange(0, i), trimmed(t.subrange(i + 1, t.len() as int)))),
        None => None,
    }
}

/// The credentials of a list of pieces: service to decoded secret, a later
/// piece replacing an earlier one of the same service. One secret that is
/// not base64 spoils the list.
pub open spec fn credentials_of(pieces: Seq<Seq<char>>) -> Option<Map<Seq<char>, Seq<char>>>
    decreases pieces.len(),
{
    if pieces.len() == 0 {
        Some(Map::empty())
    } else {
        match credentials_of(pieces.drop_last()) {
            None => None,
            Some(m) => match entry_of(pieces.last()) {
                None => Some(m),
                Some((service, encoded)) => match base64_bytes(encoded) {
                    Some(b) => Some(m.insert(service, utf8_lossy(b))),
                    None => None,
                },
            },
        }
    }
}

/// The secrets of a credentials map as texts.
pub open spec fn secrets(m: Map<Seq<char>, String>) -> Map<Seq<char>, Seq<char>> {
    m.map_values(|v: String| v@)
}

/// The MQTT port where the address names none.
pub const DEFAULT_MQTT_PORT: u16 = 1883;

/// Host and port of the broker, from the host and port of its address. An
/// address without host names no broker; without port it is the default one.
pub fn broker_of(host: Option<String>, port: Option<u16>) -> (r: Option<(String, u16)>)
    ensures
        r == match host {
            Some(h) => Some(
                (
                    h,
                    match port {
                        Some(p) => p,
                        None => DEFAULT_MQTT_PORT,
                    },
                ),
            ),
            None => None::<(String, u16)>,
        },
{
    match host {
        Some(h) => Some(
            (
                h,
                match port {
                    Some(p) => p,
                    None => DEFAULT_MQTT_PORT,
                },
            ),
        ),
        None => None,
    }
}

fn url_setting(setting: &Option<String>, unset: ConfigError) -> (r: Result<url::Url, ConfigError>)
    ensures
        match *setting {
            None => r == Err::<url::Url, ConfigError>(unset),
            Some(s) => match url_of(s@) {
                Some(u) => r == Ok::<url::Url, ConfigError>(u),
                None => r == Err::<url::Url, ConfigError>(ConfigError::NotAUrl),
            },
        },
{
    match setting {
        None => Err(unset),
        Some(s) => match parse_url(s.as_str()) {
            Some(u) => Ok(u),
            None => Err(ConfigError::NotAUrl),
        },
    }
}

/// Reads a list of `service:secret` separated by commas, the secrets in
/// base64. `None` where a secret is not base64.
fn collect_credentials(list: &str) -> (r: Option<StringHashMap<String>>)
    ensures
        match credentials_of(split_on(list@, ',')) {
            Some(m) => r is Some && secrets(r->Some_0@) == m,
            None => r is None,
        },
{
    let pieces = split(list, ',');
    let mut h: StringHashMap<String> = StringHashMap::new();
    let mut spoiled = false;
    let mut i: usize = 0;
    assert(texts(pieces@).take(0) =~= Seq::<Seq<char>>::empty());
    assert(secrets(h@) =~= Map::<Seq<char>, Seq<char>>::empty());
    while i < pieces.len()
        invariant
            i <= pieces.len(),
            match credentials_of(texts(pieces@).take(i as int)) {
                Some(m) => !spoiled && secrets(h@) == m,
                None => spoiled,
            },
        decreases pieces.len() - i,
    {
        proof {
            assert(texts(pieces@).take(i as int + 1).drop_last() =~= texts(pieces@).take(
                i as int,
            ));
            assert(texts(pieces@).take(i as int + 1).last() == pieces@[i as int]@);
        }
        if !spoiled {
            let s = trim(pieces[i].as_str());
            match find_char(s.as_str(), ':') {
                Some(n) => {
                    let len = s.as_str().unicode_len();
                    let service = String::from_str(s.as_str().substring_char(0, n));
                    let encoded = trim(s.as_str().substring_char(n + 1, len));
                    match base64_decode(encoded.as_str()) {
                        Some(decoded) => {
                            let secret = from_utf8_lossy(&decoded);
                            let ghost before = secrets(h@);
                            h.insert(service, secret);
                            assert(secrets(h@) =~= before.insert(service@, secret@));
                        },
                        None => {
                            spoiled = true;
                        },
                    }
                },
                None => {},
            }
        }
        i += 1;
    }
    assert(texts(pieces@).take(i as int) =~= texts(pieces@));
    if spoiled {
        None
    } else {
        Some(h)
    }
}

impl Config {
    /// The switches of the setting `gpios`, a list of `name:pin` separated by
    /// commas. Entries without colon or without a pin number are skipped.
    pub fn parsed_gpios(&self) -> (r: Vec<(String, u32)>)
        ensures
            named_pins(r@) == match self.gpios {
                Some(t) => gpios_of(split_on(t@, ',')),
                None => Seq::empty(),
            },
    {
        let mut out: Vec<(String, u32)> = Vec::new();
        match &self.gpios {
            Some(tuples) => {
                let pieces = split(tuples.as_str(), ',');
                let mut i: usize = 0;
                assert(texts(pieces@).take(0) =~= Seq::<Seq<char>>::empty());
                assert(named_pins(out@) =~= Seq::<(Seq<char>, u32)>::empty());
                while i < pieces.len()
                    invariant
                        i <= pieces.len(),
                        named_pins(out@) == gpios_of(texts(pieces@).take(i as int)),
                    decreases pieces.len() - i,
                {
                    let piece = pieces[i].as_str();
                    let ghost before = named_pins(out@);
                    proof {
                        assert(texts(pieces@).take(i as int + 1).drop_last() =~= texts(
                            pieces@,
                        ).take(i as int));
                        assert(texts(pieces@).take(i as int + 1).last() == piece@);
                    }
                    match find_char(piece, ':') {
                        Some(p) => {
                            let n = piece.unicode_len();
                            match parse_u32(piece.substring_char(p + 1, n)) {
                                Some(pin) => {
                                    let name = String::from_str(piece.substring_char(0, p));
                                    out.push((name, pin));
                                    assert(named_pins(out@) =~= before.push(
                                        (piece@.subrange(0, p as int), pin),
                                    ));
                                },
                                None => {},
                            }
                        },
                        None => {},
                    }
                    i += 1;
                }
                assert(texts(pieces@).take(i as int) =~= texts(pieces@));
            },
            None => {
                assert(named_pins(out@) =~= Seq::<(Seq<char>, u32)>::empty());
            },
        }
        out
    }

    /// The paths of the setting `externals`: its pieces between commas, each
    /// trimmed.
    pub fn parsed_externals(&self) -> (r: Vec<String>)
        ensures
            texts(r@) == match self.externals {
                Some(t) => each_trimmed(split_on(t@, ',')),
                None => Seq::empty(),
            },
    {
        let mut out: Vec<String> = Vec::new();
        match &self.externals {
            Some(tuples) => {
                let pieces = split(tuples.as_str(), ',');
                let mut i: usize = 0;
                while i < pieces.len()
                    invariant
                        i <= pieces.len(),
                        out@.len() == i,
                        forall|j: int| 0 <= j < i ==> (#[trigger] out@[j])@ == trimmed(pieces@[j]@),
                    decreases pieces.len() - i,
                {
                    out.push(trim(pieces[i].as_str()));
                    i += 1;
                }
                assert(texts(out@) =~= each_trimmed(texts(pieces@)));
            },
            None => {
                assert(texts(out@) =~= Seq::<Seq<char>>::empty());
            },
        }
        out
    }

    /// Whether every secret of the setting `api_credentials` is base64. A
    /// setting that is not there has no secret.
    pub open spec fn credentials_decodable(&self) -> bool {
        match self.api_credentials {
            Some(t) => credentials_of(split_on(t@, ',')) is Some,
            None => true,
        }
    }

    /// Tells whether every secret of the setting `api_credentials` is
    /// base64.
    pub fn credentials_are_base64(&self) -> (r: bool)
        ensures
            r == self.credentials_decodable(),
    {
        match &self.api_credentials {
            Some(list) => collect_credentials(list.as_str()).is_some(),
            None => true,
        }
    }

    /// The credentials of the setting `api_credentials`, a list of
    /// `service:secret` separated by commas, the secrets in base64. Pieces
    /// without colon are skipped. The only error is a setting that is not
    /// there; a list with a secret that is not base64 is no input of this
    /// function, see `checked_credentials`.
    pub fn parsed_credentials(&self) -> (r: Result<StringHashMap<String>, ConfigError>)
        requires
            self.credentials_decodable(),
        ensures
            match self.api_credentials {
                None => r == Err::<StringHashMap<String>, ConfigError>(
                    ConfigError::CredentialsNotSet,
                ),
                Some(t) => r is Ok && Some(secrets(r->Ok_0@)) == credentials_of(
                    split_on(t@, ','),
                ),
            },
    {
        match &self.api_credentials {
            None => Err(ConfigError::CredentialsNotSet),
            Some(list) => match collect_credentials(list.as_str()) {
                Some(h) => Ok(h),
                None => {
                    proof {
                        assert(false);
                    }
                    Err(ConfigError::CredentialsNotSet)
                },
            },
        }
    }

    /// The credentials of the setting `api_credentials` where every secret
    /// is base64, as `parsed_credentials` gives them; `None` where one is
    /// not.
    pub fn checked_credentials(&self) -> (r: Option<Result<StringHashMap<String>, ConfigError>>)
        ensures
            r is Some <==> self.credentials_decodable(),
            match r {
                Some(c) => match self.api_credentials {
                    None => c == Err::<StringHashMap<String>, ConfigError>(
                        ConfigError::CredentialsNotSet,
                    ),
                    Some(t) => c is Ok && Some(secrets(c->Ok_0@)) == credentials_of(
                        split_on(t@, ','),
                    ),
                },
                None => true,
            },
    {
        if self.credentials_are_base64() {
            Some(self.parsed_credentials())
        } else {
            None
        }
    }

    /// How often the producers read.
    pub fn resolution(&self) -> (d: Duration)
        ensures
            d == millis(self.resolution_ms),
    {
        Duration::from_millis(self.resolution_ms)
    }

    /// The address of the MQTT broker.
    pub fn mqtt_address(&self) -> (r: Result<url::Url, ConfigError>)
        ensures
            match self.mqtt_connection {
                None => r == Err::<url::Url, ConfigError>(ConfigError::MqttConnectionNotSet),
                Some(s) => match url_of(s@) {
                    Some(u) => r == Ok::<url::Url, ConfigError>(u),
                    None => r == Err::<url::Url, ConfigError>(ConfigError::NotAUrl),
                },
            },
    {
        url_setting(&self.mqtt_connection, ConfigError::MqttConnectionNotSet)
    }

    /// The address of the home bridge's webhook.
    pub fn webhook_url(&self) -> (r: Result<url::Url, ConfigError>)
        ensures
            match self.webhook_url {
                None => r == Err::<url::Url, ConfigError>(ConfigError::WebhookUrlNotSet),
                Some(s) => match url_of(s@) {
                    Some(u) => r == Ok::<url::Url, ConfigError>(u),
                    None => r == Err::<url::Url, ConfigError>(ConfigError::NotAUrl),
                },
            },
    {
        url_setting(&self.webhook_url, ConfigError::WebhookUrlNotSet)
    }

    /// The device id of the heater fan.
    pub fn heaterfan_mac(&self) -> (r: Result<String, ConfigError>)
        ensures
            match self.heaterfan_mac {
                Some(s) => r == Ok::<String, ConfigError>(s),
                None => r == Err::<String, ConfigError>(ConfigError::HeaterfanMacNotSet),
            },
    {
        match &self.heaterfan_mac {
            Some(s) => Ok(s.clone()),
            None => Err(ConfigError::HeaterfanMacNotSet),
        }
    }
}

} // verus!
