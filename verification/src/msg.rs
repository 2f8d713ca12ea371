//! The events that travel on the bus.

use vstd::prelude::*;

verus! {

/// What kind of accessory a reading belongs to on the notification side.
#[derive(Debug, PartialEq, Eq, Clone, Copy, Structural)]
pub enum AccessoryType {
    Temperature,
    Pressure,
    Humidity,
    GasResistance,
    Switch,
    Wind,
    Rain,
    Co2,
}

/// The value of a reading: a scalar, held as the bit pattern of an IEEE 754
/// single, or a step up or down.
#[derive(Debug, PartialEq, Eq, Clone, Copy, Structural)]
pub enum Value {
    Simple(u32),
    Inc,
    Dec,
}

/// One reading of a producer.
#[derive(Debug, Clone)]
pub struct SensorReading {
    /// Identity of the producer.
    pub id: u128,
    pub reading: Value,
    /// Label values, in the order of the registration's label names.
    pub labels: Vec<String>,
    pub accessory_type: Option<AccessoryType>,
}

/// The mathematical value of a reading.
pub struct ReadingView {
    pub id: u128,
    pub reading: Value,
    pub labels: Seq<Seq<char>>,
    pub accessory_type: Option<AccessoryType>,
}

impl View for SensorReading {
    type V = ReadingView;

    open spec fn view(&self) -> ReadingView {
        ReadingView {
            id: self.id,
            reading: self.reading,
            labels: texts(self.labels@),
            accessory_type: self.accessory_type,
        }
    }
}

/// Registration of a producer's metric: identity, display name, label names.
#[derive(Debug, Clone)]
pub enum SetupMetrics {
    Gauge(u128, String, Vec<String>),
    Counter(u128, String, Vec<String>),
}

/// The two kinds of metric.
#[derive(Debug, PartialEq, Eq, Clone, Copy, Structural)]
pub enum MetricKind {
    Gauge,
    Counter,
}

/// The mathematical value of a registration.
pub struct SetupView {
    pub kind: MetricKind,
    pub id: u128,
    pub name: Seq<char>,
    pub labels: Seq<Seq<char>>,
}

impl View for SetupMetrics {
    type V = SetupView;

    open spec fn view(&self) -> SetupView {
        match self {
            SetupMetrics::Gauge(id, name, labels) => SetupView {
                kind: MetricKind::Gauge,
                id: *id,
                name: name@,
                labels: texts(labels@),
            },
            SetupMetrics::Counter(id, name, labels) => SetupView {
                kind: MetricKind::Counter,
                id: *id,
                name: name@,
                labels: texts(labels@),
            },
        }
    }
}

impl SetupMetrics {
    /// The registration that the sensors share: a gauge with the label
    /// names `kind` and `unit`.
    pub fn kind_unit_gauge(id: u128, name: String) -> (m: SetupMetrics)
        ensures
            m@ == (SetupView {
                kind: MetricKind::Gauge,
                id,
                name: name@,
                labels: seq!["kind"@, "unit"@],
            }),
    {
        let mut labels: Vec<String> = Vec::new();
        labels.push("kind".to_owned());
        labels.push("unit".to_owned());
        assert(texts(labels@) =~= seq!["kind"@, "unit"@]);
        SetupMetrics::Gauge(id, name, labels)
    }
}

/// Asks a producer to read and publish now.
#[derive(Debug, PartialEq, Eq, Clone, Copy, Structural)]
pub struct ReadNow;

/// Asks a switch for its state.
#[derive(Debug, PartialEq, Eq, Clone, Copy, Structural)]
pub struct SwitchState;

/// Asks the registry for its text snapshot.
#[derive(Debug, PartialEq, Eq, Clone, Copy, Structural)]
pub struct EncodeData;

/// Sets a switch.
#[derive(Debug, PartialEq, Eq, Clone, Copy, Structural)]
pub enum Switch {
    On,
    Off,
}

impl Switch {
    /// The setting that a number asks for: 0 is off, any other number on.
    pub fn from_number(on_off: i32) -> (s: Switch)
        ensures
            s == if on_off == 0 {
                Switch::Off
            } else {
                Switch::On
            },
    {
        if on_off == 0 {
            Switch::Off
        } else {
            Switch::On
        }
    }
}

/// A command for an appliance, as the bytes that arrived.
#[derive(Debug, Clone)]
pub struct DeviceControl {
    pub payload: Vec<u8>,
}

/// The character of one hexadecimal digit, in lower case.
pub open spec fn hex_digit(n: nat) -> char {
    if n == 0 {
        '0'
    } else if n == 1 {
        '1'
    } else if n == 2 {
        '2'
    } else if n == 3 {
        '3'
    } else if n == 4 {
        '4'
    } else if n == 5 {
        '5'
    } else if n == 6 {
        '6'
    } else if n == 7 {
        '7'
    } else if n == 8 {
        '8'
    } else if n == 9 {
        '9'
    } else if n == 10 {
        'a'
    } else if n == 11 {
        'b'
    } else if n == 12 {
        'c'
    } else if n == 13 {
        'd'
    } else if n == 14 {
        'e'
    } else {
        'f'
    }
}

/// A number without its `k` lowest hexadecimal digits.
pub open spec fn without_digits(n: nat, k: nat) -> nat
    decreases k,
{
    if k == 0 {
        n
    } else {
        without_digits(n, (k - 1) as nat) / 16
    }
}

/// The hexadecimal digit of an identity at place `k` of 32, counted from the
/// most significant.
pub open spec fn nibble(id: u128, k: int) -> nat {
    without_digits(id as nat, (31 - k) as nat) % 16
}

/// The digit that stands at place `i` of the hyphenated notation: the
/// hyphens before it do not count.
pub open spec fn digit_place(i: int) -> int {
    if i < 8 {
        i
    } else if i < 13 {
        i - 1
    } else if i < 18 {
        i - 2
    } else if i < 23 {
        i - 3
    } else {
        i - 4
    }
}

/// The hyphenated lower-case notation of an identity: its 32 hexadecimal
/// digits, most significant first, in groups of 8, 4, 4, 4 and 12 with a
/// hyphen between the groups.
pub open spec fn hyphenated(id: u128) -> Seq<char> {
    Seq::new(
        36,
        |i: int|
            if i == 8 || i == 13 || i == 18 || i == 23 {
                '-'
            } else {
                hex_digit(nibble(id, digit_place(i)))
            },
    )
}

/// Calls `uuid::Uuid::new_v4` and hands the identity out as its number
/// (`Uuid::as_u128`). The identity is random: of every outcome only the
/// version and variant bits are claimed, which `new_v4` sets to version 4
/// and variant 1.
#[verifier::external_body]
pub(crate) fn fresh_identity() -> (id: u128)
    ensures
        id & 0xF000_C000_0000_0000_0000 == 0x4000_8000_0000_0000_0000,
{
    uuid::Uuid::new_v4().as_u128()
}

/// Calls `Uuid::as_hyphenated` on the identity (`Uuid::from_u128`) and copies
/// the text, which is the 36 characters that `hyphenated` states.
#[verifier::external_body]
pub(crate) fn hyphenated_text(id: u128) -> (s: String)
    ensures
        s@ == hyphenated(id),
{
    uuid::Uuid::from_u128(id).as_hyphenated().to_string()
}

/// The texts of a list of strings.
pub open spec fn texts(v: Seq<String>) -> Seq<Seq<char>> {
    Seq::new(v.len(), |i: int| v[i]@)
}

} // verus!
