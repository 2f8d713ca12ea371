//! Properties of the heater fan, their canonical keys and the state map.

use vstd::prelude::*;
use vstd::string::*;
use super::requests::HeaterFanStateUpdateRequest;
use crate::utils::same;

verus! {

/// Fan mode as the appliance reports it.
#[derive(Debug, PartialEq, Eq, Clone, Copy, Structural)]
pub enum HeaterFanMode {
    Normal,
    Natural,
    Sleep,
}

/// Whether the heating element is running.
#[derive(Debug, PartialEq, Eq, Clone, Copy, Structural)]
pub enum HeatStatus {
    Idle,
    Active,
}

/// One decoded property value.
#[derive(Debug, PartialEq, Eq, Clone, Copy, Structural)]
pub enum HeaterFanState {
    PowerOn(bool),
    Mode(HeaterFanMode),
    TargetTemperature(u8),
    CurrentTemperature(u8),
    /// 1 to 10.
    FanSpeed(u8),
    Oscillate(bool),
    Timer(u16),
    Silent(bool),
    Heater(bool),
    VentHeat(bool),
    HeatStatus(HeatStatus),
    /// Bitmap.
    Error(u8),
}

/// Device-level topics next to the property state.
#[derive(Debug, PartialEq, Eq, Clone, Copy, Structural)]
pub enum HeaterFan {
    Properties,
    Update,
    WifiLed,
    Online,
    Version,
    Token,
    Name,
    _Type,
    Model,
}

/// The canonical key of `function` on the device `device_id`.
pub open spec fn topic_of(device_id: Seq<char>, function: Seq<char>) -> Seq<char> {
    "appliance/heaterfan/"@ + device_id + "/state/"@ + function
}

/// Builds the canonical key of one property of one device.
pub fn to_topic(device_id: &str, function: &str) -> (topic: String)
    ensures
        topic@ == topic_of(device_id@, function@),
{
    let mut topic = String::from_str("appliance/heaterfan/");
    topic.append(device_id);
    topic.append("/state/");
    topic.append(function);
    topic
}

/// The properties of the appliance: the closed table behind topic suffixes.
#[derive(Debug, PartialEq, Eq, Clone, Copy, Structural)]
pub enum Property {
    PowerOn,
    Mode,
    TargetTemperature,
    CurrentTemperature,
    FanSpeed,
    Oscillate,
    Timer,
    Silent,
    Heater,
    VentHeat,
    HeatStatus,
    Error,
}

impl Property {
    /// The last segment of the property's topic.
    pub open spec fn suffix_spec(self) -> Seq<char> {
        match self {
            Property::PowerOn => "power_on"@,
            Property::Mode => "mode"@,
            Property::TargetTemperature => "target_temperature"@,
            Property::CurrentTemperature => "current_temperature"@,
            Property::FanSpeed => "fan_speed"@,
            Property::Oscillate => "oscillate"@,
            Property::Timer => "timer"@,
            Property::Silent => "silent"@,
            Property::Heater => "heater"@,
            Property::VentHeat => "vent_heat"@,
            Property::HeatStatus => "heat_status"@,
            Property::Error => "error"@,
        }
    }

    /// The property that a topic suffix names, if any.
    pub open spec fn from_suffix_spec(s: Seq<char>) -> Option<Property> {
        if s == "power_on"@ {
            Some(Property::PowerOn)
        } else if s == "mode"@ {
            Some(Property::Mode)
        } else if s == "target_temperature"@ {
            Some(Property::TargetTemperature)
        } else if s == "current_temperature"@ {
            Some(Property::CurrentTemperature)
        } else if s == "fan_speed"@ {
            Some(Property::FanSpeed)
        } else if s == "oscillate"@ {
            Some(Property::Oscillate)
        } else if s == "timer"@ {
            Some(Property::Timer)
        } else if s == "silent"@ {
            Some(Property::Silent)
        } else if s == "heater"@ {
            Some(Property::Heater)
        } else if s == "vent_heat"@ {
            Some(Property::VentHeat)
        } else if s == "heat_status"@ {
            Some(Property::HeatStatus)
        } else if s == "error"@ {
            Some(Property::Error)
        } else {
            None
        }
    }

    /// The place of the property in the table.
    pub open spec fn index_spec(self) -> int {
        match self {
            Property::PowerOn => 0,
            Property::Mode => 1,
            Property::TargetTemperature => 2,
            Property::CurrentTemperature => 3,
            Property::FanSpeed => 4,
            Property::Oscillate => 5,
            Property::Timer => 6,
            Property::Silent => 7,
            Property::Heater => 8,
            Property::VentHeat => 9,
            Property::HeatStatus => 10,
            Property::Error => 11,
        }
    }

    pub fn index(self) -> (i: usize)
        ensures
            i == self.index_spec(),
            i < 12,
    {
        match self {
            Property::PowerOn => 0,
            Property::Mode => 1,
            Property::TargetTemperature => 2,
            Property::CurrentTemperature => 3,
            Property::FanSpeed => 4,
            Property::Oscillate => 5,
            Property::Timer => 6,
            Property::Silent => 7,
            Property::Heater => 8,
            Property::VentHeat => 9,
            Property::HeatStatus => 10,
            Property::Error => 11,
        }
    }

    pub fn suffix(self) -> (s: &'static str)
        ensures
            s@ == self.suffix_spec(),
    {
        match self {
            Property::PowerOn => "power_on",
            Property::Mode => "mode",
            Property::TargetTemperature => "target_temperature",
            Property::CurrentTemperature => "current_temperature",
            Property::FanSpeed => "fan_speed",
            Property::Oscillate => "oscillate",
            Property::Timer => "timer",
            Property::Silent => "silent",
            Property::Heater => "heater",
            Property::VentHeat => "vent_heat",
            Property::HeatStatus => "heat_status",
            Property::Error => "error",
        }
    }

    pub fn from_suffix(s: &str) -> (p: Option<Property>)
        ensures
            p == Self::from_suffix_spec(s@),
    {
        if same(s, "power_on") {
            Some(Property::PowerOn)
        } else if same(s, "mode") {
            Some(Property::Mode)
        } else if same(s, "target_temperature") {
            Some(Property::TargetTemperature)
        } else if same(s, "current_temperature") {
            Some(Property::CurrentTemperature)
        } else if same(s, "fan_speed") {
            Some(Property::FanSpeed)
        } else if same(s, "oscillate") {
            Some(Property::Oscillate)
        } else if same(s, "timer") {
            Some(Property::Timer)
        } else if same(s, "silent") {
            Some(Property::Silent)
        } else if same(s, "heater") {
            Some(Property::Heater)
        } else if same(s, "vent_heat") {
            Some(Property::VentHeat)
        } else if same(s, "heat_status") {
            Some(Property::HeatStatus)
        } else if same(s, "error") {
            Some(Property::Error)
        } else {
            None
        }
    }
}

/// Every property is found again from its own suffix, so no two properties
/// share a suffix.
pub proof fn lemma_suffix_round_trip(p: Property)
    ensures
        Property::from_suffix_spec(p.suffix_spec()) == Some(p),
{
    reveal_strlit("power_on");
    reveal_strlit("mode");
    reveal_strlit("target_temperature");
    reveal_strlit("current_temperature");
    reveal_strlit("fan_speed");
    reveal_strlit("oscillate");
    reveal_strlit("timer");
    reveal_strlit("silent");
    reveal_strlit("heater");
    reveal_strlit("vent_heat");
    reveal_strlit("heat_status");
    reveal_strlit("error");
    assert("power_on"@.len() == 8);
    assert("mode"@.len() == 4);
    assert("target_temperature"@.len() == 18);
    assert("current_temperature"@.len() == 19);
    assert("fan_speed"@.len() == 9);
    assert("oscillate"@.len() == 9);
    assert("timer"@.len() == 5);
    assert("silent"@.len() == 6);
    assert("heater"@.len() == 6);
    assert("vent_heat"@.len() == 9);
    assert("heat_status"@.len() == 11);
    assert("error"@.len() == 5);
    assert("fan_speed"@[0] != "oscillate"@[0]);
    assert("fan_speed"@[0] != "vent_heat"@[0]);
    assert("oscillate"@[0] != "vent_heat"@[0]);
    assert("timer"@[0] != "error"@[0]);
    assert("silent"@[0] != "heater"@[0]);
}

impl HeaterFanState {
    /// The property that this value belongs to.
    pub open spec fn property_spec(self) -> Property {
        match self {
            HeaterFanState::PowerOn(_) => Property::PowerOn,
            HeaterFanState::Mode(_) => Property::Mode,
            HeaterFanState::TargetTemperature(_) => Property::TargetTemperature,
            HeaterFanState::CurrentTemperature(_) => Property::CurrentTemperature,
            HeaterFanState::FanSpeed(_) => Property::FanSpeed,
            HeaterFanState::Oscillate(_) => Property::Oscillate,
            HeaterFanState::Timer(_) => Property::Timer,
            HeaterFanState::Silent(_) => Property::Silent,
            HeaterFanState::Heater(_) => Property::Heater,
            HeaterFanState::VentHeat(_) => Property::VentHeat,
            HeaterFanState::HeatStatus(_) => Property::HeatStatus,
            HeaterFanState::Error(_) => Property::Error,
        }
    }

    pub fn property(&self) -> (p: Property)
        ensures
            p == self.property_spec(),
    {
        match self {
            HeaterFanState::PowerOn(_) => Property::PowerOn,
            HeaterFanState::Mode(_) => Property::Mode,
            HeaterFanState::TargetTemperature(_) => Property::TargetTemperature,
            HeaterFanState::CurrentTemperature(_) => Property::CurrentTemperature,
            HeaterFanState::FanSpeed(_) => Property::FanSpeed,
            HeaterFanState::Oscillate(_) => Property::Oscillate,
            HeaterFanState::Timer(_) => Property::Timer,
            HeaterFanState::Silent(_) => Property::Silent,
            HeaterFanState::Heater(_) => Property::Heater,
            HeaterFanState::VentHeat(_) => Property::VentHeat,
            HeaterFanState::HeatStatus(_) => Property::HeatStatus,
            HeaterFanState::Error(_) => Property::Error,
        }
    }
}

/// The entries of a state map: canonical key and value, in the order in which
/// the keys first arrived.
pub type Entries = Seq<(Seq<char>, HeaterFanState)>;

/// No canonical key occurs twice.
pub open spec fn keys_distinct(s: Entries) -> bool {
    forall|i: int, j: int| 0 <= i < j < s.len() ==> (#[trigger] s[i]).0 != (#[trigger] s[j]).0
}

/// Whether `k` is the key of the entry at `i`.
pub open spec fn key_at(s: Entries, k: Seq<char>, i: int) -> bool {
    0 <= i < s.len() && s[i].0 == k
}

/// Whether some entry has the key `k`.
pub open spec fn has_key(s: Entries, k: Seq<char>) -> bool {
    exists|i: int| key_at(s, k, i)
}

/// The value stored under `k`.
pub open spec fn lookup(s: Entries, k: Seq<char>) -> Option<HeaterFanState> {
    if has_key(s, k) {
        Some(s[choose|i: int| key_at(s, k, i)].1)
    } else {
        None
    }
}

/// The entries after `v` was stored under `k`: the entry for `k` is replaced
/// where it stands, a new key goes to the end.
pub open spec fn upsert(s: Entries, k: Seq<char>, v: HeaterFanState) -> Entries {
    if has_key(s, k) {
        s.update(choose|i: int| key_at(s, k, i), (k, v))
    } else {
        s.push((k, v))
    }
}

/// Whether the entry at `i` is the first one that holds a value of property `p`.
pub open spec fn first_of_kind(s: Entries, p: Property, i: int) -> bool {
    &&& 0 <= i < s.len()
    &&& s[i].1.property_spec() == p
    &&& forall|j: int| 0 <= j < i ==> (#[trigger] s[j]).1.property_spec() != p
}

/// The canonical key under which a value of property `p` is stored: that of
/// the first such entry.
pub open spec fn path_of(s: Entries, p: Property) -> Option<Seq<char>> {
    if exists|i: int| first_of_kind(s, p, i) {
        Some(s[choose|i: int| first_of_kind(s, p, i)].0)
    } else {
        None
    }
}

/// Where keys are distinct, the entry that holds `k` is the only one, and
/// `lookup` reads it.
pub proof fn lemma_key_index(s: Entries, k: Seq<char>, i: int)
    requires
        keys_distinct(s),
        key_at(s, k, i),
    ensures
        has_key(s, k),
        (choose|j: int| key_at(s, k, j)) == i,
        lookup(s, k) == Some(s[i].1),
{
    let j = choose|j: int| key_at(s, k, j);
    assert(key_at(s, k, j));
    if j < i {
        assert(s[j].0 != s[i].0);
    } else if i < j {
        assert(s[i].0 != s[j].0);
    }
}

/// Storing a value keeps the keys distinct, and the stored value is the one
/// read back.
pub proof fn lemma_upsert_wf(s: Entries, k: Seq<char>, v: HeaterFanState)
    requires
        keys_distinct(s),
    ensures
        keys_distinct(upsert(s, k, v)),
        lookup(upsert(s, k, v), k) == Some(v),
{
    let t = upsert(s, k, v);
    if has_key(s, k) {
        let i = choose|i: int| key_at(s, k, i);
        assert(key_at(s, k, i));
        assert forall|a: int, b: int| 0 <= a < b < t.len() implies (#[trigger] t[a]).0 != (
        #[trigger] t[b]).0 by {
            assert(s[a].0 != s[b].0);
        }
        assert(key_at(t, k, i));
        lemma_key_index(t, k, i);
    } else {
        assert forall|a: int, b: int| 0 <= a < b < t.len() implies (#[trigger] t[a]).0 != (
        #[trigger] t[b]).0 by {
            if b == s.len() {
                assert(!key_at(s, k, a));
            } else {
                assert(s[a].0 != s[b].0);
            }
        }
        assert(key_at(t, k, s.len() as int));
        lemma_key_index(t, k, s.len() as int);
    }
}

/// Storing a value under one key changes no other key: what is read under
/// any other key is what was read before. A key that was present keeps the
/// number of entries, a new key adds one.
pub proof fn lemma_upsert_is_local(s: Entries, k: Seq<char>, v: HeaterFanState, other: Seq<char>)
    requires
        keys_distinct(s),
        other != k,
    ensures
        lookup(upsert(s, k, v), other) == lookup(s, other),
        upsert(s, k, v).len() == if has_key(s, k) {
            s.len()
        } else {
            s.len() + 1
        },
{
    let t = upsert(s, k, v);
    lemma_upsert_wf(s, k, v);
    if has_key(s, other) {
        let i = choose|i: int| key_at(s, other, i);
        assert(key_at(s, other, i));
        lemma_key_index(s, other, i);
        if has_key(s, k) {
            let j = choose|j: int| key_at(s, k, j);
            assert(key_at(s, k, j));
            assert(i != j);
        }
        assert(key_at(t, other, i));
        lemma_key_index(t, other, i);
    } else {
        assert forall|i: int| !key_at(t, other, i) by {
            if 0 <= i < t.len() {
                if has_key(s, k) {
                    let j = choose|j: int| key_at(s, k, j);
                    assert(key_at(s, k, j));
                    if i != j {
                        assert(!key_at(s, other, i));
                    }
                } else {
                    if i < s.len() {
                        assert(!key_at(s, other, i));
                    }
                }
            }
        }
    }
}

/// The value of the last entry that holds property `p`.
pub open spec fn last_of_kind(s: Entries, p: Property) -> Option<HeaterFanState>
    decreases s.len(),
{
    if s.len() == 0 {
        None
    } else if s.last().1.property_spec() == p {
        Some(s.last().1)
    } else {
        last_of_kind(s.drop_last(), p)
    }
}

/// Live state of one appliance: at most one value per canonical key. The
/// entries are kept in the order in which their keys first arrived, so that
/// the key of a property is found by walking them and the first one found is
/// always the same.
#[derive(Debug, Clone)]
pub struct StateMap {
    entries: Vec<(String, HeaterFanState)>,
}

impl View for StateMap {
    type V = Entries;

    closed spec fn view(&self) -> Entries {
        Seq::new(self.entries@.len(), |i: int| (self.entries@[i].0@, self.entries@[i].1))
    }
}

impl StateMap {
    /// The invariant of the store: one entry per canonical key.
    pub open spec fn wf(&self) -> bool {
        keys_distinct(self@)
    }

    /// An empty state map.
    pub fn new() -> (m: StateMap)
        ensures
            m@ == Entries::empty(),
            m.wf(),
    {
        let m = StateMap { entries: Vec::new() };
        assert(m@ =~= Entries::empty());
        m
    }

    /// Number of properties that have a value.
    pub fn len(&self) -> (n: usize)
        ensures
            n == self@.len(),
    {
        self.entries.len()
    }

    fn position(&self, k: &str) -> (r: Option<usize>)
        ensures
            match r {
                Some(i) => key_at(self@, k@, i as int) && forall|j: int|
                    0 <= j < i ==> (#[trigger] self@[j]).0 != k@,
                None => !has_key(self@, k@),
            },
    {
        let mut i: usize = 0;
        while i < self.entries.len()
            invariant
                i <= self.entries.len(),
                forall|j: int| 0 <= j < i ==> (#[trigger] self@[j]).0 != k@,
            decreases self.entries.len() - i,
        {
            if same(self.entries[i].0.as_str(), k) {
                return Some(i);
            }
            i += 1;
        }
        None
    }

    /// Whether `k` has a value.
    pub fn contains_key(&self, k: &str) -> (r: bool)
        ensures
            r == has_key(self@, k@),
    {
        self.position(k).is_some()
    }

    /// The value stored under `k`.
    pub fn get(&self, k: &str) -> (r: Option<&HeaterFanState>)
        requires
            self.wf(),
        ensures
            match r {
                Some(v) => lookup(self@, k@) == Some(*v),
                None => lookup(self@, k@) is None,
            },
    {
        match self.position(k) {
            Some(i) => {
                proof {
                    lemma_key_index(self@, k@, i as int);
                }
                Some(&self.entries[i].1)
            },
            None => None,
        }
    }

    /// Stores `v` under `k` and returns the value that it replaces. A key that
    /// is already present keeps its place; no second entry is made for it.
    pub fn insert(&mut self, k: String, v: HeaterFanState) -> (prior: Option<HeaterFanState>)
        requires
            old(self).wf(),
        ensures
            final(self)@ == upsert(old(self)@, k@, v),
            final(self).wf(),
            prior == lookup(old(self)@, k@),
            lookup(final(self)@, k@) == Some(v),
    {
        match self.position(k.as_str()) {
            Some(i) => {
                let prior = self.entries[i].1;
                let ghost key = k@;
                self.entries.set(i, (k, v));
                proof {
                    lemma_key_index(old(self)@, key, i as int);
                    lemma_upsert_wf(old(self)@, key, v);
                    assert(self@ =~= old(self)@.update(i as int, (key, v)));
                }
                Some(prior)
            },
            None => {
                let ghost key = k@;
                self.entries.push((k, v));
                proof {
                    lemma_upsert_wf(old(self)@, key, v);
                    assert(self@ =~= old(self)@.push((key, v)));
                }
                None
            },
        }
    }

    /// The canonical keys, in the order of the entries.
    pub fn keys(&self) -> (ks: Vec<String>)
        ensures
            ks@.len() == self@.len(),
            forall|i: int| 0 <= i < ks@.len() ==> (#[trigger] ks@[i])@ == self@[i].0,
    {
        let mut ks: Vec<String> = Vec::new();
        let mut i: usize = 0;
        while i < self.entries.len()
            invariant
                i <= self.entries.len(),
                ks@.len() == i,
                forall|j: int| 0 <= j < i ==> (#[trigger] ks@[j])@ == self@[j].0,
            decreases self.entries.len() - i,
        {
            ks.push(self.entries[i].0.clone());
            i += 1;
        }
        ks
    }

    /// A copy of the values, in the order of the entries.
    pub fn values(&self) -> (vs: Vec<HeaterFanState>)
        ensures
            vs@.len() == self@.len(),
            forall|i: int| 0 <= i < vs@.len() ==> #[trigger] vs@[i] == self@[i].1,
    {
        let mut vs: Vec<HeaterFanState> = Vec::new();
        let mut i: usize = 0;
        while i < self.entries.len()
            invariant
                i <= self.entries.len(),
                vs@.len() == i,
                forall|j: int| 0 <= j < i ==> #[trigger] vs@[j] == self@[j].1,
            decreases self.entries.len() - i,
        {
            vs.push(self.entries[i].1);
            i += 1;
        }
        vs
    }
}

/// A decoded JSON payload, as far as the appliance's properties need it:
/// a boolean, a non-negative whole number or a string. Anything else is
/// `Other`.
#[derive(Debug, Clone, PartialEq, Eq)]
pub enum Payload {
    Bool(bool),
    Unsigned(u64),
    Text(String),
    Other,
}

/// The mathematical value of a payload.
pub enum PayloadView {
    Bool(bool),
    Unsigned(u64),
    Text(Seq<char>),
    Other,
}

impl View for Payload {
    type V = PayloadView;

    open spec fn view(&self) -> PayloadView {
        match self {
            Payload::Bool(b) => PayloadView::Bool(*b),
            Payload::Unsigned(n) => PayloadView::Unsigned(*n),
            Payload::Text(t) => PayloadView::Text(t@),
            Payload::Other => PayloadView::Other,
        }
    }
}

/// A JSON value as far as a decoder tells it apart: a boolean, a number with
/// its value where that is a non-negative whole number of 64 bits, a string,
/// and anything else.
#[derive(Debug, Clone, PartialEq, Eq)]
pub enum Json {
    Bool(bool),
    Number(Option<u64>),
    Text(String),
    Other,
}

/// The mathematical value of a JSON value.
pub enum JsonView {
    Bool(bool),
    Number(Option<u64>),
    Text(Seq<char>),
    Other,
}

impl View for Json {
    type V = JsonView;

    open spec fn view(&self) -> JsonView {
        match self {
            Json::Bool(b) => JsonView::Bool(*b),
            Json::Number(n) => JsonView::Number(*n),
            Json::Text(t) => JsonView::Text(t@),
            Json::Other => JsonView::Other,
        }
    }
}

/// The payload that a JSON value is: booleans and strings as they are, a
/// number where it is a non-negative whole number; a negative or fractional
/// number is `Other`, as is every other value.
pub open spec fn payload_from(j: JsonView) -> PayloadView {
    match j {
        JsonView::Bool(b) => PayloadView::Bool(b),
        JsonView::Number(Some(n)) => PayloadView::Unsigned(n),
        JsonView::Number(None) => PayloadView::Other,
        JsonView::Text(t) => PayloadView::Text(t),
        JsonView::Other => PayloadView::Other,
    }
}

impl Payload {
    /// Reads a JSON value as a payload.
    pub fn from_json(j: Json) -> (p: Payload)
        ensures
            p@ == payload_from(j@),
    {
        match j {
            Json::Bool(b) => Payload::Bool(b),
            Json::Number(Some(n)) => Payload::Unsigned(n),
            Json::Number(None) => Payload::Other,
            Json::Text(t) => Payload::Text(t),
            Json::Other => Payload::Other,
        }
    }
}

/// Why an inbound message changed nothing.
#[derive(Debug, PartialEq, Eq, Clone, Copy, Structural)]
pub enum ParseError {
    /// The topic's last segment names no property.
    UnresolvedTopic,
    /// The payload is no value of the property's type.
    MalformedPayload,
}

/// The index of the last `/` of a topic.
pub open spec fn last_slash(k: Seq<char>) -> Option<int>
    decreases k.len(),
{
    if k.len() == 0 {
        None
    } else if k.last() == '/' {
        Some(k.len() - 1)
    } else {
        last_slash(k.drop_last())
    }
}

/// What follows the last `/` of a topic.
pub open spec fn topic_suffix(k: Seq<char>) -> Option<Seq<char>> {
    match last_slash(k) {
        Some(i) => Some(k.subrange(i + 1, k.len() as int)),
        None => None,
    }
}

proof fn lemma_last_slash(k: Seq<char>, i: int)
    requires
        0 <= i <= k.len(),
        forall|j: int| i <= j < k.len() ==> k[j] != '/',
        i > 0 ==> k[i - 1] == '/',
    ensures
        last_slash(k) == if i > 0 {
            Some(i - 1)
        } else {
            None::<int>
        },
    decreases k.len(),
{
    if k.len() > 0 && i < k.len() {
        lemma_last_slash(k.drop_last(), i);
    }
}

/// The mode that a payload string names.
pub open spec fn mode_named(t: Seq<char>) -> Option<HeaterFanMode> {
    if t == "normal"@ {
        Some(HeaterFanMode::Normal)
    } else if t == "natural"@ {
        Some(HeaterFanMode::Natural)
    } else if t == "sleep"@ {
        Some(HeaterFanMode::Sleep)
    } else {
        None
    }
}

/// The heat status that a payload string names.
pub open spec fn heat_status_named(t: Seq<char>) -> Option<HeatStatus> {
    if t == "idle"@ {
        Some(HeatStatus::Idle)
    } else if t == "active"@ {
        Some(HeatStatus::Active)
    } else {
        None
    }
}

/// The typed value of property `p` that the payload `v` decodes to: booleans
/// for the flags, numbers that fit the property's width for the quantities,
/// lower-case names for mode and heat status.
pub open spec fn decoded(p: Property, v: PayloadView) -> Option<HeaterFanState> {
    match (p, v) {
        (Property::PowerOn, PayloadView::Bool(b)) => Some(HeaterFanState::PowerOn(b)),
        (Property::Oscillate, PayloadView::Bool(b)) => Some(HeaterFanState::Oscillate(b)),
        (Property::Silent, PayloadView::Bool(b)) => Some(HeaterFanState::Silent(b)),
        (Property::Heater, PayloadView::Bool(b)) => Some(HeaterFanState::Heater(b)),
        (Property::VentHeat, PayloadView::Bool(b)) => Some(HeaterFanState::VentHeat(b)),
        (Property::TargetTemperature, PayloadView::Unsigned(n)) => if n <= u8::MAX {
            Some(HeaterFanState::TargetTemperature(n as u8))
        } else {
            None
        },
        (Property::CurrentTemperature, PayloadView::Unsigned(n)) => if n <= u8::MAX {
            Some(HeaterFanState::CurrentTemperature(n as u8))
        } else {
            None
        },
        (Property::FanSpeed, PayloadView::Unsigned(n)) => if n <= u8::MAX {
            Some(HeaterFanState::FanSpeed(n as u8))
        } else {
            None
        },
        (Property::Error, PayloadView::Unsigned(n)) => if n <= u8::MAX {
            Some(HeaterFanState::Error(n as u8))
        } else {
            None
        },
        (Property::Timer, PayloadView::Unsigned(n)) => if n <= u16::MAX {
            Some(HeaterFanState::Timer(n as u16))
        } else {
            None
        },
        (Property::Mode, PayloadView::Text(t)) => match mode_named(t) {
            Some(m) => Some(HeaterFanState::Mode(m)),
            None => None,
        },
        (Property::HeatStatus, PayloadView::Text(t)) => match heat_status_named(t) {
            Some(h) => Some(HeaterFanState::HeatStatus(h)),
            None => None,
        },
        _ => None,
    }
}

/// What an inbound message on topic `k` with the decoded payload `v` says:
/// the property is the one that the topic's last segment names, the value is
/// the payload decoded for that property.
pub open spec fn parsed(k: Seq<char>, v: PayloadView) -> Result<HeaterFanState, ParseError> {
    match topic_suffix(k) {
        None => Err(ParseError::UnresolvedTopic),
        Some(s) => match Property::from_suffix_spec(s) {
            None => Err(ParseError::UnresolvedTopic),
            Some(p) => match decoded(p, v) {
                Some(st) => Ok(st),
                None => Err(ParseError::MalformedPayload),
            },
        },
    }
}

fn narrow_u8(n: u64) -> (r: Option<u8>)
    ensures
        r == if n <= u8::MAX {
            Some(n as u8)
        } else {
            None::<u8>
        },
{
    if n <= 255 {
        Some(n as u8)
    } else {
        None
    }
}

impl Property {
    /// Decodes a payload as a value of this property.
    pub fn decode(self, v: &Payload) -> (r: Option<HeaterFanState>)
        ensures
            r == decoded(self, v@),
    {
        match v {
            Payload::Bool(b) => match self {
                Property::PowerOn => Some(HeaterFanState::PowerOn(*b)),
                Property::Oscillate => Some(HeaterFanState::Oscillate(*b)),
                Property::Silent => Some(HeaterFanState::Silent(*b)),
                Property::Heater => Some(HeaterFanState::Heater(*b)),
                Property::VentHeat => Some(HeaterFanState::VentHeat(*b)),
                _ => None,
            },
            Payload::Unsigned(n) => match self {
                Property::TargetTemperature => match narrow_u8(*n) {
                    Some(t) => Some(HeaterFanState::TargetTemperature(t)),
                    None => None,
                },
                Property::CurrentTemperature => match narrow_u8(*n) {
                    Some(t) => Some(HeaterFanState::CurrentTemperature(t)),
                    None => None,
                },
                Property::FanSpeed => match narrow_u8(*n) {
                    Some(t) => Some(HeaterFanState::FanSpeed(t)),
                    None => None,
                },
                Property::Error => match narrow_u8(*n) {
                    Some(t) => Some(HeaterFanState::Error(t)),
                    None => None,
                },
                Property::Timer => if *n <= 65535 {
                    Some(HeaterFanState::Timer(*n as u16))
                } else {
                    None
                },
                _ => None,
            },
            Payload::Text(t) => match self {
                Property::Mode => if same(t.as_str(), "normal") {
                    Some(HeaterFanState::Mode(HeaterFanMode::Normal))
                } else if same(t.as_str(), "natural") {
                    Some(HeaterFanState::Mode(HeaterFanMode::Natural))
                } else if same(t.as_str(), "sleep") {
                    Some(HeaterFanState::Mode(HeaterFanMode::Sleep))
                } else {
                    None
                },
                Property::HeatStatus => if same(t.as_str(), "idle") {
                    Some(HeaterFanState::HeatStatus(HeatStatus::Idle))
                } else if same(t.as_str(), "active") {
                    Some(HeaterFanState::HeatStatus(HeatStatus::Active))
                } else {
                    None
                },
                _ => None,
            },
            Payload::Other => None,
        }
    }
}

/// The last segment of a topic: what follows its last `/`.
pub fn suffix_of(k: &str) -> (r: Option<&str>)
    ensures
        match r {
            Some(s) => topic_suffix(k@) == Some(s@),
            None => topic_suffix(k@) is None,
        },
{
    let n = k.unicode_len();
    let mut i: usize = n;
    while i > 0 && k.get_char(i - 1) != '/'
        invariant
            i <= n,
            n == k@.len(),
            forall|j: int| i <= j < n ==> k@[j] != '/',
        decreases i,
    {
        i -= 1;
    }
    proof {
        lemma_last_slash(k@, i as int);
    }
    if i == 0 {
        None
    } else {
        Some(k.substring_char(i, n))
    }
}

impl HeaterFanState {
    /// Reads one inbound message: the topic's last segment picks the property,
    /// the payload is decoded as that property's type.
    pub fn parse_by_key(k: &str, v: &Payload) -> (r: Result<HeaterFanState, ParseError>)
        ensures
            r == parsed(k@, v@),
    {
        match suffix_of(k) {
            None => Err(ParseError::UnresolvedTopic),
            Some(s) => match Property::from_suffix(s) {
                None => Err(ParseError::UnresolvedTopic),
                Some(p) => match p.decode(v) {
                    Some(st) => Ok(st),
                    None => Err(ParseError::MalformedPayload),
                },
            },
        }
    }
}

/// The resting value of a property: off, idle, zero.
pub open spec fn initial_value(p: Property) -> HeaterFanState {
    match p {
        Property::PowerOn => HeaterFanState::PowerOn(false),
        Property::Mode => HeaterFanState::Mode(HeaterFanMode::Normal),
        Property::TargetTemperature => HeaterFanState::TargetTemperature(0),
        Property::CurrentTemperature => HeaterFanState::CurrentTemperature(0),
        Property::FanSpeed => HeaterFanState::FanSpeed(0),
        Property::Oscillate => HeaterFanState::Oscillate(false),
        Property::Timer => HeaterFanState::Timer(0),
        Property::Silent => HeaterFanState::Silent(false),
        Property::Heater => HeaterFanState::Heater(false),
        Property::VentHeat => HeaterFanState::VentHeat(false),
        Property::HeatStatus => HeaterFanState::HeatStatus(HeatStatus::Idle),
        Property::Error => HeaterFanState::Error(0),
    }
}

/// The properties in the order of the table.
pub open spec fn all_properties() -> Seq<Property> {
    seq![
        Property::PowerOn,
        Property::Mode,
        Property::TargetTemperature,
        Property::CurrentTemperature,
        Property::FanSpeed,
        Property::Oscillate,
        Property::Timer,
        Property::Silent,
        Property::Heater,
        Property::VentHeat,
        Property::HeatStatus,
        Property::Error,
    ]
}

/// The state of a device at rest: every property under its canonical key,
/// with its resting value, in the order of the table.
pub open spec fn initial_entries(device_id: Seq<char>) -> Entries {
    Seq::new(
        12,
        |i: int|
            (
                topic_of(device_id, all_properties()[i].suffix_spec()),
                initial_value(all_properties()[i]),
            ),
    )
}

/// Canonical keys of one device differ where the properties differ.
pub proof fn lemma_topics_distinct(device_id: Seq<char>, p: Property, q: Property)
    requires
        p != q,
    ensures
        topic_of(device_id, p.suffix_spec()) != topic_of(device_id, q.suffix_spec()),
{
    let head = "appliance/heaterfan/"@ + device_id + "/state/"@;
    let a = topic_of(device_id, p.suffix_spec());
    let b = topic_of(device_id, q.suffix_spec());
    lemma_suffix_round_trip(p);
    lemma_suffix_round_trip(q);
    if a == b {
        assert(a.subrange(head.len() as int, a.len() as int) =~= p.suffix_spec());
        assert(b.subrange(head.len() as int, b.len() as int) =~= q.suffix_spec());
    }
}

/// The state of a device at rest: all twelve properties of the device under
/// their canonical keys, each with its resting value. Its keys are the
/// topics that a listener subscribes to.
pub fn operation_state(device_id: &str) -> (m: StateMap)
    ensures
        m@ == initial_entries(device_id@),
        m.wf(),
{
    let mut m = StateMap::new();
    let props = [
        (Property::PowerOn, HeaterFanState::PowerOn(false)),
        (Property::Mode, HeaterFanState::Mode(HeaterFanMode::Normal)),
        (Property::TargetTemperature, HeaterFanState::TargetTemperature(0)),
        (Property::CurrentTemperature, HeaterFanState::CurrentTemperature(0)),
        (Property::FanSpeed, HeaterFanState::FanSpeed(0)),
        (Property::Oscillate, HeaterFanState::Oscillate(false)),
        (Property::Timer, HeaterFanState::Timer(0)),
        (Property::Silent, HeaterFanState::Silent(false)),
        (Property::Heater, HeaterFanState::Heater(false)),
        (Property::VentHeat, HeaterFanState::VentHeat(false)),
        (Property::HeatStatus, HeaterFanState::HeatStatus(HeatStatus::Idle)),
        (Property::Error, HeaterFanState::Error(0)),
    ];
    let mut i: usize = 0;
    while i < 12
        invariant
            i <= 12,
            m.wf(),
            m@ == initial_entries(device_id@).take(i as int),
            forall|j: int|
                0 <= j < 12 ==> (#[trigger] props[j]).0 == all_properties()[j] && props[j].1
                    == initial_value(all_properties()[j]),
        decreases 12 - i,
    {
        let topic = to_topic(device_id, props[i].0.suffix());
        proof {
            let p = all_properties()[i as int];
            assert(props[i as int].0 == p);
            assert forall|j: int| !key_at(m@, topic@, j) by {
                if 0 <= j < i {
                    lemma_topics_distinct(device_id@, all_properties()[j], p);
                }
            }
            assert(initial_entries(device_id@).take(i as int + 1) =~= initial_entries(
                device_id@,
            ).take(i as int).push((topic@, initial_value(p))));
        }
        m.insert(topic, props[i].1);
        i += 1;
    }
    assert(initial_entries(device_id@).take(12) =~= initial_entries(device_id@));
    m
}

impl StateMap {
    /// The value of the last entry that holds property `p`.
    pub fn last(&self, p: Property) -> (r: Option<HeaterFanState>)
        ensures
            r == last_of_kind(self@, p),
    {
        let mut r: Option<HeaterFanState> = None;
        let mut i: usize = 0;
        while i < self.entries.len()
            invariant
                i <= self.entries.len(),
                r == last_of_kind(self@.take(i as int), p),
            decreases self.entries.len() - i,
        {
            proof {
                assert(self@.take(i as int + 1).drop_last() =~= self@.take(i as int));
            }
            if self.entries[i].1.property() == p {
                r = Some(self.entries[i].1);
            }
            i += 1;
        }
        assert(self@.take(i as int) =~= self@);
        r
    }

    /// The canonical key of the first entry that holds a value of property `p`.
    pub fn path(&self, p: Property) -> (r: Option<&str>)
        ensures
            match r {
                Some(k) => path_of(self@, p) == Some(k@),
                None => path_of(self@, p) is None,
            },
    {
        let mut i: usize = 0;
        while i < self.entries.len()
            invariant
                i <= self.entries.len(),
                forall|j: int| 0 <= j < i ==> (#[trigger] self@[j]).1.property_spec() != p,
            decreases self.entries.len() - i,
        {
            if self.entries[i].1.property() == p {
                proof {
                    assert(first_of_kind(self@, p, i as int));
                    let c = choose|c: int| first_of_kind(self@, p, c);
                    assert(first_of_kind(self@, p, c));
                    if c < i {
                        assert(self@[c].1.property_spec() != p);
                    } else if i < c {
                        assert(self@[i as int].1.property_spec() != p);
                    }
                }
                return Some(self.entries[i].0.as_str());
            }
            i += 1;
        }
        proof {
            assert forall|c: int| !first_of_kind(self@, p, c) by {
                if 0 <= c < self@.len() {
                    assert(self@[c].1.property_spec() != p);
                }
            }
        }
        None
    }
}

/// The canonical key that a command writes to: that of the entry which holds
/// the command's property, `None` where the state has none.
pub fn get_path<'a>(map: &'a StateMap, val: &HeaterFanStateUpdateRequest) -> (path: Option<&'a str>)
    ensures
        match path {
            Some(k) => path_of(map@, val.property_spec()) == Some(k@),
            None => path_of(map@, val.property_spec()) is None,
        },
{
    map.path(val.property())
}

/// Nothing has reported yet: one `false` per property.
pub open spec fn nothing_received() -> Seq<bool> {
    Seq::new(12, |i: int| false)
}

/// Whether every property has reported.
pub open spec fn all_received(r: Seq<bool>) -> bool {
    forall|i: int| 0 <= i < r.len() ==> r[i]
}

/// Which properties have reported a value, by their place in the table.
#[derive(Debug, Clone, PartialEq, Eq)]
pub struct Received {
    marks: Vec<bool>,
}

impl View for Received {
    type V = Seq<bool>;

    closed spec fn view(&self) -> Seq<bool> {
        self.marks@
    }
}

impl Received {
    /// The invariant: one mark per property.
    pub open spec fn wf(&self) -> bool {
        self@.len() == 12
    }

    /// No property has reported.
    pub fn new() -> (r: Received)
        ensures
            r@ == nothing_received(),
            r.wf(),
    {
        let mut marks: Vec<bool> = Vec::new();
        let mut i: usize = 0;
        while i < 12
            invariant
                i <= 12,
                marks@.len() == i,
                forall|j: int| 0 <= j < i ==> !marks@[j],
            decreases 12 - i,
        {
            marks.push(false);
            i += 1;
        }
        assert(marks@ =~= nothing_received());
        Received { marks }
    }

    /// Marks that `p` has reported.
    pub fn mark(&mut self, p: Property)
        requires
            old(self).wf(),
        ensures
            final(self)@ == old(self)@.update(p.index_spec(), true),
            final(self).wf(),
    {
        self.marks.set(p.index(), true);
    }

    /// Whether `p` has reported.
    pub fn has(&self, p: Property) -> (r: bool)
        requires
            self.wf(),
        ensures
            r == self@[p.index_spec()],
    {
        self.marks[p.index()]
    }

    /// Whether every property has reported.
    pub fn all(&self) -> (r: bool)
        ensures
            r == all_received(self@),
    {
        let mut i: usize = 0;
        while i < self.marks.len()
            invariant
                i <= self.marks.len(),
                forall|j: int| 0 <= j < i ==> self@[j],
            decreases self.marks.len() - i,
        {
            if !self.marks[i] {
                return false;
            }
            i += 1;
        }
        true
    }
}

} // verus!
