//! The MQTT-controlled heater fan: what the listener does with an inbound
//! message, what a refresh publishes, and which writes a command becomes.

pub mod history;
pub mod requests;
pub mod state;
pub mod util;

use vstd::prelude::*;
use vstd::string::*;
use crate::msg::fresh_identity;
use crate::msg::hyphenated;
use crate::msg::hyphenated_text;
use crate::msg::texts;
use crate::msg::MetricKind;
use crate::msg::ReadingView;
use crate::msg::SensorReading;
use crate::msg::SetupMetrics;
use crate::msg::SetupView;
use crate::msg::Value;
use crate::utils::decimal;
use crate::utils::decimal_text;
use crate::utils::flag;
use crate::utils::flag_text;
use crate::utils::single_bits;
use crate::utils::single_of_bool;
use crate::utils::single_of_u8;
use self::history::recorded;
use self::history::History;
use self::history::Raw;
use self::history::RawMessage;
use self::requests::batch_view;
use self::requests::webhook_batch;
use self::requests::webhook_state_requests;
use self::requests::HeaterFanStateUpdateRequest;
use self::requests::HomeBridgeWebHookRequest;
use self::requests::ThermostatState;
use self::state::get_path;
use self::state::all_properties;
use self::state::last_of_kind;
use self::state::lookup;
use self::state::operation_state;
use self::state::parsed;
use self::state::path_of;
use self::state::to_topic;
use self::state::topic_of;
use self::state::upsert;
use self::state::Entries;
use self::state::payload_from;
use self::state::HeatStatus;
use self::state::HeaterFanMode;
use self::state::HeaterFanState;
use self::state::Json;
use self::state::JsonView;
use self::state::ParseError;
use self::state::Payload;
use self::state::PayloadView;
use self::state::all_received;
use self::state::nothing_received;
use self::state::Property;
use self::state::Received;
use self::state::StateMap;

verus! {

/// How many raw messages a listener keeps.
pub const MAX_HISTORY: usize = 1000;

/// Delivery guarantee of a protocol message.
#[derive(Debug, PartialEq, Eq, Clone, Copy, Structural)]
pub enum Delivery {
    AtMostOnce,
    AtLeastOnce,
    ExactlyOnce,
}

/// One outbound protocol write.
#[derive(Debug, Clone, PartialEq, Eq)]
pub struct Write {
    pub topic: String,
    pub payload: String,
    pub qos: Delivery,
}

/// A write as topic, payload and delivery guarantee.
pub type WriteView = (Seq<char>, Seq<char>, Delivery);

impl View for Write {
    type V = WriteView;

    open spec fn view(&self) -> WriteView {
        (self.topic@, self.payload@, self.qos)
    }
}

/// The writes of a list.
pub open spec fn writes(ws: Seq<Write>) -> Seq<WriteView> {
    Seq::new(ws.len(), |i: int| ws[i]@)
}

/// Why a command was not carried out.
#[derive(Debug, PartialEq, Eq, Clone, Copy, Structural)]
pub enum CommandError {
    /// The connection to the appliance is not established.
    NotConnected,
    /// The state holds no canonical key for the command's property.
    UnknownProperty,
}

/// Where a reader stands with its appliance.
#[derive(Debug, PartialEq, Eq, Clone, Copy, Structural)]
pub enum Connection {
    Disconnected,
    /// Subscribed to every canonical topic.
    Connected,
    /// Connected, and every property has reported a value at least once.
    Synchronized,
}

/// Where a reader stands, from its connection and what has reported.
pub open spec fn connection_of(connected: bool, received: Seq<bool>) -> Connection {
    if !connected {
        Connection::Disconnected
    } else if all_received(received) {
        Connection::Synchronized
    } else {
        Connection::Connected
    }
}

/// What has reported after an inbound message: a value that parsed marks its
/// property, anything else marks nothing.
pub open spec fn received_after(r: Seq<bool>, k: Seq<char>, d: Option<PayloadView>) -> Seq<bool> {
    match ingested(k, d) {
        Ok(v) => r.update(v.property_spec().index_spec(), true),
        Err(_) => r,
    }
}

/// A property that has reported stays marked whatever arrives later, so a
/// reader that is synchronized stays so while it is connected.
pub proof fn lemma_marks_only_grow(r: Seq<bool>, k: Seq<char>, d: Option<PayloadView>)
    requires
        r.len() == 12,
    ensures
        received_after(r, k, d).len() == 12,
        forall|i: int| 0 <= i < 12 && r[i] ==> received_after(r, k, d)[i],
        all_received(r) ==> all_received(received_after(r, k, d)),
        ingested(k, d) is Ok ==> received_after(r, k, d)[(ingested(
            k,
            d,
        )->Ok_0).property_spec().index_spec()],
{
}

/// What a listener asks for when it starts: the topics to subscribe to, the
/// delivery guarantee of the subscriptions.
#[derive(Debug, Clone)]
pub struct Started {
    pub topics: Vec<String>,
    pub qos: Delivery,
}

/// What one refresh sends out: the readings for the bus, and the full-state
/// push for the home bridge.
#[derive(Debug, Clone)]
pub struct Refresh {
    pub readings: Vec<SensorReading>,
    pub push: Vec<HomeBridgeWebHookRequest>,
}

/// The value of a JSON text, `None` where the bytes are no JSON text.
pub uninterp spec fn json_value(bytes: Seq<u8>) -> Option<JsonView>;

/// Calls `serde_json::from_slice` for a `serde_json::Value` and hands the
/// value on by its variant: `Bool` and `String` with their content, `Number`
/// with what `Number::as_u64` gives, every other variant as `Other`; bytes
/// that are no JSON text give `None`. The contract only names that result.
#[verifier::external_body]
fn decode_json(bytes: &[u8]) -> (r: Option<Json>)
    ensures
        match r {
            Some(j) => json_value(bytes@) == Some(j@),
            None => json_value(bytes@) is None,
        },
{
    match serde_json::from_slice::<serde_json::Value>(bytes) {
        Ok(serde_json::Value::Bool(b)) => Some(Json::Bool(b)),
        Ok(serde_json::Value::Number(n)) => Some(Json::Number(n.as_u64())),
        Ok(serde_json::Value::String(s)) => Some(Json::Text(s)),
        Ok(_) => Some(Json::Other),
        Err(_) => None,
    }
}

/// The payload of a JSON text, `None` where the bytes are no JSON text.
pub open spec fn json_payload(bytes: Seq<u8>) -> Option<PayloadView> {
    match json_value(bytes) {
        Some(j) => Some(payload_from(j)),
        None => None,
    }
}

/// What an inbound message says, given what its payload decoded to. Bytes
/// that are no JSON text are a malformed payload of whatever property the
/// topic names.
pub open spec fn ingested(k: Seq<char>, d: Option<PayloadView>) -> Result<
    HeaterFanState,
    ParseError,
> {
    match d {
        Some(v) => parsed(k, v),
        None => parsed(k, PayloadView::Other),
    }
}

/// The state after an inbound message: a value that parsed replaces the entry
/// of its topic, anything else leaves the state as it was.
pub open spec fn state_after(s: Entries, k: Seq<char>, d: Option<PayloadView>) -> Entries {
    match ingested(k, d) {
        Ok(v) => upsert(s, k, v),
        Err(_) => s,
    }
}

/// The JSON text of a mode: its lower-case name in double quotes.
pub open spec fn mode_json(m: HeaterFanMode) -> Seq<char> {
    match m {
        HeaterFanMode::Normal => "\"normal\""@,
        HeaterFanMode::Natural => "\"natural\""@,
        HeaterFanMode::Sleep => "\"sleep\""@,
    }
}

/// The topic that a new value for the canonical key `key` is written to.
pub open spec fn set_topic(key: Seq<char>) -> Seq<char> {
    key + "/set"@
}

/// The payload that a command writes for its property.
pub open spec fn payload_of(req: HeaterFanStateUpdateRequest) -> Seq<char> {
    match req {
        HeaterFanStateUpdateRequest::PowerOn(b) => flag(b),
        HeaterFanStateUpdateRequest::Mode(m) => mode_json(m),
        HeaterFanStateUpdateRequest::TargetTemperature(n) => decimal(n as nat),
        HeaterFanStateUpdateRequest::FanSpeed(n) => decimal(n as nat),
        HeaterFanStateUpdateRequest::Oscillate(b) => flag(b),
        HeaterFanStateUpdateRequest::Timer(n) => decimal(n as nat),
        HeaterFanStateUpdateRequest::Silent(b) => flag(b),
        HeaterFanStateUpdateRequest::Heater(t) => flag(t == ThermostatState::Heating),
        HeaterFanStateUpdateRequest::VentHeat(b) => flag(b),
    }
}

/// Whether the cached power state is not "on": it is off, or the appliance
/// has not reported it yet.
pub open spec fn power_needed(s: Entries, device_id: Seq<char>) -> bool {
    lookup(s, topic_of(device_id, "power_on"@)) != Some(HeaterFanState::PowerOn(true))
}

/// The writes of a command whose property has the canonical key `key`, in
/// the order in which they are sent.
///
/// A thermostat command for `Off` is one write of `false` to the power
/// key's `/set` topic. Any other thermostat command first switches the power on where the cached
/// power state is not on, then writes the heater flag. Every other command is
/// one write of its payload to `<key>/set`.
pub open spec fn sequence(
    s: Entries,
    device_id: Seq<char>,
    req: HeaterFanStateUpdateRequest,
    key: Seq<char>,
) -> Seq<WriteView> {
    match req {
        HeaterFanStateUpdateRequest::Heater(ThermostatState::Off) => seq![
            (set_topic(topic_of(device_id, "power_on"@)), flag(false), Delivery::AtLeastOnce),
        ],
        HeaterFanStateUpdateRequest::Heater(_) => if power_needed(s, device_id) {
            seq![
                (set_topic(topic_of(device_id, "power_on"@)), flag(true), Delivery::AtLeastOnce),
                (set_topic(key), payload_of(req), Delivery::AtLeastOnce),
            ]
        } else {
            seq![(set_topic(key), payload_of(req), Delivery::AtLeastOnce)]
        },
        _ => seq![(set_topic(key), payload_of(req), Delivery::AtLeastOnce)],
    }
}

/// What a command becomes: an error and no write where the connection is
/// down or the state has no key for the command's property, else the
/// sequence of writes.
pub open spec fn planned(
    connected: bool,
    s: Entries,
    device_id: Seq<char>,
    req: HeaterFanStateUpdateRequest,
) -> Result<Seq<WriteView>, CommandError> {
    if !connected {
        Err(CommandError::NotConnected)
    } else {
        match path_of(s, req.property_spec()) {
            None => Err(CommandError::UnknownProperty),
            Some(key) => Ok(sequence(s, device_id, req, key)),
        }
    }
}

/// A thermostat command for `Off` is exactly one write, `false` to the power
/// key's `/set` topic, whatever the state holds; the heater flag is not
/// written.
pub proof fn lemma_off_is_one_power_write(s: Entries, device_id: Seq<char>, key: Seq<char>)
    ensures
        sequence(
            s,
            device_id,
            HeaterFanStateUpdateRequest::Heater(ThermostatState::Off),
            key,
        ) == seq![
            (set_topic(topic_of(device_id, "power_on"@)), flag(false), Delivery::AtLeastOnce),
        ],
{
}

/// A thermostat command other than `Off`, while the cached power state is
/// not on, is two writes: power on first, the heater flag second, which is
/// `true` for `Heating` only.
pub proof fn lemma_power_is_switched_on_first(
    s: Entries,
    device_id: Seq<char>,
    t: ThermostatState,
    key: Seq<char>,
)
    requires
        t != ThermostatState::Off,
        power_needed(s, device_id),
    ensures
        sequence(s, device_id, HeaterFanStateUpdateRequest::Heater(t), key) == seq![
            (set_topic(topic_of(device_id, "power_on"@)), flag(true), Delivery::AtLeastOnce),
            (set_topic(key), flag(t == ThermostatState::Heating), Delivery::AtLeastOnce),
        ],
{
}

/// A command is carried out only where the connection stands and the state
/// has a key for its property; every write of a command is delivered at
/// least once, and no command has more than two writes.
pub proof fn lemma_commands_are_guarded(
    connected: bool,
    s: Entries,
    device_id: Seq<char>,
    req: HeaterFanStateUpdateRequest,
)
    ensures
        planned(connected, s, device_id, req) is Ok <==> connected && path_of(
            s,
            req.property_spec(),
        ) is Some,
        !connected ==> planned(connected, s, device_id, req) == Err::<
            Seq<WriteView>,
            CommandError,
        >(CommandError::NotConnected),
        planned(connected, s, device_id, req) is Ok ==> {
            let ws = planned(connected, s, device_id, req)->Ok_0;
            &&& 1 <= ws.len() <= 2
            &&& forall|i: int| 0 <= i < ws.len() ==> (#[trigger] ws[i]).2 == Delivery::AtLeastOnce
        },
{
}

/// What follows the hand-over of one write to the transport.
#[derive(Debug, PartialEq, Eq, Clone, Copy, Structural)]
pub enum Progress {
    /// The write at this place of the sequence is next.
    Next(usize),
    /// The sequence is through.
    Finished,
    /// The write failed: the rest of the sequence is not sent, and what was
    /// sent stays sent.
    Aborted,
}

/// What follows the write at `index` of a sequence of `len` writes: after a
/// failure nothing, after a success the next write in order, if there is
/// one.
pub open spec fn progress_of(len: usize, index: usize, sent: bool) -> Progress {
    if !sent {
        Progress::Aborted
    } else if index + 1 < len {
        Progress::Next((index + 1) as usize)
    } else {
        Progress::Finished
    }
}

/// Decides what follows the write at `index` of a sequence of `len` writes.
pub fn progress(len: usize, index: usize, sent: bool) -> (p: Progress)
    requires
        index < len,
    ensures
        p == progress_of(len, index, sent),
{
    if !sent {
        Progress::Aborted
    } else if index + 1 < len {
        Progress::Next(index + 1)
    } else {
        Progress::Finished
    }
}

/// The writes that go out where a run starts at `index` and follows
/// `progress_of` after each write; `outcomes` says of each write whether the
/// transport takes it.
pub open spec fn handed_over(plan: Seq<WriteView>, outcomes: Seq<bool>, index: usize) -> Seq<
    WriteView,
>
    decreases plan.len() - index,
{
    if index < plan.len() && plan.len() == outcomes.len() && plan.len() <= usize::MAX {
        match progress_of(plan.len() as usize, index, outcomes[index as int]) {
            Progress::Next(next) => seq![plan[index as int]] + handed_over(plan, outcomes, next),
            _ => seq![plan[index as int]],
        }
    } else {
        Seq::empty()
    }
}

/// The place of the first write from `from` on that fails, and the last
/// place where none fails.
pub open spec fn stops_at(outcomes: Seq<bool>, from: int) -> int
    decreases outcomes.len() - from,
{
    if from + 1 >= outcomes.len() || !outcomes[from] {
        from
    } else {
        stops_at(outcomes, from + 1)
    }
}

/// A run sends the writes in the order of the sequence, each after the one
/// before it was taken, and stops with the first write that fails: nothing
/// goes out after a failure, and what went out stays out.
pub proof fn lemma_writes_go_out_in_order(plan: Seq<WriteView>, outcomes: Seq<bool>, index: usize)
    requires
        plan.len() == outcomes.len(),
        plan.len() <= usize::MAX,
        index < plan.len(),
    ensures
        index <= stops_at(outcomes, index as int) < plan.len(),
        handed_over(plan, outcomes, index) == plan.subrange(
            index as int,
            stops_at(outcomes, index as int) + 1,
        ),
        forall|i: int| index <= i < stops_at(outcomes, index as int) ==> outcomes[i],
        stops_at(outcomes, index as int) + 1 < plan.len() ==> !outcomes[stops_at(
            outcomes,
            index as int,
        )],
    decreases plan.len() - index,
{
    if index + 1 < plan.len() && outcomes[index as int] {
        let next = (index + 1) as usize;
        lemma_writes_go_out_in_order(plan, outcomes, next);
        assert(seq![plan[index as int]] + plan.subrange(
            next as int,
            stops_at(outcomes, next as int) + 1,
        ) =~= plan.subrange(index as int, stops_at(outcomes, index as int) + 1));
    } else {
        assert(seq![plan[index as int]] =~= plan.subrange(index as int, index as int + 1));
    }
}

/// The reading that a refresh derives from one value: power and swing as
/// 1 or 0, current temperature and fan speed as their number, each with its
/// label and unit; nothing for the other properties.
pub open spec fn reading_of(id: u128, v: HeaterFanState) -> Option<ReadingView> {
    match v {
        HeaterFanState::PowerOn(b) => Some(
            ReadingView {
                id,
                reading: Value::Simple(single_bits(if b { 1nat } else { 0nat }) as u32),
                labels: seq!["power_on"@, "onoff"@],
                accessory_type: None,
            },
        ),
        HeaterFanState::CurrentTemperature(n) => Some(
            ReadingView {
                id,
                reading: Value::Simple(single_bits(n as nat) as u32),
                labels: seq!["temperature"@, "celsius"@],
                accessory_type: None,
            },
        ),
        HeaterFanState::FanSpeed(n) => Some(
            ReadingView {
                id,
                reading: Value::Simple(single_bits(n as nat) as u32),
                labels: seq!["fan_speed"@, "steps"@],
                accessory_type: None,
            },
        ),
        HeaterFanState::Oscillate(b) => Some(
            ReadingView {
                id,
                reading: Value::Simple(single_bits(if b { 1nat } else { 0nat }) as u32),
                labels: seq!["oscillate"@, "onoff"@],
                accessory_type: None,
            },
        ),
        _ => None,
    }
}

/// The readings of a state, entry by entry in the entries' order.
pub open spec fn readings_of(s: Entries, id: u128) -> Seq<ReadingView>
    decreases s.len(),
{
    if s.len() == 0 {
        Seq::empty()
    } else {
        match reading_of(id, s.last().1) {
            Some(r) => readings_of(s.drop_last(), id).push(r),
            None => readings_of(s.drop_last(), id),
        }
    }
}

/// The readings of a list.
pub open spec fn reading_views(rs: Seq<SensorReading>) -> Seq<ReadingView> {
    Seq::new(rs.len(), |i: int| rs[i]@)
}

/// Cached power state; off where none is known.
pub open spec fn is_on_of(s: Entries) -> bool {
    match last_of_kind(s, Property::PowerOn) {
        Some(HeaterFanState::PowerOn(b)) => b,
        _ => false,
    }
}

/// Cached fan speed; 1 where none is known.
pub open spec fn fan_speed_of(s: Entries) -> u8 {
    match last_of_kind(s, Property::FanSpeed) {
        Some(HeaterFanState::FanSpeed(n)) => n,
        _ => 1,
    }
}

/// Cached swing state; off where none is known.
pub open spec fn oscillate_of(s: Entries) -> bool {
    match last_of_kind(s, Property::Oscillate) {
        Some(HeaterFanState::Oscillate(b)) => b,
        _ => false,
    }
}

/// Cached current temperature; 1 where none is known.
pub open spec fn current_temperature_of(s: Entries) -> u8 {
    match last_of_kind(s, Property::CurrentTemperature) {
        Some(HeaterFanState::CurrentTemperature(n)) => n,
        _ => 1,
    }
}

/// Cached target temperature; 1 where none is known.
pub open spec fn target_temperature_of(s: Entries) -> u8 {
    match last_of_kind(s, Property::TargetTemperature) {
        Some(HeaterFanState::TargetTemperature(n)) => n,
        _ => 1,
    }
}

/// Whether the appliance heats: its heat status is active, or it vents heat.
pub open spec fn heater_of(s: Entries) -> bool {
    last_of_kind(s, Property::HeatStatus) == Some(HeaterFanState::HeatStatus(HeatStatus::Active))
        || last_of_kind(s, Property::VentHeat) == Some(HeaterFanState::VentHeat(true))
}

/// The full-state push of a state.
pub open spec fn push_of(s: Entries, device_id: Seq<char>) -> Seq<
    (Seq<char>, self::requests::AccessoryState),
> {
    webhook_batch(
        device_id,
        is_on_of(s),
        fan_speed_of(s),
        oscillate_of(s),
        current_temperature_of(s),
        target_temperature_of(s),
        heater_of(s),
    )
}

fn labels_of(a: &str, b: &str) -> (v: Vec<String>)
    ensures
        texts(v@) == seq![a@, b@],
{
    let mut v: Vec<String> = Vec::new();
    v.push(String::from_str(a));
    v.push(String::from_str(b));
    assert(texts(v@) =~= seq![a@, b@]);
    v
}

/// Derives the reading of one value, if its property is one that is
/// published.
pub fn reading_for(id: u128, v: &HeaterFanState) -> (r: Option<SensorReading>)
    ensures
        match r {
            Some(x) => reading_of(id, *v) == Some(x@),
            None => reading_of(id, *v) is None,
        },
{
    match v {
        HeaterFanState::PowerOn(b) => Some(
            SensorReading {
                id,
                reading: Value::Simple(single_of_bool(*b)),
                labels: labels_of("power_on", "onoff"),
                accessory_type: None,
            },
        ),
        HeaterFanState::CurrentTemperature(n) => Some(
            SensorReading {
                id,
                reading: Value::Simple(single_of_u8(*n)),
                labels: labels_of("temperature", "celsius"),
                accessory_type: None,
            },
        ),
        HeaterFanState::FanSpeed(n) => Some(
            SensorReading {
                id,
                reading: Value::Simple(single_of_u8(*n)),
                labels: labels_of("fan_speed", "steps"),
                accessory_type: None,
            },
        ),
        HeaterFanState::Oscillate(b) => Some(
            SensorReading {
                id,
                reading: Value::Simple(single_of_bool(*b)),
                labels: labels_of("oscillate", "onoff"),
                accessory_type: None,
            },
        ),
        _ => None,
    }
}

/// Writes a mode as JSON text.
pub fn mode_text(m: HeaterFanMode) -> (s: String)
    ensures
        s@ == mode_json(m),
{
    match m {
        HeaterFanMode::Normal => String::from_str("\"normal\""),
        HeaterFanMode::Natural => String::from_str("\"natural\""),
        HeaterFanMode::Sleep => String::from_str("\"sleep\""),
    }
}

fn payload_text(req: &HeaterFanStateUpdateRequest) -> (s: String)
    ensures
        s@ == payload_of(*req),
{
    match req {
        HeaterFanStateUpdateRequest::PowerOn(b) => flag_text(*b),
        HeaterFanStateUpdateRequest::Mode(m) => mode_text(*m),
        HeaterFanStateUpdateRequest::TargetTemperature(n) => decimal_text(*n as u16),
        HeaterFanStateUpdateRequest::FanSpeed(n) => decimal_text(*n as u16),
        HeaterFanStateUpdateRequest::Oscillate(b) => flag_text(*b),
        HeaterFanStateUpdateRequest::Timer(n) => decimal_text(*n),
        HeaterFanStateUpdateRequest::Silent(b) => flag_text(*b),
        HeaterFanStateUpdateRequest::Heater(t) => flag_text(*t == ThermostatState::Heating),
        HeaterFanStateUpdateRequest::VentHeat(b) => flag_text(*b),
    }
}

/// The heater fan as the hub sees it: its live state, the history of raw
/// messages, and whether the connection stands.
#[derive(Debug, Clone)]
pub struct MqttHeaterReader {
    pub device_id: String,
    pub collector_id: u128,
    pub name: String,
    pub connected: bool,
    pub state: StateMap,
    pub messages: History,
    pub received: Received,
}

impl MqttHeaterReader {
    /// The invariant: one entry per canonical key, a bounded history, and a
    /// mark for each property.
    pub open spec fn wf(&self) -> bool {
        self.state.wf() && self.messages.wf() && self.received.wf()
    }

    /// A reader that is not connected and knows nothing yet. `collector_id`
    /// is the identity under which its readings travel.
    pub fn new(name: String, device_id: String, collector_id: u128) -> (r: MqttHeaterReader)
        ensures
            r.wf(),
            r.name == name,
            r.device_id == device_id,
            r.collector_id == collector_id,
            !r.connected,
            r.state@ == Entries::empty(),
            r.messages@ == Seq::<Raw>::empty(),
            r.messages.capacity_spec() == MAX_HISTORY,
            r.received@ == nothing_received(),
    {
        MqttHeaterReader {
            device_id,
            collector_id,
            name,
            connected: false,
            state: StateMap::new(),
            messages: History::new(MAX_HISTORY),
            received: Received::new(),
        }
    }

    /// A reader as `new` makes it, under an identity of its own that is drawn
    /// at random.
    pub fn create(name: String, device_id: String) -> (r: MqttHeaterReader)
        ensures
            r.wf(),
            r.name == name,
            r.device_id == device_id,
            r.collector_id & 0xF000_C000_0000_0000_0000 == 0x4000_8000_0000_0000_0000,
            !r.connected,
            r.state@ == Entries::empty(),
            r.messages@ == Seq::<Raw>::empty(),
            r.messages.capacity_spec() == MAX_HISTORY,
            r.received@ == nothing_received(),
    {
        MqttHeaterReader::new(name, device_id, fresh_identity())
    }

    /// The name under which the reader connects to the broker: its identity
    /// in hyphenated notation.
    pub fn client_id(&self) -> (s: String)
        ensures
            s@ == hyphenated(self.collector_id),
    {
        hyphenated_text(self.collector_id)
    }

    /// Where the reader stands with its appliance.
    pub fn connection(&self) -> (c: Connection)
        ensures
            c == connection_of(self.connected, self.received@),
    {
        if !self.connected {
            Connection::Disconnected
        } else if self.received.all() {
            Connection::Synchronized
        } else {
            Connection::Connected
        }
    }

    /// Start of the listener: the state is emptied, since an entry comes
    /// with the first inbound message of its property, and the canonical key
    /// of every property is handed out as a topic to subscribe to. A reader
    /// that is connected cannot be started again.
    pub fn started(&mut self) -> (r: Started)
        requires
            !old(self).connected,
        ensures
            final(self).state@ == Entries::empty(),
            final(self).state.wf(),
            old(self).messages.wf() ==> final(self).wf(),
            final(self).received@ == nothing_received(),
            final(self).device_id == old(self).device_id,
            final(self).collector_id == old(self).collector_id,
            final(self).name == old(self).name,
            final(self).messages == old(self).messages,
            !final(self).connected,
            r.qos == Delivery::AtMostOnce,
            r.topics@.len() == 12,
            forall|i: int|
                0 <= i < 12 ==> (#[trigger] r.topics@[i])@ == topic_of(
                    old(self).device_id@,
                    all_properties()[i].suffix_spec(),
                ),
    {
        let topics = operation_state(self.device_id.as_str()).keys();
        self.state = StateMap::new();
        self.received = Received::new();
        Started { topics, qos: Delivery::AtMostOnce }
    }

    /// Outcome of the subscriptions. Where they all succeeded the reader is
    /// connected and hands out the registration of its gauge, with the label
    /// names `kind` and `unit`; else nothing changes.
    pub fn subscribed(&mut self, ok: bool) -> (r: Option<SetupMetrics>)
        ensures
            final(self).connected == (ok || old(self).connected),
            final(self).state == old(self).state,
            final(self).messages == old(self).messages,
            final(self).received == old(self).received,
            final(self).device_id == old(self).device_id,
            final(self).collector_id == old(self).collector_id,
            final(self).name == old(self).name,
            match r {
                Some(m) => ok && m@ == (SetupView {
                    kind: MetricKind::Gauge,
                    id: old(self).collector_id,
                    name: old(self).name@,
                    labels: seq!["kind"@, "unit"@],
                }),
                None => !ok,
            },
    {
        if ok {
            self.connected = true;
            Some(SetupMetrics::kind_unit_gauge(self.collector_id, self.name.clone()))
        } else {
            None
        }
    }

    /// End of the listener: the connection is gone, state and history stay.
    pub fn stopped(&mut self)
        ensures
            !final(self).connected,
            final(self).state == old(self).state,
            final(self).messages == old(self).messages,
            final(self).received == old(self).received,
            final(self).device_id == old(self).device_id,
            final(self).collector_id == old(self).collector_id,
            final(self).name == old(self).name,
    {
        self.connected = false;
    }

    /// One inbound message whose payload was decoded already (`None`: the
    /// bytes are no JSON text). The raw message goes to the history in every
    /// case. Where topic and payload parse, the value replaces the entry of
    /// the topic and is returned: a refresh is due. Else the state is
    /// unchanged and the error says why.
    pub fn on_decoded(&mut self, topic: String, payload: Vec<u8>, decoded: Option<Payload>) -> (r:
        Result<HeaterFanState, ParseError>)
        requires
            old(self).wf(),
        ensures
            final(self).wf(),
            final(self).messages@ == recorded(
                old(self).messages@,
                old(self).messages.capacity_spec(),
                (topic@, payload@),
            ),
            final(self).messages.capacity_spec() == old(self).messages.capacity_spec(),
            r == ingested(
                topic@,
                match decoded {
                    Some(p) => Some(p@),
                    None => None,
                },
            ),
            final(self).state@ == state_after(
                old(self).state@,
                topic@,
                match decoded {
                    Some(p) => Some(p@),
                    None => None,
                },
            ),
            final(self).received@ == received_after(
                old(self).received@,
                topic@,
                match decoded {
                    Some(p) => Some(p@),
                    None => None,
                },
            ),
            final(self).connected == old(self).connected,
            final(self).device_id == old(self).device_id,
            final(self).collector_id == old(self).collector_id,
            final(self).name == old(self).name,
    {
        let value = match decoded {
            Some(p) => p,
            None => Payload::Other,
        };
        let r = HeaterFanState::parse_by_key(topic.as_str(), &value);
        self.messages.push(RawMessage { topic: topic.clone(), payload });
        match r {
            Ok(v) => {
                self.state.insert(topic, v);
                self.received.mark(v.property());
            },
            Err(_) => {},
        }
        r
    }

    /// One inbound message: the payload is decoded as JSON, the rest is
    /// `on_decoded`.
    pub fn on_message(&mut self, topic: String, payload: Vec<u8>) -> (r: Result<
        HeaterFanState,
        ParseError,
    >)
        requires
            old(self).wf(),
        ensures
            final(self).wf(),
            final(self).messages@ == recorded(
                old(self).messages@,
                old(self).messages.capacity_spec(),
                (topic@, payload@),
            ),
            final(self).messages.capacity_spec() == old(self).messages.capacity_spec(),
            r == ingested(topic@, json_payload(payload@)),
            final(self).state@ == state_after(old(self).state@, topic@, json_payload(payload@)),
            final(self).received@ == received_after(
                old(self).received@,
                topic@,
                json_payload(payload@),
            ),
            final(self).connected == old(self).connected,
            final(self).device_id == old(self).device_id,
            final(self).collector_id == old(self).collector_id,
            final(self).name == old(self).name,
    {
        let decoded = match decode_json(payload.as_slice()) {
            Some(j) => Some(Payload::from_json(j)),
            None => None,
        };
        self.on_decoded(topic, payload, decoded)
    }

    /// A refresh: the readings of the state for the bus, under the reader's
    /// identity, and the full-state push for the home bridge, both from the
    /// same state.
    pub fn refresh(&self) -> (r: Refresh)
        ensures
            reading_views(r.readings@) == readings_of(self.state@, self.collector_id),
            batch_view(r.push@) == push_of(self.state@, self.device_id@),
    {
        let values = self.state.values();
        let mut readings: Vec<SensorReading> = Vec::new();
        let mut i: usize = 0;
        while i < values.len()
            invariant
                i <= values.len(),
                values@.len() == self.state@.len(),
                forall|j: int| 0 <= j < values@.len() ==> #[trigger] values@[j] == self.state@[j].1,
                reading_views(readings@) == readings_of(
                    self.state@.take(i as int),
                    self.collector_id,
                ),
            decreases values.len() - i,
        {
            proof {
                assert(self.state@.take(i as int + 1).drop_last() =~= self.state@.take(i as int));
            }
            let ghost before = readings@;
            match reading_for(self.collector_id, &values[i]) {
                Some(x) => {
                    readings.push(x);
                    assert(reading_views(readings@) =~= reading_views(before).push(x@));
                },
                None => {},
            }
            i += 1;
        }
        assert(self.state@.take(i as int) =~= self.state@);
        let is_on = match self.state.last(Property::PowerOn) {
            Some(HeaterFanState::PowerOn(b)) => b,
            _ => false,
        };
        let fan_speed = match self.state.last(Property::FanSpeed) {
            Some(HeaterFanState::FanSpeed(n)) => n,
            _ => 1,
        };
        let oscillate = match self.state.last(Property::Oscillate) {
            Some(HeaterFanState::Oscillate(b)) => b,
            _ => false,
        };
        let current_temperature = match self.state.last(Property::CurrentTemperature) {
            Some(HeaterFanState::CurrentTemperature(n)) => n,
            _ => 1,
        };
        let target_temperature = match self.state.last(Property::TargetTemperature) {
            Some(HeaterFanState::TargetTemperature(n)) => n,
            _ => 1,
        };
        let active = match self.state.last(Property::HeatStatus) {
            Some(HeaterFanState::HeatStatus(HeatStatus::Active)) => true,
            _ => false,
        };
        let vent = match self.state.last(Property::VentHeat) {
            Some(HeaterFanState::VentHeat(b)) => b,
            _ => false,
        };
        let push = webhook_state_requests(
            self.device_id.as_str(),
            is_on,
            fan_speed,
            oscillate,
            current_temperature,
            target_temperature,
            active || vent,
        );
        Refresh { readings, push }
    }

    /// Turns a command into its ordered writes. Nothing is written where the
    /// connection is down (`NotConnected`) or where the state holds no key
    /// for the command's property (`UnknownProperty`).
    pub fn command(&self, request: &HeaterFanStateUpdateRequest) -> (r: Result<
        Vec<Write>,
        CommandError,
    >)
        requires
            self.wf(),
        ensures
            match r {
                Ok(ws) => planned(self.connected, self.state@, self.device_id@, *request) == Ok::<
                    Seq<WriteView>,
                    CommandError,
                >(writes(ws@)),
                Err(e) => planned(self.connected, self.state@, self.device_id@, *request) == Err::<
                    Seq<WriteView>,
                    CommandError,
                >(e),
            },
    {
        if !self.connected {
            return Err(CommandError::NotConnected);
        }
        let key = match get_path(&self.state, request) {
            Some(k) => k,
            None => {
                return Err(CommandError::UnknownProperty);
            },
        };
        let topic = String::from_str(key).concat("/set");
        let mut ws: Vec<Write> = Vec::new();
        let ghost plan = sequence(self.state@, self.device_id@, *request, key@);
        match request {
            HeaterFanStateUpdateRequest::Heater(new) => {
                let power_topic = to_topic(self.device_id.as_str(), "power_on");
                match new {
                    ThermostatState::Off => {
                        ws.push(
                            Write {
                                topic: power_topic.concat("/set"),
                                payload: flag_text(false),
                                qos: Delivery::AtLeastOnce,
                            },
                        );
                    },
                    _ => {
                        let needed = match self.state.get(power_topic.as_str()) {
                            Some(v) => *v != HeaterFanState::PowerOn(true),
                            None => true,
                        };
                        if needed {
                            ws.push(
                                Write {
                                    topic: power_topic.concat("/set"),
                                    payload: flag_text(true),
                                    qos: Delivery::AtLeastOnce,
                                },
                            );
                        }
                        ws.push(
                            Write {
                                topic,
                                payload: payload_text(request),
                                qos: Delivery::AtLeastOnce,
                            },
                        );
                    },
                }
            },
            _ => {
                ws.push(Write { topic, payload: payload_text(request), qos: Delivery::AtLeastOnce });
            },
        }
        assert(writes(ws@) =~= plan);
        Ok(ws)
    }
}

} // verus!
