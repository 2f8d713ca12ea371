//! A switch on a GPIO pin: what it registers, reads and sets.

use vstd::prelude::*;
use vstd::string::*;
use crate::msg::fresh_identity;
use crate::msg::texts;
use crate::msg::AccessoryType;
use crate::msg::MetricKind;
use crate::msg::ReadingView;
use crate::msg::SensorReading;
use crate::msg::SetupMetrics;
use crate::msg::SetupView;
use crate::msg::Switch;
use crate::msg::Value;
use crate::utils::single_bits;
use crate::utils::single_of_bool;

verus! {

/// A switch as the hub sees it. The state is the one the hub assumes: off at
/// the start.
#[derive(Debug, Clone, PartialEq, Eq)]
pub struct GpioSwitch {
    pub state: bool,
    pub collector_id: u128,
    pub name: String,
    pub pin_no: u32,
}

/// The name of the metric of the switch `name`.
pub open spec fn metric_name(name: Seq<char>) -> Seq<char> {
    "switch:"@ + name
}

impl GpioSwitch {
    /// A switch on pin `pin_no` that is taken to be off. `collector_id` is
    /// the identity under which its readings travel.
    pub fn new(pin_no: u32, name: String, collector_id: u128) -> (s: GpioSwitch)
        ensures
            s == (GpioSwitch { state: false, collector_id, name, pin_no }),
    {
        GpioSwitch { state: false, collector_id, name, pin_no }
    }

    /// A switch as `new` makes it, under an identity of its own that is drawn
    /// at random.
    pub fn create(pin_no: u32, name: String) -> (s: GpioSwitch)
        ensures
            !s.state,
            s.name == name,
            s.pin_no == pin_no,
            s.collector_id & 0xF000_C000_0000_0000_0000 == 0x4000_8000_0000_0000_0000,
    {
        GpioSwitch::new(pin_no, name, fresh_identity())
    }

    /// The pin as the device driver takes it: the low eight bits of the
    /// configured number.
    pub fn device_pin(&self) -> (pin: u8)
        ensures
            pin == self.pin_no % 256,
    {
        (self.pin_no % 256) as u8
    }

    /// The registration of the switch: a gauge `switch:<name>` with the one
    /// label `name`.
    pub fn started(&self) -> (m: SetupMetrics)
        ensures
            m@ == (SetupView {
                kind: MetricKind::Gauge,
                id: self.collector_id,
                name: metric_name(self.name@),
                labels: seq!["name"@],
            }),
    {
        let mut labels: Vec<String> = Vec::new();
        labels.push(String::from_str("name"));
        assert(texts(labels@) =~= seq!["name"@]);
        SetupMetrics::Gauge(
            self.collector_id,
            String::from_str("switch:").concat(self.name.as_str()),
            labels,
        )
    }

    /// The reading of the switch: 1 for on, 0 for off, labelled with its
    /// name.
    pub fn read_now(&self) -> (r: SensorReading)
        ensures
            r@ == (ReadingView {
                id: self.collector_id,
                reading: Value::Simple(single_bits(if self.state { 1nat } else { 0nat }) as u32),
                labels: seq![self.name@],
                accessory_type: Some(AccessoryType::Switch),
            }),
    {
        let mut labels: Vec<String> = Vec::new();
        labels.push(self.name.clone());
        assert(texts(labels@) =~= seq![self.name@]);
        SensorReading {
            id: self.collector_id,
            reading: Value::Simple(single_of_bool(self.state)),
            labels,
            accessory_type: Some(AccessoryType::Switch),
        }
    }

    /// The state that the hub assumes.
    pub fn switch_state(&self) -> (on: bool)
        ensures
            on == self.state,
    {
        self.state
    }

    /// The level that the device is set to for a message: high for `On`.
    /// The assumed state does not follow.
    pub fn level_for(&self, msg: Switch) -> (high: bool)
        ensures
            high == (msg == Switch::On),
    {
        match msg {
            Switch::On => true,
            Switch::Off => false,
        }
    }
}

} // verus!
