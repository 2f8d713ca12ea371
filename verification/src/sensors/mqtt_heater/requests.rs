//! Command requests, and the state pushed to the home bridge.

use vstd::prelude::*;
use vstd::string::*;
use super::state::HeaterFanMode;
use super::state::Property;

verus! {

/// State of a fan accessory on the home bridge.
#[derive(Debug, PartialEq, Eq, Clone, Copy, Structural)]
pub enum HomeBridgeFanv2 {
    PowerOnOff { state: bool },
    /// Rotation speed in steps.
    RotationSpeed { speed: u8 },
    Oscillate { swing_mode: bool },
}

/// State of a thermostat: the numbers 0 to 3 on the wire.
#[derive(Debug, PartialEq, Eq, Clone, Copy, Structural)]
pub enum ThermostatState {
    Off,
    Heating,
    Cooling,
    Auto,
}

impl ThermostatState {
    /// The number that stands for the state.
    pub open spec fn code_spec(self) -> u8 {
        match self {
            ThermostatState::Off => 0,
            ThermostatState::Heating => 1,
            ThermostatState::Cooling => 2,
            ThermostatState::Auto => 3,
        }
    }

    pub fn code(self) -> (n: u8)
        ensures
            n == self.code_spec(),
    {
        match self {
            ThermostatState::Off => 0,
            ThermostatState::Heating => 1,
            ThermostatState::Cooling => 2,
            ThermostatState::Auto => 3,
        }
    }

    /// The state that a number stands for, if it is one of 0 to 3.
    pub fn from_code(n: u8) -> (s: Option<ThermostatState>)
        ensures
            match s {
                Some(t) => t.code_spec() == n,
                None => n > 3,
            },
    {
        if n == 0 {
            Some(ThermostatState::Off)
        } else if n == 1 {
            Some(ThermostatState::Heating)
        } else if n == 2 {
            Some(ThermostatState::Cooling)
        } else if n == 3 {
            Some(ThermostatState::Auto)
        } else {
            None
        }
    }
}

/// State of a thermostat accessory on the home bridge. Temperatures are whole
/// degrees Celsius.
#[derive(Debug, PartialEq, Eq, Clone, Copy, Structural)]
pub enum HomeBridgeThermostat {
    CurrentState { current_state: ThermostatState },
    TargetState { target_state: ThermostatState },
    CurrentTemperature { current_temperature: u8 },
    TargetTemperature { target_temperature: u8 },
}

/// What one webhook call reports.
#[derive(Debug, PartialEq, Eq, Clone, Copy, Structural)]
pub enum AccessoryState {
    Fan(HomeBridgeFanv2),
    Thermostat(HomeBridgeThermostat),
}

/// One call to the home bridge: the accessory and its new state.
#[derive(Debug, Clone)]
pub struct HomeBridgeWebHookRequest {
    pub accessory_id: String,
    pub state: AccessoryState,
}

/// A command for the appliance.
#[derive(Debug, PartialEq, Eq, Clone, Copy, Structural)]
pub enum HeaterFanStateUpdateRequest {
    PowerOn(bool),
    Mode(HeaterFanMode),
    TargetTemperature(u8),
    /// 1 to 10.
    FanSpeed(u8),
    Oscillate(bool),
    Timer(u16),
    Silent(bool),
    Heater(ThermostatState),
    VentHeat(bool),
}

impl HeaterFanStateUpdateRequest {
    /// The property that the command writes.
    pub open spec fn property_spec(self) -> Property {
        match self {
            HeaterFanStateUpdateRequest::PowerOn(_) => Property::PowerOn,
            HeaterFanStateUpdateRequest::Mode(_) => Property::Mode,
            HeaterFanStateUpdateRequest::TargetTemperature(_) => Property::TargetTemperature,
            HeaterFanStateUpdateRequest::FanSpeed(_) => Property::FanSpeed,
            HeaterFanStateUpdateRequest::Oscillate(_) => Property::Oscillate,
            HeaterFanStateUpdateRequest::Timer(_) => Property::Timer,
            HeaterFanStateUpdateRequest::Silent(_) => Property::Silent,
            HeaterFanStateUpdateRequest::Heater(_) => Property::Heater,
            HeaterFanStateUpdateRequest::VentHeat(_) => Property::VentHeat,
        }
    }

    pub fn property(&self) -> (p: Property)
        ensures
            p == self.property_spec(),
    {
        match self {
            HeaterFanStateUpdateRequest::PowerOn(_) => Property::PowerOn,
            HeaterFanStateUpdateRequest::Mode(_) => Property::Mode,
            HeaterFanStateUpdateRequest::TargetTemperature(_) => Property::TargetTemperature,
            HeaterFanStateUpdateRequest::FanSpeed(_) => Property::FanSpeed,
            HeaterFanStateUpdateRequest::Oscillate(_) => Property::Oscillate,
            HeaterFanStateUpdateRequest::Timer(_) => Property::Timer,
            HeaterFanStateUpdateRequest::Silent(_) => Property::Silent,
            HeaterFanStateUpdateRequest::Heater(_) => Property::Heater,
            HeaterFanStateUpdateRequest::VentHeat(_) => Property::VentHeat,
        }
    }
}

/// The thermostat state that the cached power and heater flags amount to.
pub open spec fn current_state_of(is_on: bool, heater_on: bool) -> ThermostatState {
    if !is_on {
        ThermostatState::Off
    } else if heater_on {
        ThermostatState::Heating
    } else {
        ThermostatState::Cooling
    }
}

pub fn find_current_state(is_on: bool, heater_on: bool) -> (s: ThermostatState)
    ensures
        s == current_state_of(is_on, heater_on),
{
    if !is_on {
        ThermostatState::Off
    } else {
        if heater_on {
            ThermostatState::Heating
        } else {
            ThermostatState::Cooling
        }
    }
}

/// The accessory that stands for the thermostat side of `device_id`.
pub open spec fn thermostat_accessory(device_id: Seq<char>) -> Seq<char> {
    "t-"@ + device_id
}

/// The six reports of one full-state push, as accessory and state, in the
/// order in which they are sent.
pub open spec fn webhook_batch(
    device_id: Seq<char>,
    is_on: bool,
    fan_speed: u8,
    oscillate: bool,
    current_temperature: u8,
    target_temperature: u8,
    heater_on: bool,
) -> Seq<(Seq<char>, AccessoryState)> {
    seq![
        (
            thermostat_accessory(device_id),
            AccessoryState::Thermostat(
                HomeBridgeThermostat::CurrentTemperature { current_temperature },
            ),
        ),
        (
            thermostat_accessory(device_id),
            AccessoryState::Thermostat(
                HomeBridgeThermostat::TargetTemperature { target_temperature },
            ),
        ),
        (
            thermostat_accessory(device_id),
            AccessoryState::Thermostat(
                HomeBridgeThermostat::CurrentState {
                    current_state: current_state_of(is_on, heater_on),
                },
            ),
        ),
        (device_id, AccessoryState::Fan(HomeBridgeFanv2::RotationSpeed { speed: fan_speed })),
        (device_id, AccessoryState::Fan(HomeBridgeFanv2::PowerOnOff { state: is_on })),
        (device_id, AccessoryState::Fan(HomeBridgeFanv2::Oscillate { swing_mode: oscillate })),
    ]
}

/// The reports as a sequence of accessory and state.
pub open spec fn batch_view(rqs: Seq<HomeBridgeWebHookRequest>) -> Seq<(Seq<char>, AccessoryState)> {
    Seq::new(rqs.len(), |i: int| (rqs[i].accessory_id@, rqs[i].state))
}

/// Composes the full-state push for the home bridge: thermostat temperatures
/// and state under the accessory `t-<device>`, then fan speed, power and swing
/// under the device itself.
pub fn webhook_state_requests(
    device_id: &str,
    is_on: bool,
    fan_speed: u8,
    oscillate: bool,
    current_temperature: u8,
    target_temperature: u8,
    heater_on: bool,
) -> (rqs: Vec<HomeBridgeWebHookRequest>)
    ensures
        batch_view(rqs@) == webhook_batch(
            device_id@,
            is_on,
            fan_speed,
            oscillate,
            current_temperature,
            target_temperature,
            heater_on,
        ),
{
    let mut rqs: Vec<HomeBridgeWebHookRequest> = Vec::new();
    rqs.push(
        HomeBridgeWebHookRequest {
            accessory_id: String::from_str("t-").concat(device_id),
            state: AccessoryState::Thermostat(
                HomeBridgeThermostat::CurrentTemperature { current_temperature },
            ),
        },
    );
    rqs.push(
        HomeBridgeWebHookRequest {
            accessory_id: String::from_str("t-").concat(device_id),
            state: AccessoryState::Thermostat(
                HomeBridgeThermostat::TargetTemperature { target_temperature },
            ),
        },
    );
    rqs.push(
        HomeBridgeWebHookRequest {
            accessory_id: String::from_str("t-").concat(device_id),
            state: AccessoryState::Thermostat(
                HomeBridgeThermostat::CurrentState {
                    current_state: find_current_state(is_on, heater_on),
                },
            ),
        },
    );
    rqs.push(
        HomeBridgeWebHookRequest {
            accessory_id: String::from_str(device_id),
            state: AccessoryState::Fan(HomeBridgeFanv2::RotationSpeed { speed: fan_speed }),
        },
    );
    rqs.push(
        HomeBridgeWebHookRequest {
            accessory_id: String::from_str(device_id),
            state: AccessoryState::Fan(HomeBridgeFanv2::PowerOnOff { state: is_on }),
        },
    );
    rqs.push(
        HomeBridgeWebHookRequest {
            accessory_id: String::from_str(device_id),
            state: AccessoryState::Fan(HomeBridgeFanv2::Oscillate { swing_mode: oscillate }),
        },
    );
    assert(batch_view(rqs@) =~= webhook_batch(
        device_id@,
        is_on,
        fan_speed,
        oscillate,
        current_temperature,
        target_temperature,
        heater_on,
    ));
    rqs
}

/// The place of the first report of a push that the home bridge did not
/// take, `None` where it took them all. `outcomes` says of each report, in
/// the order in which they were sent, whether it was taken.
pub fn first_failure(outcomes: &Vec<bool>) -> (r: Option<usize>)
    ensures
        match r {
            Some(i) => i < outcomes@.len() && !outcomes@[i as int] && forall|j: int|
                0 <= j < i ==> outcomes@[j],
            None => forall|j: int| 0 <= j < outcomes@.len() ==> outcomes@[j],
        },
{
    let mut i: usize = 0;
    while i < outcomes.len()
        invariant
            i <= outcomes.len(),
            forall|j: int| 0 <= j < i ==> outcomes@[j],
        decreases outcomes.len() - i,
    {
        if !outcomes[i] {
            return Some(i);
        }
        i += 1;
    }
    None
}

} // verus!
