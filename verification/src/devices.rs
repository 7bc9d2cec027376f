//! Devices (actuators and sensors) of the home-automation registry, with
//! the capability interface they all implement. Devices report quantities
//! in SI units. A measurement is surfaced by `get_state` only while the
//! device's discrete state is trustworthy: neither unknown nor failed.

use vstd::prelude::*;
use vstd::string::StringExecFns;

use crate::strutil::i64_str;
use crate::strutil::spec_int_str;

verus! {

/// Electrical power in SI units.
#[derive(Clone, Copy, PartialEq, Eq, Structural, Debug)]
pub struct ElectricalPower {
    /// Active power [Watts]
    pub p_watts: i64,
    /// Reactive power [VAR]
    pub q_var: i64,
}

/// Temperature in the SI unit (Kelvin).
#[derive(Clone, Copy, PartialEq, Eq, Structural, Debug)]
pub struct Temperature {
    pub temperature: i64,
}

/// Discrete operating states of a temperature sensor.
#[derive(Clone, Copy, PartialEq, Eq, Structural, Debug)]
pub enum TempSensorState {
    Good,
    Failure,
    Unknown,
}

/// Discrete operating states of a smart socket.
#[derive(Clone, Copy, PartialEq, Eq, Structural, Debug)]
pub enum SocketState {
    Active,
    Inactive,
    Failure,
    Unknown,
}

/// A socket's measurement is trustworthy iff its state is neither
/// `Unknown` nor `Failure`.
pub open spec fn socket_state_valid(s: SocketState) -> bool {
    s != SocketState::Unknown && s != SocketState::Failure
}

/// A sensor's measurement is trustworthy iff its state is neither
/// `Unknown` nor `Failure`.
pub open spec fn sensor_state_valid(s: TempSensorState) -> bool {
    s != TempSensorState::Unknown && s != TempSensorState::Failure
}

/// The display name of a socket state.
pub open spec fn socket_state_name(s: SocketState) -> Seq<char> {
    match s {
        SocketState::Active => "Active"@,
        SocketState::Inactive => "Inactive"@,
        SocketState::Failure => "Failure"@,
        SocketState::Unknown => "Unknown"@,
    }
}

/// The display name of a sensor state.
pub open spec fn sensor_state_name(s: TempSensorState) -> Seq<char> {
    match s {
        TempSensorState::Good => "Good"@,
        TempSensorState::Failure => "Failure"@,
        TempSensorState::Unknown => "Unknown"@,
    }
}

fn socket_state_str(s: SocketState) -> (r: &'static str)
    ensures
        r@ == socket_state_name(s),
{
    match s {
        SocketState::Active => "Active",
        SocketState::Inactive => "Inactive",
        SocketState::Failure => "Failure",
        SocketState::Unknown => "Unknown",
    }
}

fn sensor_state_str(s: TempSensorState) -> (r: &'static str)
    ensures
        r@ == sensor_state_name(s),
{
    match s {
        TempSensorState::Good => "Good",
        TempSensorState::Failure => "Failure",
        TempSensorState::Unknown => "Unknown",
    }
}

/// The rendered text of a power measurement.
pub open spec fn spec_power_text(p: ElectricalPower) -> Seq<char> {
    spec_int_str(p.p_watts as int) + " W "@ + spec_int_str(p.q_var as int) + " var"@
}

/// The rendered text of a temperature measurement.
pub open spec fn spec_temperature_text(t: Temperature) -> Seq<char> {
    spec_int_str(t.temperature as int) + " K"@
}

fn power_text(p: ElectricalPower) -> (r: String)
    ensures
        r@ == spec_power_text(p),
{
    let mut out: String = i64_str(p.p_watts);
    out.append(" W ");
    let q: String = i64_str(p.q_var);
    out.append(q.as_str());
    out.append(" var");
    out
}

fn temperature_text(t: Temperature) -> (r: String)
    ensures
        r@ == spec_temperature_text(t),
{
    let mut out: String = i64_str(t.temperature);
    out.append(" K");
    out
}

/// The capability interface every device kind implements: a stable,
/// human-readable identity label and a validity-gated state summary.
pub trait DeviceInfoProvider {
    /// Well-formedness: a device in a trustworthy state carries a measurement.
    spec fn wf(&self) -> bool;

    /// The label `descriptor` returns.
    spec fn spec_descriptor(&self) -> Seq<char>;

    /// The summary `get_state` returns.
    spec fn spec_status(&self) -> Seq<char>;

    /// A stable identity label for the device (kind plus its identifier).
    /// Pure: reads current fields only.
    fn descriptor(&self) -> (r: &str)
        ensures
            r@ == self.spec_descriptor(),
    ;

    /// A formatted summary of the discrete state, together with the
    /// measurement when the state is trustworthy and an explicit `?`
    /// placeholder when it is not. Pure: reads current fields only.
    fn get_state(&self) -> (r: String)
        ensures
            r@ == self.spec_status(),
    ;
}

/// The summary a socket reports: its state, then its power measurement
/// gated on validity.
pub open spec fn spec_socket_status(state: SocketState, power: Option<ElectricalPower>) -> Seq<
    char,
> {
    "state: "@ + socket_state_name(state) + ", power: "@ + (if socket_state_valid(state)
        && power is Some {
        spec_power_text(power->0)
    } else {
        "?"@
    })
}

/// The summary a sensor reports: its state, then its temperature
/// measurement gated on validity.
pub open spec fn spec_sensor_status(state: TempSensorState, temperature: Option<Temperature>) -> Seq<
    char,
> {
    "state: "@ + sensor_state_name(state) + ", temp: "@ + (if sensor_state_valid(state)
        && temperature is Some {
        spec_temperature_text(temperature->0)
    } else {
        "?"@
    })
}

/// The validity gate, blocking side: while a socket's state is not
/// trustworthy its summary carries the `?` placeholder, whatever
/// measurement is stored — no numeric measurement text leaks out.
pub proof fn lemma_socket_gate_blocks(
    state: SocketState,
    p1: Option<ElectricalPower>,
    p2: Option<ElectricalPower>,
)
    requires
        !socket_state_valid(state),
    ensures
        spec_socket_status(state, p1) == spec_socket_status(state, p2),
        spec_socket_status(state, p1) == "state: "@ + socket_state_name(state) + ", power: "@
            + "?"@,
{
}

/// The validity gate, admitting side: a well-formed socket in a
/// trustworthy state always renders its power measurement.
pub proof fn lemma_socket_gate_admits(s: SmartSocket)
    requires
        s.wf(),
        socket_state_valid(s.state),
    ensures
        s.spec_status() == "state: "@ + socket_state_name(s.state) + ", power: "@ + spec_power_text(
            s.power->0,
        ),
{
}

/// The validity gate, blocking side, for sensors.
pub proof fn lemma_sensor_gate_blocks(
    state: TempSensorState,
    t1: Option<Temperature>,
    t2: Option<Temperature>,
)
    requires
        !sensor_state_valid(state),
    ensures
        spec_sensor_status(state, t1) == spec_sensor_status(state, t2),
        spec_sensor_status(state, t1) == "state: "@ + sensor_state_name(state) + ", temp: "@
            + "?"@,
{
}

/// The validity gate, admitting side, for sensors.
pub proof fn lemma_sensor_gate_admits(s: TempSensor)
    requires
        s.wf(),
        sensor_state_valid(s.state),
    ensures
        s.spec_status() == "state: "@ + sensor_state_name(s.state) + ", temp: "@
            + spec_temperature_text(s.temperature->0),
{
}

/// Formatting is deterministic: `descriptor` and `get_state` are pure
/// functions of the device's current fields, so any two results obtained
/// from the same device are byte-identical.
pub proof fn lemma_format_deterministic(
    d: &SmartDevice,
    s1: Seq<char>,
    s2: Seq<char>,
    l1: Seq<char>,
    l2: Seq<char>,
)
    requires
        s1 == d.spec_status(),
        s2 == d.spec_status(),
        l1 == d.spec_descriptor(),
        l2 == d.spec_descriptor(),
    ensures
        s1 == s2,
        l1 == l2,
{
}

/// A smart socket: an actuator that can be switched and reports the
/// average power it carries.
pub struct SmartSocket {
    pub id: String,
    pub state: SocketState,
    /// Holds the average power; present whenever the state is trustworthy.
    pub power: Option<ElectricalPower>,
}

impl SmartSocket {
    /// Builds a socket from a caller-supplied network identifier, in state
    /// `Unknown` with no measurement yet.
    pub fn new(network_id: String) -> (r: SmartSocket)
        ensures
            r.id@ == "smart_socket: "@ + network_id@,
            r.state == SocketState::Unknown,
            r.power is None,
            r.wf(),
    {
        SmartSocket {
            id: String::from_str("smart_socket: ").concat(network_id.as_str()),
            state: SocketState::Unknown,
            power: None,
        }
    }

    /// True iff the current state is trustworthy, so that the measurement
    /// may be surfaced.
    pub fn is_valid(&self) -> (r: bool)
        ensures
            r == socket_state_valid(self.state),
    {
        !(self.state == SocketState::Unknown || self.state == SocketState::Failure)
    }

    /// Extension point for toggling the socket: the caller reports the
    /// state the hardware reached and the power observed there. A
    /// completed toggle (`Active` or `Inactive`) succeeds and records the
    /// measurement; any other outcome fails, carrying the resulting state,
    /// and discards the measurement.
    pub fn turn_state(&mut self, outcome: SocketState, power: ElectricalPower) -> (r: Result<
        (),
        SocketState,
    >)
        ensures
            final(self).id == old(self).id,
            final(self).state == outcome,
            socket_state_valid(outcome) ==> r == Ok::<(), SocketState>(())
                && final(self).power == Some(power),
            !socket_state_valid(outcome) ==> r == Err::<(), SocketState>(outcome)
                && final(self).power is None,
            final(self).wf(),
    {
        self.state = outcome;
        if !(outcome == SocketState::Unknown || outcome == SocketState::Failure) {
            self.power = Some(power);
            Ok(())
        } else {
            self.power = None;
            Err(outcome)
        }
    }
}

impl DeviceInfoProvider for SmartSocket {
    open spec fn wf(&self) -> bool {
        socket_state_valid(self.state) ==> self.power is Some
    }

    open spec fn spec_descriptor(&self) -> Seq<char> {
        self.id@
    }

    open spec fn spec_status(&self) -> Seq<char> {
        spec_socket_status(self.state, self.power)
    }

    fn descriptor(&self) -> (r: &str) {
        self.id.as_str()
    }

    fn get_state(&self) -> (r: String) {
        let mut out: String = String::from_str("state: ");
        out.append(socket_state_str(self.state));
        out.append(", power: ");
        let gated: String = if self.is_valid() {
            match self.power {
                Some(p) => power_text(p),
                None => String::from_str("?"),
            }
        } else {
            String::from_str("?")
        };
        out.append(gated.as_str());
        out
    }
}

/// A temperature sensor reporting the average temperature it sees.
pub struct TempSensor {
    pub id: String,
    pub state: TempSensorState,
    /// Holds the average temperature; present whenever the state is
    /// trustworthy.
    pub temperature: Option<Temperature>,
}

impl TempSensor {
    /// Builds a sensor from a caller-supplied network identifier, in state
    /// `Unknown` with no measurement yet.
    pub fn new(network_id: String) -> (r: TempSensor)
        ensures
            r.id@ == "temp_sensor: "@ + network_id@,
            r.state == TempSensorState::Unknown,
            r.temperature is None,
            r.wf(),
    {
        TempSensor {
            id: String::from_str("temp_sensor: ").concat(network_id.as_str()),
            state: TempSensorState::Unknown,
            temperature: None,
        }
    }

    /// True iff the current state is trustworthy, so that the measurement
    /// may be surfaced.
    pub fn is_valid(&self) -> (r: bool)
        ensures
            r == sensor_state_valid(self.state),
    {
        !(self.state == TempSensorState::Unknown || self.state == TempSensorState::Failure)
    }

    /// Extension point for the polling component: the caller reports the
    /// state observed while reading and the temperature read. A `Good`
    /// reading succeeds and records the measurement; any other outcome
    /// fails, carrying the resulting state, and discards the measurement.
    pub fn record_measurement(
        &mut self,
        outcome: TempSensorState,
        reading: Temperature,
    ) -> (r: Result<(), TempSensorState>)
        ensures
            final(self).id == old(self).id,
            final(self).state == outcome,
            sensor_state_valid(outcome) ==> r == Ok::<(), TempSensorState>(())
                && final(self).temperature == Some(reading),
            !sensor_state_valid(outcome) ==> r == Err::<(), TempSensorState>(outcome)
                && final(self).temperature is None,
            final(self).wf(),
    {
        self.state = outcome;
        if !(outcome == TempSensorState::Unknown || outcome == TempSensorState::Failure) {
            self.temperature = Some(reading);
            Ok(())
        } else {
            self.temperature = None;
            Err(outcome)
        }
    }
}

impl DeviceInfoProvider for TempSensor {
    open spec fn wf(&self) -> bool {
        sensor_state_valid(self.state) ==> self.temperature is Some
    }

    open spec fn spec_descriptor(&self) -> Seq<char> {
        self.id@
    }

    open spec fn spec_status(&self) -> Seq<char> {
        spec_sensor_status(self.state, self.temperature)
    }

    fn descriptor(&self) -> (r: &str) {
        self.id.as_str()
    }

    fn get_state(&self) -> (r: String) {
        let mut out: String = String::from_str("state: ");
        out.append(sensor_state_str(self.state));
        out.append(", temp: ");
        let gated: String = if self.is_valid() {
            match self.temperature {
                Some(t) => temperature_text(t),
                None => String::from_str("?"),
            }
        } else {
            String::from_str("?")
        };
        out.append(gated.as_str());
        out
    }
}

/// The closed union over the supported device kinds: the registry's single
/// storage type and its single dispatch point to the capability interface.
/// Every variant maps to exactly one capability value; adding a kind forces
/// every match over this union to be extended.
pub enum SmartDevice {
    SmartSocket(SmartSocket),
    TempSensor(TempSensor),
}

impl DeviceInfoProvider for SmartDevice {
    open spec fn wf(&self) -> bool {
        match self {
            SmartDevice::SmartSocket(device) => device.wf(),
            SmartDevice::TempSensor(device) => device.wf(),
        }
    }

    open spec fn spec_descriptor(&self) -> Seq<char> {
        match self {
            SmartDevice::SmartSocket(device) => device.spec_descriptor(),
            SmartDevice::TempSensor(device) => device.spec_descriptor(),
        }
    }

    open spec fn spec_status(&self) -> Seq<char> {
        match self {
            SmartDevice::SmartSocket(device) => device.spec_status(),
            SmartDevice::TempSensor(device) => device.spec_status(),
        }
    }

    fn descriptor(&self) -> (r: &str) {
        match self {
            SmartDevice::SmartSocket(device) => device.descriptor(),
            SmartDevice::TempSensor(device) => device.descriptor(),
        }
    }

    fn get_state(&self) -> (r: String) {
        match self {
            SmartDevice::SmartSocket(device) => device.get_state(),
            SmartDevice::TempSensor(device) => device.get_state(),
        }
    }
}

} // verus!
