use smart_home::devices::DeviceInfoProvider;
use smart_home::devices::ElectricalPower;
use smart_home::devices::SmartDevice;
use smart_home::devices::SmartSocket;
use smart_home::devices::SocketState;
use smart_home::devices::TempSensor;
use smart_home::devices::TempSensorState;
use smart_home::devices::Temperature;

#[test]
fn fresh_socket_is_unknown_and_hides_power() {
    let socket = SmartSocket::new(String::from("sock-1"));
    assert_eq!(socket.descriptor(), "smart_socket: sock-1");
    assert!(!socket.is_valid());
    assert_eq!(socket.get_state(), "state: Unknown, power: ?");
}

#[test]
fn fresh_sensor_is_unknown_and_hides_temperature() {
    let sensor = TempSensor::new(String::from("temp-1"));
    assert_eq!(sensor.descriptor(), "temp_sensor: temp-1");
    assert!(!sensor.is_valid());
    assert_eq!(sensor.get_state(), "state: Unknown, temp: ?");
}

#[test]
fn completed_toggle_shows_power() {
    let mut socket = SmartSocket::new(String::from("sock-2"));
    let outcome = socket.turn_state(
        SocketState::Active,
        ElectricalPower { p_watts: 12, q_var: -3 },
    );
    assert_eq!(outcome, Ok(()));
    assert!(socket.is_valid());
    assert_eq!(socket.get_state(), "state: Active, power: 12 W -3 var");

    let outcome = socket.turn_state(
        SocketState::Inactive,
        ElectricalPower { p_watts: 0, q_var: 0 },
    );
    assert_eq!(outcome, Ok(()));
    assert_eq!(socket.get_state(), "state: Inactive, power: 0 W 0 var");
}

#[test]
fn failed_toggle_reports_resulting_state_and_hides_power() {
    let mut socket = SmartSocket::new(String::from("sock-3"));
    let outcome = socket.turn_state(
        SocketState::Failure,
        ElectricalPower { p_watts: 7, q_var: 7 },
    );
    assert_eq!(outcome, Err(SocketState::Failure));
    assert!(!socket.is_valid());
    assert_eq!(socket.get_state(), "state: Failure, power: ?");

    let outcome = socket.turn_state(
        SocketState::Unknown,
        ElectricalPower { p_watts: 7, q_var: 7 },
    );
    assert_eq!(outcome, Err(SocketState::Unknown));
    assert_eq!(socket.get_state(), "state: Unknown, power: ?");
}

#[test]
fn good_reading_shows_temperature() {
    let mut sensor = TempSensor::new(String::from("temp-2"));
    let outcome = sensor.record_measurement(TempSensorState::Good, Temperature { temperature: 293 });
    assert_eq!(outcome, Ok(()));
    assert!(sensor.is_valid());
    assert_eq!(sensor.get_state(), "state: Good, temp: 293 K");
}

#[test]
fn failed_reading_reports_resulting_state_and_hides_temperature() {
    let mut sensor = TempSensor::new(String::from("temp-3"));
    let outcome =
        sensor.record_measurement(TempSensorState::Failure, Temperature { temperature: 100 });
    assert_eq!(outcome, Err(TempSensorState::Failure));
    assert!(!sensor.is_valid());
    assert_eq!(sensor.get_state(), "state: Failure, temp: ?");
}

#[test]
fn extreme_magnitudes_render_exactly() {
    let mut socket = SmartSocket::new(String::from("sock-4"));
    let _ = socket.turn_state(
        SocketState::Active,
        ElectricalPower { p_watts: i64::MIN, q_var: i64::MAX },
    );
    assert_eq!(
        socket.get_state(),
        "state: Active, power: -9223372036854775808 W 9223372036854775807 var"
    );

    let mut sensor = TempSensor::new(String::from("temp-4"));
    let _ = sensor.record_measurement(TempSensorState::Good, Temperature { temperature: -40 });
    assert_eq!(sensor.get_state(), "state: Good, temp: -40 K");
}

#[test]
fn formatting_is_deterministic_across_repeated_calls() {
    let mut socket = SmartSocket::new(String::from("sock-5"));
    let _ = socket.turn_state(
        SocketState::Active,
        ElectricalPower { p_watts: 3, q_var: 4 },
    );
    let device = SmartDevice::SmartSocket(socket);
    assert_eq!(device.get_state(), device.get_state());
    assert_eq!(device.descriptor(), device.descriptor());

    let sensor = SmartDevice::TempSensor(TempSensor::new(String::from("temp-5")));
    assert_eq!(sensor.get_state(), sensor.get_state());
    assert_eq!(sensor.descriptor(), sensor.descriptor());
}

#[test]
fn variant_dispatch_matches_each_kind() {
    let socket = SmartDevice::SmartSocket(SmartSocket::new(String::from("s")));
    let sensor = SmartDevice::TempSensor(TempSensor::new(String::from("t")));
    assert_eq!(socket.descriptor(), "smart_socket: s");
    assert_eq!(sensor.descriptor(), "temp_sensor: t");
    assert_eq!(socket.get_state(), "state: Unknown, power: ?");
    assert_eq!(sensor.get_state(), "state: Unknown, temp: ?");
}
