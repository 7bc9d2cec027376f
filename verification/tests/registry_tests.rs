use smart_home::devices::ElectricalPower;
use smart_home::devices::SmartDevice;
use smart_home::devices::SmartSocket;
use smart_home::devices::SocketState;
use smart_home::devices::TempSensor;
use smart_home::registry::SmartHouse;

#[test]
fn report_of_fresh_devices_in_key_order() {
    let mut house = SmartHouse::new();
    let temp1 = TempSensor::new(String::from("5eeecd91-1ce7-4e94-aeda-87fd76398cef"));
    let socket1 = SmartSocket::new(String::from("7cdbac61-6c94-435a-8f15-fe366e8c0b46"));
    house.add_device(
        String::from("kitchen"),
        String::from("air_temp"),
        SmartDevice::TempSensor(temp1),
    );
    house.add_device(
        String::from("kitchen"),
        String::from("air_channel_shutter"),
        SmartDevice::SmartSocket(socket1),
    );
    let temp2 = TempSensor::new(String::from("ee1d9905-a2a5-4538-a167-29394ed5ac66"));
    house.add_device(
        String::from("bedroom"),
        String::from("air_temp"),
        SmartDevice::TempSensor(temp2),
    );

    let report = house.create_report();
    assert_eq!(report.len(), 3);
    assert_eq!(
        report[0],
        "{ location: air_temp@bedroom, state: Unknown, temp: ?, \
         temp_sensor: ee1d9905-a2a5-4538-a167-29394ed5ac66 }"
    );
    assert_eq!(
        report[1],
        "{ location: air_channel_shutter@kitchen, state: Unknown, power: ?, \
         smart_socket: 7cdbac61-6c94-435a-8f15-fe366e8c0b46 }"
    );
    assert_eq!(
        report[2],
        "{ location: air_temp@kitchen, state: Unknown, temp: ?, \
         temp_sensor: 5eeecd91-1ce7-4e94-aeda-87fd76398cef }"
    );
}

#[test]
fn duplicate_key_keeps_only_second_device() {
    let mut house = SmartHouse::new();
    house.add_device(
        String::from("hall"),
        String::from("lamp"),
        SmartDevice::SmartSocket(SmartSocket::new(String::from("first"))),
    );
    house.add_device(
        String::from("hall"),
        String::from("lamp"),
        SmartDevice::SmartSocket(SmartSocket::new(String::from("second"))),
    );
    let report = house.create_report();
    assert_eq!(report.len(), 1);
    assert!(report[0].contains("smart_socket: second"));
    assert!(!report[0].contains("smart_socket: first"));
}

#[test]
fn duplicate_key_may_change_device_kind() {
    let mut house = SmartHouse::new();
    house.add_device(
        String::from("hall"),
        String::from("corner"),
        SmartDevice::SmartSocket(SmartSocket::new(String::from("x"))),
    );
    house.add_device(
        String::from("hall"),
        String::from("corner"),
        SmartDevice::TempSensor(TempSensor::new(String::from("y"))),
    );
    let report = house.create_report();
    assert_eq!(report.len(), 1);
    assert_eq!(
        report[0],
        "{ location: corner@hall, state: Unknown, temp: ?, temp_sensor: y }"
    );
}

#[test]
fn report_order_is_independent_of_insertion_order() {
    let keys = [
        ("kitchen", "air_temp"),
        ("bedroom", "air_temp"),
        ("kitchen", "air_channel_shutter"),
        ("attic", "vent"),
    ];
    let mut forward = SmartHouse::new();
    for (location, name) in keys.iter() {
        forward.add_device(
            String::from(*location),
            String::from(*name),
            SmartDevice::TempSensor(TempSensor::new(format!("{}-{}", location, name))),
        );
    }
    let mut backward = SmartHouse::new();
    for (location, name) in keys.iter().rev() {
        backward.add_device(
            String::from(*location),
            String::from(*name),
            SmartDevice::TempSensor(TempSensor::new(format!("{}-{}", location, name))),
        );
    }
    let report_forward = forward.create_report();
    let report_backward = backward.create_report();
    assert_eq!(report_forward, report_backward);
    assert_eq!(report_forward.len(), 4);
    assert!(report_forward[0].contains("vent@attic"));
    assert!(report_forward[1].contains("air_temp@bedroom"));
    assert!(report_forward[2].contains("air_channel_shutter@kitchen"));
    assert!(report_forward[3].contains("air_temp@kitchen"));
}

#[test]
fn name_breaks_ties_within_one_location() {
    let mut house = SmartHouse::new();
    house.add_device(
        String::from("kitchen"),
        String::from("b"),
        SmartDevice::TempSensor(TempSensor::new(String::from("1"))),
    );
    house.add_device(
        String::from("kitchen"),
        String::from("a"),
        SmartDevice::TempSensor(TempSensor::new(String::from("2"))),
    );
    let report = house.create_report();
    assert!(report[0].contains("a@kitchen"));
    assert!(report[1].contains("b@kitchen"));
}

#[test]
fn empty_registry_reports_nothing() {
    let house = SmartHouse::new();
    assert_eq!(house.create_report().len(), 0);
}

#[test]
fn empty_location_and_name_are_permitted() {
    let mut house = SmartHouse::new();
    house.add_device(
        String::new(),
        String::new(),
        SmartDevice::TempSensor(TempSensor::new(String::new())),
    );
    let report = house.create_report();
    assert_eq!(report.len(), 1);
    assert_eq!(
        report[0],
        "{ location: @, state: Unknown, temp: ?, temp_sensor:  }"
    );
}

#[test]
fn report_is_idempotent_without_mutation() {
    let mut house = SmartHouse::new();
    house.add_device(
        String::from("kitchen"),
        String::from("air_temp"),
        SmartDevice::TempSensor(TempSensor::new(String::from("a"))),
    );
    let mut socket = SmartSocket::new(String::from("b"));
    let _ = socket.turn_state(
        SocketState::Active,
        ElectricalPower { p_watts: 40, q_var: 5 },
    );
    house.add_device(
        String::from("kitchen"),
        String::from("socket"),
        SmartDevice::SmartSocket(socket),
    );
    let first = house.create_report();
    let second = house.create_report();
    assert_eq!(first, second);
}
