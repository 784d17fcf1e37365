use btdmm_comm::session::{
    find_dmm_characteristic, is_dmm_name, next_step, Arrival, EventError, NextStep,
    DMM_CHARACTERISTIC_UUID, DMM_NAME,
};
use btdmm_comm::{DecodeError, DmmError, Measurement};

#[test]
fn error_messages() {
    assert_eq!(DmmError::AlreadyConnected.message(), "Already connected");
    assert_eq!(DmmError::NotConnected.message(), "Device not connected");
    assert_eq!(DmmError::DeviceDisconnected.message(), "Device disconnected");
    assert_eq!(DmmError::DeviceNotFound.message(), "Device not found");
    assert_eq!(DmmError::Unknown("bus fault".to_string()).message(), "Unknown error: bus fault");
    assert_eq!(DmmError::Unknown(String::new()).message(), "Unknown error: ");
}

#[test]
fn the_meter_is_known_by_its_name() {
    assert_eq!(DMM_NAME, "Bluetooth DMM");
    assert!(is_dmm_name("Bluetooth DMM"));
    assert!(!is_dmm_name("bluetooth dmm"));
    assert!(!is_dmm_name("Bluetooth DMM "));
    assert!(!is_dmm_name(""));
}

#[test]
fn the_characteristic_is_found_by_its_uuid() {
    assert_eq!(DMM_CHARACTERISTIC_UUID, 0x0000fff4_0000_1000_8000_00805f9b34fb);
    assert_eq!(find_dmm_characteristic(&[]), None);
    assert_eq!(find_dmm_characteristic(&[1, 2, 3]), None);
    assert_eq!(find_dmm_characteristic(&[1, DMM_CHARACTERISTIC_UUID, 3]), Some(1));
    assert_eq!(
        find_dmm_characteristic(&[DMM_CHARACTERISTIC_UUID, DMM_CHARACTERISTIC_UUID]),
        Some(0)
    );
}

#[test]
fn a_timeout_and_the_end_of_the_stream_fail() {
    assert_eq!(next_step(&Arrival::TimedOut), NextStep::Fail(EventError::TimedOut));
    assert_eq!(
        next_step(&Arrival::StreamEnded),
        NextStep::Fail(EventError::Device(DmmError::DeviceDisconnected))
    );
}

#[test]
fn a_foreign_notification_is_passed_over() {
    let arrival = Arrival::Notification { uuid: 7, value: vec![1, 2, 3] };
    assert_eq!(next_step(&arrival), NextStep::WaitAgain);
    let frame = vec![27, 132, 112, 177, 140, 162, 23, 118, 102, 170, 59];
    let arrival = Arrival::Notification { uuid: DMM_CHARACTERISTIC_UUID + 1, value: frame };
    assert_eq!(next_step(&arrival), NextStep::WaitAgain);
}

#[test]
fn a_notification_of_the_meter_is_decoded() {
    let frame = vec![27, 132, 112, 177, 140, 162, 23, 118, 102, 170, 59];
    let expected = Measurement::from_bytes(&frame).unwrap();
    let arrival = Arrival::Notification { uuid: DMM_CHARACTERISTIC_UUID, value: frame };
    assert_eq!(next_step(&arrival), NextStep::Deliver(expected));
    let arrival = Arrival::Notification { uuid: DMM_CHARACTERISTIC_UUID, value: vec![1, 2] };
    assert_eq!(
        next_step(&arrival),
        NextStep::Fail(EventError::Decode(DecodeError::LengthError))
    );
}
