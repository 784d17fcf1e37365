//! The decisions of a session with the meter. Scanning, connecting and
//! waiting for notifications are the caller's; what to make of a device
//! name, a list of characteristics or an arrival is decided here.

use vstd::prelude::*;
use vstd::string::StringExecFns;
use crate::error::{DecodeError, DmmError};
use crate::keystream::FRAME_LEN;
use crate::measurement::{decodes_to, Measurement};

verus! {

/// The name under which the meter advertises itself.
pub const DMM_NAME: &'static str = "Bluetooth DMM";

/// The characteristic on which the meter notifies its frames, as the
/// number of its UUID.
pub const DMM_CHARACTERISTIC_UUID: u128 = 0x0000fff4_0000_1000_8000_00805f9b34fb;

/// Whether a device of this name is the meter.
pub fn is_dmm_name(name: &str) -> (is_dmm: bool)
    ensures
        is_dmm == (name@ == DMM_NAME@),
{
    String::from_str(name) == String::from_str(DMM_NAME)
}

/// The first characteristic of a device that is the meter's, by its place
/// in the list; `None` where the device has none.
pub fn find_dmm_characteristic(uuids: &[u128]) -> (place: Option<usize>)
    ensures
        match place {
            Some(index) => {
                &&& index < uuids@.len()
                &&& uuids@[index as int] == DMM_CHARACTERISTIC_UUID
                &&& forall|j: int| 0 <= j < index ==> uuids@[j] != DMM_CHARACTERISTIC_UUID
            },
            None => forall|j: int| 0 <= j < uuids@.len() ==> uuids@[j] != DMM_CHARACTERISTIC_UUID,
        },
{
    let mut index: usize = 0;
    while index < uuids.len()
        invariant
            index <= uuids@.len(),
            forall|j: int| 0 <= j < index ==> uuids@[j] != DMM_CHARACTERISTIC_UUID,
        decreases uuids@.len() - index,
    {
        if uuids[index] == DMM_CHARACTERISTIC_UUID {
            return Some(index);
        }
        index += 1;
    }
    None
}

/// What a wait for the next notification ended with.
#[derive(Debug, Clone, PartialEq, Eq)]
pub enum Arrival {
    /// Nothing arrived within the time allowed.
    TimedOut,
    /// The stream of notifications ended.
    StreamEnded,
    /// A notification arrived on the characteristic `uuid`.
    Notification { uuid: u128, value: Vec<u8> },
}

/// Why no measurement comes of an arrival.
#[derive(Debug, Clone, PartialEq, Eq)]
pub enum EventError {
    TimedOut,
    Device(DmmError),
    Decode(DecodeError),
}

/// What to do after an arrival.
#[derive(Debug, Clone, PartialEq, Eq)]
pub enum NextStep {
    /// The notification was not the meter's: wait for the next one.
    WaitAgain,
    /// Hand the measurement to the caller.
    Deliver(Measurement),
    /// Give up with this error.
    Fail(EventError),
}

/// Whether `step` is what an arrival calls for: a timeout and the end of
/// the stream fail, a notification on another characteristic is passed
/// over, and a notification of the meter is decoded.
pub open spec fn step_for(arrival: Arrival, step: NextStep) -> bool {
    match arrival {
        Arrival::TimedOut => step == NextStep::Fail(EventError::TimedOut),
        Arrival::StreamEnded => step == NextStep::Fail(
            EventError::Device(DmmError::DeviceDisconnected),
        ),
        Arrival::Notification { uuid, value } => if uuid != DMM_CHARACTERISTIC_UUID {
            step == NextStep::WaitAgain
        } else if value@.len() == FRAME_LEN {
            step matches NextStep::Deliver(measurement) && decodes_to(
                value@,
                Ok::<Measurement, DecodeError>(measurement),
            )
        } else {
            step == NextStep::Fail(EventError::Decode(DecodeError::LengthError))
        },
    }
}

/// Decides what follows an arrival.
pub fn next_step(arrival: &Arrival) -> (step: NextStep)
    ensures
        step_for(*arrival, step),
{
    match arrival {
        Arrival::TimedOut => NextStep::Fail(EventError::TimedOut),
        Arrival::StreamEnded => NextStep::Fail(EventError::Device(DmmError::DeviceDisconnected)),
        Arrival::Notification { uuid, value } => {
            if *uuid != DMM_CHARACTERISTIC_UUID {
                NextStep::WaitAgain
            } else {
                match Measurement::from_bytes(value.as_slice()) {
                    Ok(measurement) => NextStep::Deliver(measurement),
                    Err(error) => NextStep::Fail(EventError::Decode(error)),
                }
            }
        },
    }
}

} // verus!
