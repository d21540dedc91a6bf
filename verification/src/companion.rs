//! The companion that pairs over the first version of QuantumLink: it asks to be paired, waits for
//! the answer, reports its status once, and is done.

use vstd::prelude::*;

verus! {

/// What the device sent.
#[derive(Debug, Clone, Copy, PartialEq, Eq, Structural)]
pub enum DeviceMessage {
    /// It has paired with us.
    PairingResponse,
    /// Something else.
    Other,
}

/// What to do next.
#[derive(Debug, PartialEq, Eq)]
pub enum NextStep {
    /// Send a pairing request under this name.
    RequestPairing { device_name: String },
    /// Send a status with this version, and stop.
    SendStatus { version: String },
    /// Wait for the next message.
    Wait,
}

/// What the companion does first: it asks to be paired.
pub fn introduce() -> (n: NextStep)
    ensures
        n matches NextStep::RequestPairing { device_name } && device_name@ == "ql-link-lab v1"@,
{
    NextStep::RequestPairing { device_name: "ql-link-lab v1".to_owned() }
}

/// What the companion does about a message: it reports its status once it is paired, and passes
/// over whatever comes before.
pub fn react(message: DeviceMessage) -> (n: NextStep)
    ensures
        match message {
            DeviceMessage::PairingResponse => n matches NextStep::SendStatus { version }
                && version@ == "ql-link-lab/0.1"@,
            DeviceMessage::Other => n is Wait,
        },
{
    match message {
        DeviceMessage::PairingResponse => NextStep::SendStatus {
            version: "ql-link-lab/0.1".to_owned(),
        },
        DeviceMessage::Other => NextStep::Wait,
    }
}

} // verus!
