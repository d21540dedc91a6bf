use ql_link_lab::companion::{introduce, react, DeviceMessage, NextStep};

#[test]
fn the_companion_pairs_and_reports_once() {
    assert_eq!(
        introduce(),
        NextStep::RequestPairing {
            device_name: "ql-link-lab v1".to_string()
        }
    );
    assert_eq!(react(DeviceMessage::Other), NextStep::Wait);
    assert_eq!(
        react(DeviceMessage::PairingResponse),
        NextStep::SendStatus {
            version: "ql-link-lab/0.1".to_string()
        }
    );
}
