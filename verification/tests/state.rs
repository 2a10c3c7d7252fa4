use nrf_unifying::state::{Device, KeyReport, PairingParams, UnifyingState};
use nrf_unifying::storage::Profile;

fn profile() -> Profile {
    Profile {
        address: [1, 2, 3, 4, 5],
        aes_key: [7; 16],
        aes_counter: 0xdead_beef,
        channel: 32,
    }
}

#[test]
fn fresh_state() {
    let state = UnifyingState::new(5);
    assert_eq!(
        state.device,
        Device { address: [0; 5], aes_key: [0; 16], aes_counter: 0, channel: 5 }
    );
    assert!(!state.paired);
    assert!(!state.connected);
}

#[test]
fn profile_is_restored_and_saved() {
    let mut state = UnifyingState::new(5);
    state.apply_profile(&profile());
    assert!(state.paired);
    assert!(!state.connected);
    assert_eq!(state.current_profile(), profile());
    assert_eq!(UnifyingState::restored(5, Some(profile())), state);
    assert_eq!(UnifyingState::restored(5, None), UnifyingState::new(5));
}

#[test]
fn pairing_parameters() {
    let params = PairingParams::from_ticks(0x1234, 0x9_8765_4321);
    assert_eq!(params.id, 0x35);
    assert_eq!(params.crypto, 0x8765_4321);
    assert_eq!(params.product_id, 0x1025);
    assert_eq!(params.device_type, 0x0147);
    assert_eq!(params.serial, 0xA580_94B6);
    assert_eq!(params.capabilities, 0x1E40);
    assert_eq!(&params.name, b"RustKbd");
    assert_eq!(PairingParams::from_ticks(0xff, 0).id, 0xff);
}

#[test]
fn key_reports() {
    assert_eq!(KeyReport::press(0x04, true), KeyReport { modifier: 2, keys: [4, 0, 0, 0, 0, 0] });
    assert_eq!(KeyReport::press(0x04, false), KeyReport { modifier: 0, keys: [4, 0, 0, 0, 0, 0] });
    assert_eq!(KeyReport::release(), KeyReport { modifier: 0, keys: [0; 6] });
}
