use battery_control::auth::{AuthInput, AuthState};
use battery_control::capabilities::{
    require, Capabilities, ALL_FLAGS, READ_ALARMS, READ_BASIC, READ_CELLS, REQUIRES_AUTH,
    TOGGLE_CHARGE, WRITE_SETTINGS,
};
use battery_control::Error;

#[test]
fn auth_states() {
    assert!(AuthState::Authed.is_authed());
    let a = AuthState::approval("press & hold the power button");
    assert!(!a.is_authed());
    assert_eq!(
        a,
        AuthState::PendingApproval {
            message: "press & hold the power button".to_string()
        }
    );
    let p = AuthState::pin(String::from("enter the PIN"));
    assert_eq!(
        p,
        AuthState::PinCode {
            message: "enter the PIN".to_string()
        }
    );
    assert_eq!(AuthInput::Pin("1234".to_string()).pin(), Some("1234"));
    assert_eq!(AuthInput::NoInput.pin(), None);
    assert_eq!(AuthInput::default().pin(), None);
}

#[test]
fn capability_sets() {
    let read_only = Capabilities::from_bits_truncate(READ_BASIC | READ_CELLS | READ_ALARMS);
    assert!(!read_only.is_controllable());
    assert!(read_only.contains(Capabilities::from_bits_truncate(READ_BASIC)));
    assert!(!read_only.contains(Capabilities::from_bits_truncate(READ_BASIC | TOGGLE_CHARGE)));
    let ctl = read_only.union(Capabilities::from_bits_truncate(WRITE_SETTINGS));
    assert!(ctl.is_controllable());
    assert!(ctl.intersects(Capabilities::from_bits_truncate(WRITE_SETTINGS | TOGGLE_CHARGE)));
    // Requiring auth alone does not make a backend controllable.
    assert!(!Capabilities::from_bits_truncate(REQUIRES_AUTH).is_controllable());
    assert_eq!(Capabilities::from_bits_truncate(u32::MAX).bits, ALL_FLAGS);
    assert_eq!(Capabilities::empty().bits, 0);
}

#[test]
fn require_gates_commands() {
    let caps = Capabilities::from_bits_truncate(READ_BASIC | TOGGLE_CHARGE);
    assert_eq!(require(caps, Capabilities::from_bits_truncate(TOGGLE_CHARGE)), Ok(()));
    assert_eq!(
        require(caps, Capabilities::from_bits_truncate(WRITE_SETTINGS)),
        Err(Error::Unsupported)
    );
    assert_eq!(require(caps, Capabilities::empty()), Ok(()));
}
