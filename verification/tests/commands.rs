use battery_control::capabilities::{
    Capabilities, READ_BASIC, READ_PORTS, REQUIRES_AUTH, TOGGLE_CHARGE, WRITE_SETTINGS,
};
use battery_control::auth::AuthState;
use battery_control::commands::{
    anker_capabilities, anker_cred_key, anker_switch, bind_after_check, bind_outcome, bind_start,
    daly_action, daly_capabilities, jbd_toggle, jk_capabilities, jk_write, port_toggle,
    settings_check, settings_check_answer, AnkerSwitch, BindStep, DalyAction, SettingWrite,
};
use battery_control::types::Command;
use battery_control::Error;

fn toggle(id: &str, on: bool) -> Command {
    Command::Toggle { id: id.to_string(), on }
}

fn set(id: &str, value: &str) -> Command {
    Command::SetValue { id: id.to_string(), value: value.to_string() }
}

#[test]
fn jk_writes() {
    let caps = jk_capabilities();
    assert_eq!(
        jk_write(caps, toggle("charging", false)),
        Ok(SettingWrite { id: "charging".into(), value: "off".into(), refresh_settings: false })
    );
    assert_eq!(
        jk_write(caps, toggle("smart_sleep", true)),
        Ok(SettingWrite { id: "smart_sleep".into(), value: "on".into(), refresh_settings: true })
    );
    assert_eq!(
        jk_write(caps, set("cell_ovp", "3.65")),
        Ok(SettingWrite { id: "cell_ovp".into(), value: "3.65".into(), refresh_settings: true })
    );
    let read_only = Capabilities::from_bits_truncate(READ_BASIC);
    assert_eq!(jk_write(read_only, set("cell_ovp", "3.65")), Err(Error::Unsupported));
    assert_eq!(jk_write(read_only, toggle("balancer", true)), Err(Error::Unsupported));
}

#[test]
fn station_port_toggles() {
    let caps = Capabilities::from_bits_truncate(READ_BASIC | READ_PORTS);
    let bluetti = ["ac", "dc"];
    assert_eq!(port_toggle(caps, &bluetti, toggle("ac", true)), Ok(("ac".to_string(), true)));
    assert_eq!(
        port_toggle(caps, &bluetti, toggle("usb", true)),
        Err(Error::InvalidArgument("'usb' is not controllable on this device".into()))
    );
    assert_eq!(port_toggle(caps, &bluetti, set("x", "1")), Err(Error::Unsupported));
    let jackery = ["ac", "dc", "usb", "car"];
    assert_eq!(port_toggle(caps, &jackery, toggle("car", false)), Ok(("car".to_string(), false)));
    assert_eq!(
        port_toggle(Capabilities::empty(), &jackery, toggle("car", false)),
        Err(Error::Unsupported)
    );
}

#[test]
fn jbd_and_daly() {
    let caps = Capabilities::from_bits_truncate(TOGGLE_CHARGE);
    assert_eq!(jbd_toggle(caps, toggle("charging", true)), Ok(("charging".to_string(), true)));
    assert_eq!(jbd_toggle(caps, toggle("discharging", true)), Err(Error::Unsupported));
    assert_eq!(jbd_toggle(caps, toggle("heater", true)), Err(Error::Unsupported));
    assert_eq!(jbd_toggle(caps, set("soc", "50")), Err(Error::Unsupported));

    let d = daly_capabilities();
    assert_eq!(daly_action(d, toggle("discharging", false)), Ok(DalyAction::Discharge(false)));
    assert_eq!(daly_action(d, toggle("charging", true)), Ok(DalyAction::Charge(true)));
    assert_eq!(daly_action(d, set("soc", "55")), Ok(DalyAction::Soc("55".into())));
    assert_eq!(daly_action(d, set("charge_limit", "80")), Ok(DalyAction::Soc("80".into())));
    assert_eq!(daly_action(d, set("light", "high")), Err(Error::Unsupported));
    assert_eq!(
        daly_action(d, toggle("heater", true)),
        Err(Error::InvalidArgument("'heater' is not controllable on this device".into()))
    );
}

#[test]
fn anker_routing() {
    assert_eq!(anker_switch("ac"), Ok(AnkerSwitch::Ac));
    assert_eq!(anker_switch("screensaver"), Ok(AnkerSwitch::Screensaver));
    assert!(anker_switch("smart_ac").unwrap().needs_auth());
    assert!(!anker_switch("light").unwrap().needs_auth());
    assert_eq!(
        anker_switch("usb_c1"),
        Err(Error::InvalidArgument("'usb_c1' is not controllable on this device".into()))
    );
    assert_eq!(anker_capabilities(true).bits & REQUIRES_AUTH, REQUIRES_AUTH);
    assert_eq!(anker_capabilities(false).bits & REQUIRES_AUTH, 0);
    assert_eq!(anker_capabilities(false).bits & WRITE_SETTINGS, WRITE_SETTINGS);
    assert_eq!(anker_cred_key(Some("SN1"), Some("C1000")), "anker:SN1");
    assert_eq!(anker_cred_key(None, Some("C1000")), "anker:C1000");
    assert_eq!(anker_cred_key(None, None), "anker:anker");
}

#[test]
fn anker_bind_flow() {
    assert_eq!(bind_start(false, true), BindStep::Done);
    assert_eq!(bind_start(true, false), BindStep::Done);
    assert_eq!(bind_start(true, true), BindStep::AskBinding);
    assert_eq!(bind_after_check(0, false), BindStep::Bound);
    assert_eq!(bind_after_check(0x01, false), BindStep::Bond);
    assert_eq!(bind_after_check(0x01, true), BindStep::Prompt);
    assert_eq!(bind_outcome(BindStep::Bound), Some(AuthState::Authed));
    assert_eq!(bind_outcome(BindStep::Done), Some(AuthState::Authed));
    assert_eq!(
        bind_outcome(BindStep::Prompt),
        Some(AuthState::approval(
            "Press and hold the power button on your Anker for ~3s, then tap Retry."
        ))
    );
    assert_eq!(bind_outcome(BindStep::Bond), None);
    assert_eq!(settings_check(true, false), Ok(false));
    assert_eq!(settings_check(false, true), Ok(true));
    assert_eq!(
        settings_check(false, false),
        Err(Error::Backend("this Anker model has no secure channel for settings".into()))
    );
    assert_eq!(settings_check_answer(0), Ok(()));
    assert!(matches!(settings_check_answer(2), Err(Error::Backend(_))));
}
