use battery_control::cli::{
    build_command, monitor_step, nice, on_off, port_state, push_row, MonitorAction, MonitorEvent,
};
use battery_control::module::{MybmmModule, MYBMM_CHARGE_CONTROL, MYBMM_MODTYPE_CELLMON};
use battery_control::types::{Command, PortDirection};

#[test]
fn toggles_and_sets() {
    match build_command("Charge-Limit", "80").unwrap() {
        Command::SetValue { id, value } => {
            assert_eq!(id, "charge_limit");
            assert_eq!(value, "80");
        }
        _ => panic!("expected a set"),
    }
    match build_command("AC", "ON").unwrap() {
        Command::Toggle { id, on } => {
            assert_eq!(id, "ac");
            assert!(on);
        }
        _ => panic!("expected a toggle"),
    }
    for v in ["off", "False", "0"] {
        assert!(matches!(build_command("dc", v).unwrap(), Command::Toggle { on: false, .. }));
    }
    for v in ["on", "TRUE", "1"] {
        assert!(matches!(build_command("dc", v).unwrap(), Command::Toggle { on: true, .. }));
    }
    match build_command("light", "High").unwrap() {
        Command::SetValue { value, .. } => assert_eq!(value, "High"),
        _ => panic!("expected a set"),
    }
}

#[test]
fn nice_labels() {
    assert_eq!(nice("power_in"), "Power in");
    assert_eq!(nice("temp.mosfet"), "Temp mosfet");
    assert_eq!(nice(""), "");
    assert_eq!(nice("éa_b"), "éa b");
    assert_eq!(nice("_x"), " x");
}

#[test]
fn report_rows() {
    let mut out = Vec::new();
    push_row(&mut out, "SOC:", "87 %");
    let s: String = out.iter().collect();
    assert_eq!(s, format!("{:<20} {}\n", "SOC:", "87 %"));
    let mut long = Vec::new();
    push_row(&mut long, "A very long key name here:", "x");
    let l: String = long.iter().collect();
    assert_eq!(l, "A very long key name here: x\n");
    assert_eq!(on_off(true), "on");
    assert_eq!(on_off(false), "off");
    assert_eq!(port_state(Some(true), Some(PortDirection::Out)), "on out");
    assert_eq!(port_state(None, None), "-");
    assert_eq!(port_state(Some(false), Some(PortDirection::Bidir)), "off io");
    assert_eq!(port_state(Some(false), Some(PortDirection::In)), "off in");
}

#[test]
fn module_descriptors() {
    let m = MybmmModule::new("jk", MYBMM_CHARGE_CONTROL);
    assert_eq!(m.module_type, MYBMM_MODTYPE_CELLMON);
    assert_eq!(m.name, "jk");
    assert_eq!(m.capabilities, 1);
    let t = MybmmModule::with_type(7, "x", 6);
    assert_eq!((t.module_type, t.name, t.capabilities), (7, "x", 6));
}

#[test]
fn monitor_prints_changes_at_most_once_per_interval() {
    assert_eq!(monitor_step(false, MonitorEvent::Update, None, 2000), (false, MonitorAction::Print));
    assert_eq!(monitor_step(false, MonitorEvent::Update, Some(500), 2000), (true, MonitorAction::Wait));
    assert_eq!(monitor_step(true, MonitorEvent::Tick, Some(1999), 2000), (true, MonitorAction::Wait));
    assert_eq!(monitor_step(true, MonitorEvent::Tick, Some(2000), 2000), (false, MonitorAction::Print));
    assert_eq!(monitor_step(false, MonitorEvent::Tick, Some(9000), 2000), (false, MonitorAction::Wait));
    assert_eq!(monitor_step(true, MonitorEvent::Failed, Some(9000), 2000), (true, MonitorAction::Stop));
    assert_eq!(monitor_step(false, MonitorEvent::Ended, None, 2000), (false, MonitorAction::Stop));
}
