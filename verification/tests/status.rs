use battery_control::status::{
    alarms_changed, standard_switch, switch_changes, switch_state, upsert_switch,
};
use battery_control::types::{Switch, SwitchId};

fn sw(id: &str, on: bool) -> Switch {
    Switch { id: id.to_string(), label: None, on }
}

#[test]
fn only_changed_switches_are_emitted() {
    let prev = vec![sw("charging", true), sw("discharging", true)];
    let new = vec![sw("charging", true), sw("discharging", false), sw("heater", true)];
    let changes = switch_changes(&new, Some(&prev));
    assert_eq!(changes, vec![sw("discharging", false), sw("heater", true)]);
    assert_eq!(switch_changes(&new, None), new);
    let relabeled = vec![Switch { id: "charging".into(), label: Some("Charge".into()), on: true }];
    assert_eq!(switch_changes(&relabeled, Some(&prev)).len(), 1);
}

#[test]
fn folding_changes_restores_the_new_switches() {
    let prev = vec![sw("charging", true), sw("discharging", true), sw("balancer", false)];
    let new = vec![sw("discharging", false), sw("charging", true), sw("heater", true)];
    let mut live = prev.clone();
    for u in switch_changes(&new, Some(&prev)) {
        upsert_switch(&mut live, &u);
    }
    assert_eq!(
        live,
        vec![sw("charging", true), sw("discharging", false), sw("balancer", false), sw("heater", true)]
    );
}

#[test]
fn alarm_list_changes() {
    let a = vec!["cell 0 voltage: High".to_string()];
    assert!(alarms_changed(&a, None));
    assert!(!alarms_changed(&[], None));
    assert!(!alarms_changed(&a, Some(&a)));
    assert!(alarms_changed(&[], Some(&a)));
    assert!(alarms_changed(&["x".to_string()], Some(&["y".to_string()])));
}

#[test]
fn standard_switches_carry_id_and_label() {
    let s = standard_switch(SwitchId::Charging, true);
    assert_eq!(s.id, "charging");
    assert_eq!(s.label.as_deref(), Some(SwitchId::Charging.label()));
    assert!(s.on);
}

#[test]
fn switch_state_reads_the_first_match() {
    let v = vec![sw("charging", true), sw("heater", false), sw("charging", false)];
    assert_eq!(switch_state(&v, "charging"), Some(true));
    assert_eq!(switch_state(&v, "heater"), Some(false));
    assert_eq!(switch_state(&v, "balancer"), None);
    assert_eq!(switch_state(&[], "charging"), None);
}
