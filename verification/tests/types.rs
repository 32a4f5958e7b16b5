use battery_control::types::{Reading, SwitchId, Unit, UnknownId};

#[test]
fn reading_id_roundtrip() {
    assert_eq!(Reading::PowerIn.to_string(), "power_in");
    assert_eq!("soc".parse::<Reading>(), Ok(Reading::Soc));
    assert!("nope".parse::<Reading>().is_err());
    assert_eq!(Reading::Voltage.unit(), Unit::Volt);
}

#[test]
fn every_reading_and_switch_parses_back_from_its_id() {
    for r in Reading::all() {
        assert_eq!(r.id().parse::<Reading>(), Ok(r));
    }
    for w in SwitchId::all() {
        assert_eq!(w.id().parse::<SwitchId>(), Ok(w));
    }
    assert_eq!("Charging".parse::<SwitchId>(), Err(UnknownId));
}

#[test]
fn labels_units_and_symbols() {
    assert_eq!(Reading::PowerIn.label(), "Power in");
    assert_eq!(Reading::SocLimitMin.label(), "Discharge floor");
    assert_eq!(Reading::CapacityFullAh.unit(), Unit::AmpHour);
    assert_eq!(Unit::Celsius.symbol(), "°C");
    assert_eq!(Unit::Count.symbol(), "");
    assert_eq!(SwitchId::Heater.label(), "Heater");
    assert_eq!(SwitchId::Precharge.to_string(), "precharge");
}
