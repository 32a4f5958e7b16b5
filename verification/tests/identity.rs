use battery_control::identity::{fill_jbd_info, fill_sok_info, Identity};
use battery_control::types::DeviceInfo;

fn info(backend: &str) -> DeviceInfo {
    DeviceInfo { backend: backend.to_string(), ..Default::default() }
}

#[test]
fn sok_identity_prefers_protocol_model_then_name() {
    let id = Identity {
        name: Some("SOK-AA52810".into()),
        manufacturer: Some("SOK".into()),
        model: Some("BK-BLE-1.0".into()),
        serial: None,
        firmware: Some("1.2".into()),
        hardware: None,
    };
    let mut i = info("sok");
    fill_sok_info(&mut i, &id, &None, &Some("SN9".into()));
    assert_eq!(i.model.as_deref(), Some("SOK-AA52810"));
    assert_eq!(i.serial.as_deref(), Some("SN9"));
    assert_eq!(i.manufacturer.as_deref(), Some("SOK"));
    assert_eq!(i.firmware.as_deref(), Some("1.2"));
    assert_eq!(i.hardware, None);
    assert_eq!(i.backend, "sok");

    let mut j = info("sok");
    fill_sok_info(&mut j, &id, &Some("SK12V100".into()), &None);
    assert_eq!(j.model.as_deref(), Some("SK12V100"));

    let mut k = info("sok");
    fill_sok_info(&mut k, &Identity::default(), &None, &None);
    assert_eq!(k.model.as_deref(), Some("SOK"));
    // Known fields are kept on later reads.
    fill_sok_info(&mut k, &id, &Some("other".into()), &None);
    assert_eq!(k.model.as_deref(), Some("SOK"));
    assert_eq!(k.manufacturer.as_deref(), Some("SOK"));
}

#[test]
fn jbd_identity_model() {
    let mut a = info("jbd");
    fill_jbd_info(&mut a, &Identity::default(), "JBD");
    assert_eq!(a.model, None);
    fill_jbd_info(&mut a, &Identity::default(), "JBD-SP04S034");
    assert_eq!(a.model.as_deref(), Some("JBD-SP04S034"));
    let mut b = info("jbd");
    let named = Identity { name: Some("xiaoxiang".into()), serial: Some("S1".into()), ..Default::default() };
    fill_jbd_info(&mut b, &named, "JBD");
    assert_eq!(b.model.as_deref(), Some("xiaoxiang"));
    assert_eq!(b.serial.as_deref(), Some("S1"));
}
