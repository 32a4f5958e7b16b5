use battery_control::credentials::{decode_hex, encode_hex, CredentialCache, FileStore};

#[test]
fn file_store_roundtrip() {
    let path = "bc_cred_test/credentials.json".to_string();
    let mut store = FileStore::new(path.clone(), None);
    assert_eq!(store.load("anker:SN123"), None);
    let text = store.save("anker:SN123", b"ankerrs");
    assert_eq!(store.load("anker:SN123"), Some(b"ankerrs".to_vec()));

    // Reload from the written text in a fresh instance.
    let mut store2 = FileStore::new(path, Some(&text));
    assert_eq!(store2.load("anker:SN123"), Some(b"ankerrs".to_vec()));
    let written = store2.delete("anker:SN123");
    assert!(written.is_some());
    assert_eq!(store2.load("anker:SN123"), None);
}

#[test]
fn hex_encoding() {
    assert_eq!(encode_hex(&[0x00, 0x0f, 0xa5, 0xff]), "000fa5ff");
    assert_eq!(encode_hex(&[]), "");
    assert_eq!(decode_hex("000fa5ff"), Some(vec![0x00, 0x0f, 0xa5, 0xff]));
    assert_eq!(decode_hex("000FA5FF"), Some(vec![0x00, 0x0f, 0xa5, 0xff]));
    assert_eq!(decode_hex(""), Some(vec![]));
    assert_eq!(decode_hex("abc"), None);
    assert_eq!(decode_hex("zz"), None);
    assert_eq!(decode_hex("+f"), Some(vec![0x0f]));
    let all: Vec<u8> = (0..=255).collect();
    assert_eq!(decode_hex(&encode_hex(&all)), Some(all));
}

#[test]
fn file_text_format() {
    let mut c = CredentialCache::new();
    c.save("a", b"\x01");
    c.save("b", b"\x02\x03");
    c.save("a", b"\x04");
    assert_eq!(c.render(), "b\t0203\na\t04\n");
    assert_eq!(c.get("b").as_deref(), Some("0203"));
    assert!(c.delete("a"));
    assert!(!c.delete("a"));
    assert_eq!(c.render(), "b\t0203\n");
}

#[test]
fn parse_skips_lines_without_tab_and_later_lines_win() {
    let c = CredentialCache::parse("junk\nk\tv1\r\nk2\tx\ty\nk\tv2");
    assert_eq!(c.get("k").as_deref(), Some("v2"));
    assert_eq!(c.get("k2").as_deref(), Some("x\ty"));
    assert_eq!(c.get("junk"), None);
    assert_eq!(c.load("k2"), None);
}

#[test]
fn delete_of_absent_key_writes_nothing() {
    let mut s = FileStore::new("p".to_string(), Some("a\t01\n"));
    assert_eq!(s.delete("b"), None);
    assert_eq!(s.path(), "p");
    assert_eq!(s.delete("a").as_deref(), Some(""));
}

#[test]
fn saved_key_reloads_whatever_other_keys_hold() {
    let mut store = FileStore::new("p".to_string(), None);
    store.save("x\nk", b"\x09");
    store.save("k", b"\x01\x02");
    store.save("x\nk", b"\x07");
    let text = store.save("k", b"\x01\x02");
    let fresh = FileStore::new("p".to_string(), Some(&text));
    assert_eq!(fresh.load("k"), Some(vec![0x01, 0x02]));
}
