use slurm_harray::{id_from_serialised, identity};

#[test]
fn identity_of_empty_serialisation() {
    assert_eq!(id_from_serialised(""), "ZCvCOPT8kD5vSsaaASsOjjak9oJwopvChrX9XN");
}

#[test]
fn identity_of_a_record() {
    assert_eq!(id_from_serialised("{\"a\":1,\"b\":2}"), "QMCICVxK2xwmtxBRhIF0ubfWyK6Ofmv1bO4IcE");
    assert_eq!(
        id_from_serialised("{\"epsilon\":0.0001,\"cpus\":1}"),
        "Tuiw57cxwpBhE1cJksfNzjT4HfrVBmdDlxYWsH"
    );
}

#[test]
fn identity_is_deterministic() {
    let s = "{\"epsilon\":0.0001,\"cpus\":1,\"frob\":true}";
    let first = id_from_serialised(s);
    for _ in 0..5 {
        assert_eq!(id_from_serialised(s), first);
        assert_eq!(identity(s, None), first);
    }
}

#[test]
fn identity_is_alphanumeric() {
    for s in ["", "x", "{\"a\":1}", "{\"name\":\"../../etc\"}", "ünïcödé"] {
        let id = id_from_serialised(s);
        assert!(!id.is_empty());
        assert!(id.chars().all(|c| c.is_ascii_alphanumeric()));
    }
}

#[test]
fn identity_is_sensitive_to_values() {
    let mut seen: Vec<String> = Vec::new();
    for i in 0..200 {
        let id = id_from_serialised(&format!("{{\"index\":{}}}", i));
        assert!(!seen.contains(&id));
        seen.push(id);
    }
}

#[test]
fn identity_is_sensitive_to_field_order() {
    let ab = id_from_serialised("{\"a\":1,\"b\":2}");
    let ba = id_from_serialised("{\"b\":2,\"a\":1}");
    assert_eq!(ba, "upK2673afkK3K2suY7vxB7XvvBkVdGgB6cmv3F");
    assert_ne!(ab, ba);
}

#[test]
fn identity_override_takes_precedence() {
    assert_eq!(identity("{\"a\":1}", Some("my-run")), "my-run");
    assert_eq!(identity("{\"b\":2}", Some("my-run")), "my-run");
}

#[test]
fn identity_empty_override_is_ignored() {
    assert_eq!(identity("{\"a\":1,\"b\":2}", Some("")), "QMCICVxK2xwmtxBRhIF0ubfWyK6Ofmv1bO4IcE");
}

#[test]
fn hashed_identity_has_fixed_length() {
    for s in ["", "{\"a\":1}", "{\"a\":1,\"b\":2,\"c\":[1,2,3]}"] {
        assert_eq!(id_from_serialised(s).len(), 38);
    }
}
