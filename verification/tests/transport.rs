use imbuia::transport::{identity_from_pem, new_identity_key, split_host_port};

fn fresh_pem() -> String {
    new_identity_key().unwrap()
}

#[test]
fn fingerprint_is_stable_across_cert_regen_same_key() {
    // Two identities loaded from the SAME key (cert rebuilt each time) must
    // share a fingerprint — that's what makes TOFU work.
    let pem = fresh_pem();
    let a = identity_from_pem(&pem).unwrap();
    let b = identity_from_pem(&pem).unwrap();
    assert_eq!(a.fingerprint, b.fingerprint);
    assert_eq!(a.fingerprint.len(), 64); // sha256 hex
    assert!(a.fingerprint.chars().all(|c| c.is_ascii_hexdigit()));
}

#[test]
fn distinct_keys_have_distinct_fingerprints() {
    let a = identity_from_pem(&fresh_pem()).unwrap();
    let b = identity_from_pem(&fresh_pem()).unwrap();
    assert_ne!(a.fingerprint, b.fingerprint);
}

#[test]
fn split_host_port_forms() {
    assert_eq!(split_host_port("h:1").unwrap(), ("h".into(), "1".into()));
    assert_eq!(
        split_host_port("example.com:7777").unwrap(),
        ("example.com".into(), "7777".into())
    );
    assert_eq!(split_host_port("[::1]:22").unwrap(), ("::1".into(), "22".into()));
    assert!(split_host_port("noport").is_err());
}
