use clouddesk::hostkeys::{keyscan_candidates, select_host_keys, OfferedKey};

const SCAN: &str = "# example.org:22 SSH-2.0-OpenSSH_9.6\n\
example.org ssh-rsa AAAARSA\n\
example.org ssh-ed25519 AAAAED1\r\n\
example.org ssh-dss AAAADSS\n\
\n\
example.org ecdsa-sha2-nistp256\n\
example.org ssh-ed25519 AAAAED2\n";

#[test]
fn keyscan_lines_offer_supported_keys_in_order() {
    let offers = keyscan_candidates(SCAN);
    let pairs: Vec<(&str, &str)> = offers
        .iter()
        .map(|k| (k.key_type.as_str(), k.key_base64.as_str()))
        .collect();
    assert_eq!(
        pairs,
        vec![
            ("ssh-rsa", "AAAARSA"),
            ("ssh-ed25519", "AAAAED1"),
            ("ssh-ed25519", "AAAAED2"),
        ]
    );
}

#[test]
fn one_fingerprinted_key_is_kept_per_type() {
    let offers = keyscan_candidates(SCAN);
    let kept = select_host_keys(
        offers.clone(),
        vec![Some("SHA256:rsa".into()), None, Some("SHA256:ed2".into())],
    )
    .unwrap();
    let summary: Vec<(&str, &str)> = kept
        .iter()
        .map(|k| (k.key_type.as_str(), k.fingerprint.as_str()))
        .collect();
    assert_eq!(summary, vec![("ssh-rsa", "SHA256:rsa"), ("ssh-ed25519", "SHA256:ed2")]);

    let kept = select_host_keys(
        offers,
        vec![Some("a".into()), Some("b".into()), Some("c".into())],
    )
    .unwrap();
    assert_eq!(kept.len(), 2);
    assert_eq!(kept[1].key_base64, "AAAAED1");
}

#[test]
fn a_scan_without_usable_keys_is_a_bad_gateway() {
    let offers = vec![OfferedKey { key_type: "ssh-rsa".into(), key_base64: "x".into() }];
    let err = select_host_keys(offers, vec![None]).unwrap_err();
    assert_eq!(err.status, 502);
    assert_eq!(err.public_message, "remote host returned no supported SSH host key");
    assert!(keyscan_candidates("# only a comment\n").is_empty());
}
