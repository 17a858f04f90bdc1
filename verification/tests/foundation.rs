//! Knobs, lifecycle, catalog, base64, identifiers, secrets, hot pools.

use sandboxd::base64;
use sandboxd::catalog::{classify, ImageClass};
use sandboxd::hotpool::{HotPools, ShapeKey};
use sandboxd::ids;
use sandboxd::knobs::{validate_auto_stop, Resources, ResourcesRequest};
use sandboxd::lifecycle::State;
use sandboxd::model::domain_matches;
use sandboxd::secrets;

#[test]
fn default_is_cheap_path() {
    let r = Resources::validate(&ResourcesRequest::default()).unwrap();
    assert_eq!(r, Resources::default());
    assert_eq!(r.cpu_milli, 1000);
    assert_eq!(r.memory_mb, 2048);
    assert_eq!(r.disk_gb, 8);
}

#[test]
fn rejects_arbitrary_memory() {
    let req = ResourcesRequest { memory_mb: Some(13 * 1024), ..Default::default() };
    assert_eq!(
        Resources::validate(&req).unwrap_err(),
        "memory_mb=13312 is not allowed; choose one of [1024, 2048, 4096, 8192, 16384] MB (1/2/4/8/16 GB)"
    );
}

#[test]
fn rejects_arbitrary_disk() {
    let req = ResourcesRequest { disk_gb: Some(250), ..Default::default() };
    assert!(Resources::validate(&req).is_err());
}

#[test]
fn accepts_half_cpu() {
    let req = ResourcesRequest { cpu_milli: Some(500), ..Default::default() };
    assert!(Resources::validate(&req).is_ok());
    assert_eq!(Resources::validate(&req).unwrap().cpu_label(), "0.5 shared vCPU");
}

#[test]
fn rejects_arbitrary_cpu() {
    let req = ResourcesRequest { cpu_milli: Some(1250), ..Default::default() };
    assert_eq!(
        Resources::validate(&req).unwrap_err(),
        "cpu=1.25 is not allowed; choose one of [0.5, 1.0, 2.0, 4.0] shared vCPU"
    );
}

#[test]
fn auto_stop_bounds() {
    assert!(validate_auto_stop(Some(29)).is_err());
    assert!(validate_auto_stop(Some(30)).is_ok());
    assert!(validate_auto_stop(Some(3600)).is_ok());
    assert!(validate_auto_stop(Some(3601)).is_err());
    assert_eq!(validate_auto_stop(None).unwrap(), 120);
}

#[test]
fn happy_path() {
    assert!(State::Creating.can_transition_to(State::Running));
    assert!(State::Running.can_transition_to(State::Stopping));
    assert!(State::Stopping.can_transition_to(State::Stopped));
    assert!(State::Stopped.can_transition_to(State::Resuming));
    assert!(State::Resuming.can_transition_to(State::Running));
    assert!(State::Running.can_transition_to(State::Deleting));
    assert!(State::Deleting.can_transition_to(State::Deleted));
}

#[test]
fn illegal_transitions_rejected() {
    assert!(!State::Stopped.can_transition_to(State::Running)); // must go via resuming
    assert!(!State::Deleted.can_transition_to(State::Running));
    assert!(!State::Running.can_transition_to(State::Stopped)); // must go via stopping
}

#[test]
fn state_names_parse_back() {
    for s in [
        State::Creating,
        State::Running,
        State::Stopping,
        State::Stopped,
        State::Standby,
        State::Resuming,
        State::Deleting,
        State::Deleted,
        State::Failed,
    ] {
        assert_eq!(State::parse(s.as_str()), Some(s));
    }
    assert_eq!(State::parse("paused"), None);
}

#[test]
fn classify_curated_and_custom() {
    assert_eq!(classify("base").unwrap(), ImageClass::Base);
    assert_eq!(classify("browser").unwrap(), ImageClass::Browser);
    assert!(matches!(classify("custom/acme/app:2026-06-10").unwrap(), ImageClass::Custom(_)));
    assert!(classify("ubuntu").is_err());
}

#[test]
fn browser_costs_more_than_base() {
    assert!(ImageClass::Browser.default_multiplier() > ImageClass::Base.default_multiplier());
}

#[test]
fn domain_wildcards_match_one_label_only() {
    assert!(domain_matches("*.example.com", "api.example.com"));
    assert!(!domain_matches("*.example.com", "deep.api.example.com"));
    assert!(!domain_matches("*.example.com", "example.com"));
    assert!(domain_matches("api.example.com", "api.example.com."));
}

#[test]
fn base64_roundtrip() {
    for input in [&b""[..], b"a", b"ab", b"abc", b"abcd", b"hello world \x00\xff\xfe"] {
        assert_eq!(
            base64::decode(&base64::encode(input)).unwrap(),
            input,
            "roundtrip {input:?}"
        );
    }
}

#[test]
fn base64_known_values() {
    assert_eq!(base64::encode(b"Man"), "TWFu");
    assert_eq!(base64::encode(b"Ma"), "TWE=");
    assert_eq!(base64::encode(b"M"), "TQ==");
    assert_eq!(base64::encode(&[0xfb, 0xff]), "+/8=");
    assert_eq!(base64::decode(" TW\nFu ").unwrap(), b"Man");
    assert_eq!(base64::decode("T").unwrap(), b"");
    assert!(base64::decode("T*==").is_none());
}

#[test]
fn claim_and_refill() {
    let mut pools = HotPools::new();
    let key = ShapeKey::new("base", &Resources::default());
    pools.set_target(key.clone(), 2);
    assert_eq!(pools.deficit(&key), 2);
    pools.push(key.clone(), "vm1".into());
    pools.push(key.clone(), "vm2".into());
    assert_eq!(pools.available(&key), 2);
    assert_eq!(pools.deficit(&key), 0);
    assert_eq!(pools.claim(&key), Some("vm1".into()));
    assert_eq!(pools.deficit(&key), 1);
}

#[test]
fn pool_status_is_listed_by_image_and_memory() {
    let mut pools = HotPools::new();
    pools.configure_default_pools(5);
    let big = Resources { cpu_milli: 1000, memory_mb: 4096, disk_gb: 8 };
    pools.set_target(ShapeKey::new("base", &big), 1);
    let status = pools.status();
    let got: Vec<(String, u32, u32)> =
        status.iter().map(|s| (s.image_key.clone(), s.memory_mb, s.target)).collect();
    assert_eq!(
        got,
        vec![
            ("base".to_string(), 2048, 5),
            ("base".to_string(), 4096, 1),
            ("browser".to_string(), 4096, 1),
            ("node-python".to_string(), 2048, 1),
        ]
    );
    assert_eq!(pools.pending_warm().len(), 4);
}

#[test]
fn volume_label_fits_ext4() {
    let l = ids::volume_label("vol_a1b2c3d4e5f6");
    assert!(l.starts_with("wdv"));
    assert!(l.len() <= 16, "ext4 labels are capped at 16 bytes, got {}", l.len());
    assert_eq!(l, "wdva1b2c3d4e5f6");
}

#[test]
fn identifiers_have_their_shape() {
    let hex = |s: &str, prefix: &str, n: usize| {
        let body = s.strip_prefix(prefix).unwrap();
        assert_eq!(body.len(), 2 * n);
        assert!(body.chars().all(|c| c.is_ascii_digit() || ('a'..='f').contains(&c)));
    };
    hex(&ids::sandbox_id(), "sbx_", 6);
    hex(&ids::node_id(), "node_", 4);
    hex(&ids::image_id(), "img_", 6);
    hex(&ids::snapshot_id(), "snap_", 6);
    hex(&ids::build_id(), "build_", 6);
    hex(&ids::command_id(), "cmd_", 6);
    hex(&ids::volume_id(), "vol_", 6);
    hex(&ids::api_key(), "sk_live_", 24);
    hex(&ids::join_token(), "jt_", 24);
    assert_ne!(ids::api_key(), ids::api_key());
    assert_eq!(ids::hex_id("sbx_", &vec![0, 255, 16, 9]), "sbx_00ff1009");
}

#[test]
fn round_trip() {
    let key = [7u8; 32];
    let rec = secrets::encrypt(&key, "org_1", "API_KEY", "s3cr3t-value", 1).unwrap();
    assert!(!rec.ciphertext_b64.contains("s3cr3t"));
    assert_eq!(secrets::decrypt(&key, &rec).unwrap(), "s3cr3t-value");
}

#[test]
fn wrong_key_fails() {
    let rec = secrets::encrypt(&[1u8; 32], "o", "N", "v", 1).unwrap();
    assert!(secrets::decrypt(&[2u8; 32], &rec).is_err());
}

#[test]
fn sealing_under_a_fixed_nonce_is_deterministic() {
    let a = secrets::seal(&[3u8; 32], &[9u8; 12], "o", "N", "value", 5).unwrap();
    let b = secrets::seal(&[3u8; 32], &[9u8; 12], "o", "N", "value", 6).unwrap();
    assert_eq!(a.ciphertext_b64, b.ciphertext_b64);
    assert_eq!(base64::decode(&a.ciphertext_b64).unwrap().len(), 5 + 16);
    let mut broken = a;
    broken.ciphertext_b64 = "?".into();
    assert_eq!(
        secrets::decrypt(&[3u8; 32], &broken).unwrap_err(),
        secrets::SecretError::BadBase64
    );
}

#[test]
fn master_keys_are_thirty_two_bytes() {
    let (key, text) = secrets::new_key();
    assert_eq!(secrets::parse_key(&text).unwrap(), key);
    assert_eq!(secrets::parse_key("AAAA").unwrap_err(), secrets::SecretError::BadKeyLength(3));
    assert_eq!(secrets::parse_key("!").unwrap_err(), secrets::SecretError::BadBase64);
    assert_ne!(secrets::new_key().0, secrets::new_key().0);
}

#[test]
fn name_validation() {
    assert!(secrets::valid_name("OPENAI_API_KEY"));
    assert!(secrets::valid_name("_x"));
    assert!(!secrets::valid_name("1bad"));
    assert!(!secrets::valid_name("has-dash"));
    assert!(!secrets::valid_name(""));
    assert!(secrets::valid_name(&"A".repeat(128)));
    assert!(!secrets::valid_name(&"A".repeat(129)));
}
