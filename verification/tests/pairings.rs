use std::time::{Duration, Instant};

use sha2::Digest;
use spake2::{Ed25519Group, Identity as SpakeIdentity, Password, Spake2};
use wireless_display::pairing::{
    PairedDevice, PairingError, PairingManager, generate_pairing_code, pairing_code_from,
    pairing_code_from_bytes, sanitize_name,
};
use wireless_display::phone::PhonePairing;
use wireless_display::secret::random_bytes;
use wireless_display::Message;

const CONFIRM_RX: &[u8] = b"wdl-confirm-receiver";
const CONFIRM_PHONE: &[u8] = b"wdl-confirm-phone";
const PHONE_IDENTITY: &[u8] = b"wdl-phone";
const RECEIVER_IDENTITY: &[u8] = b"wdl-receiver";

fn confirmation_hash(key: &[u8], suffix: &[u8]) -> [u8; 32] {
    let mut hasher = sha2::Sha256::new();
    hasher.update(key);
    hasher.update(suffix);
    hasher.finalize().into()
}

fn manager() -> PairingManager {
    PairingManager::new(Vec::new())
}

fn begin(mgr: &mut PairingManager, code_used: &str, _fingerprint: String) -> ([u8; 32], Vec<u8>) {
    let (spake, msg_a) = Spake2::<Ed25519Group>::start_a(
        &Password::new(code_used),
        &SpakeIdentity::new(PHONE_IDENTITY),
        &SpakeIdentity::new(RECEIVER_IDENTITY),
    );
    let outcome = match mgr.handle_pair_begin("Test Phone", &msg_a, "a".repeat(64)) {
        Ok(outcome) => outcome,
        Err(e) => panic!("begin accepted: {e:?}"),
    };
    let key = spake.finish(&outcome.spake_reply).expect("client finish");
    (confirmation_hash(&key, CONFIRM_PHONE), outcome.spake_reply)
}

#[test]
fn pairing_codes_are_six_digits_and_random_enough() {
    for _ in 0..32 {
        let code = generate_pairing_code().unwrap();
        assert_eq!(code.len(), 6);
        let n: u32 = code.parse().unwrap();
        assert!((100_000..1_000_000).contains(&n));
    }
    let codes: std::collections::HashSet<String> =
        (0..16).map(|_| generate_pairing_code().unwrap()).collect();
    assert!(codes.len() > 1, "codes should vary");
}

#[test]
fn a_code_is_good_for_two_minutes_from_its_opening() {
    let opened = Instant::now();
    let after = |secs: u64| opened + Duration::from_secs(secs);
    let mut mgr = manager();
    mgr.open_window_at("123456".into(), opened);
    assert_eq!(mgr.window_age_at(&opened), 0);
    assert_eq!(mgr.window_age_at(&after(119)), 119);
    assert_eq!(mgr.window_age_at(&(after(120) - Duration::from_nanos(1))), 119);
    // A moment before the opening counts as the opening.
    mgr.open_window_at("123456".into(), after(5));
    assert_eq!(mgr.window_age_at(&opened), 0);

    // The first step does not start the time anew.
    mgr.open_window_at("123456".into(), opened);
    let (_, _, begin) = PhonePairing::begin("P", "123456");
    let msg = match begin {
        Message::PairBegin { spake_message, .. } => spake_message,
        other => panic!("unexpected message {other:?}"),
    };
    let age = mgr.window_age_at(&after(100));
    assert!(mgr.begin_at(age, "P", &msg, "f".into()).is_ok());
    assert_eq!(mgr.window_age_at(&after(119)), 119);
    let age = mgr.window_age_at(&after(120));
    assert!(!mgr.window_is_open_at(age));
    assert_eq!(
        mgr.verify_at(age, &[0; 32], Some(vec![]), 0),
        Err(PairingError::Expired)
    );
    assert_eq!(mgr.window_age_at(&after(500)), 0);

    // By the clock.
    let long_ago = Instant::now().checked_sub(Duration::from_secs(120));
    if let Some(moment) = long_ago {
        mgr.open_window_at("123456".into(), moment);
        assert!(!mgr.window_is_open());
        assert_eq!(
            mgr.handle_pair_begin("P", &msg, "f".into()).err(),
            Some(PairingError::Expired)
        );
    }
    mgr.open_window_at("123456".into(), Instant::now());
    assert!(mgr.window_is_open());
    assert!(mgr.handle_pair_begin("P", &msg, "f".into()).is_ok());
    assert!(mgr.window_is_open());
}

#[test]
fn a_window_is_open_until_something_ends_it() {
    let opened = Instant::now();
    let mut mgr = manager();
    let open_at = |mgr: &PairingManager, secs: u64| {
        mgr.window_is_open_at(mgr.window_age_at(&(opened + Duration::from_secs(secs))))
    };
    assert!(!mgr.window_is_open());
    mgr.open_window_at("123456".into(), opened);
    assert!(open_at(&mgr, 0) && open_at(&mgr, 119) && !open_at(&mgr, 120));
    // Neither a wrong first step nor a confirmation out of order ends it.
    assert_eq!(mgr.begin_at(10, "P", &[1], "f".into()).err(), Some(PairingError::BadCode));
    assert_eq!(
        mgr.verify_at(20, &[0; 32], Some(vec![]), 0),
        Err(PairingError::OutOfOrder)
    );
    assert!(open_at(&mgr, 119) && !open_at(&mgr, 120));
    // Another opening counts from its own moment.
    mgr.open_window_at("123456".into(), opened + Duration::from_secs(60));
    assert!(open_at(&mgr, 179) && !open_at(&mgr, 180));
    mgr.close_window();
    assert!(!open_at(&mgr, 61));
    // A wrong confirmation ends it, and so does a step after its time.
    mgr.open_window_at("123456".into(), opened);
    let (_, _, begin) = PhonePairing::begin("P", "123456");
    let msg = match begin {
        Message::PairBegin { spake_message, .. } => spake_message,
        other => panic!("unexpected message {other:?}"),
    };
    assert!(mgr.begin_at(0, "P", &msg, "f".into()).is_ok());
    assert!(open_at(&mgr, 1));
    assert_eq!(mgr.verify_at(2, &[0; 32], None, 0), Err(PairingError::BadCode));
    assert!(!open_at(&mgr, 3));
    mgr.open_window_at("123456".into(), opened);
    assert_eq!(mgr.begin_at(120, "P", &msg, "f".into()).err(), Some(PairingError::Expired));
    assert!(!open_at(&mgr, 120));
}

#[test]
fn codes_are_taken_from_whole_rounds_of_numbers() {
    assert_eq!(pairing_code_from(0).as_deref(), Some("100000"));
    assert_eq!(pairing_code_from(899_999).as_deref(), Some("999999"));
    assert_eq!(pairing_code_from(900_000).as_deref(), Some("100000"));
    assert_eq!(pairing_code_from(4_294_799_999).as_deref(), Some("999999"));
    assert_eq!(pairing_code_from(4_294_800_000), None);
    assert_eq!(pairing_code_from(u32::MAX), None);
}

#[test]
fn random_bytes_are_read_most_significant_first() {
    assert_eq!(pairing_code_from_bytes(&[0, 0, 0, 7]).as_deref(), Some("100007"));
    assert_eq!(pairing_code_from_bytes(&[0, 1, 2, 3]).as_deref(), Some("166051"));
    assert_eq!(pairing_code_from_bytes(&[1, 0, 0, 0]).as_deref(), Some("677216"));
    assert_eq!(pairing_code_from_bytes(&[255, 255, 255, 255]), None);
}

#[test]
fn full_pairing_flow_persists_device_and_token_works() {
    let mut mgr = manager();
    let fp = "a".repeat(64);

    mgr.open_window();
    assert!(mgr.window_is_open());
    let code = mgr.open_window().unwrap();
    let (confirm, _reply) = begin(&mut mgr, &code, fp.clone());

    let device = mgr.handle_pair_verify(&confirm).expect("verify ok");
    assert_eq!(device.name, "Test Phone");
    assert_eq!(device.token.len(), 64);
    assert!(!mgr.window_is_open(), "window must close after success");

    // Persistence across manager restarts:
    let reloaded = PairingManager::new(mgr.list_devices());
    assert_eq!(
        reloaded.find_by_token(&device.token).unwrap().device_id,
        device.device_id
    );
    assert_eq!(reloaded.list_devices().len(), 1);
}

#[test]
fn wrong_code_is_rejected_and_nothing_is_stored() {
    let mut mgr = manager();
    let fp = "b".repeat(64);
    mgr.open_window();
    let (confirm, _) = begin(&mut mgr, "000001", fp); // window code differs

    assert!(matches!(
        mgr.handle_pair_verify(&confirm),
        Err(PairingError::BadCode)
    ));
    assert!(mgr.list_devices().is_empty());
}

#[test]
fn pair_without_open_window_fails() {
    let mut mgr = manager();
    assert!(mgr.handle_pair_begin("Phone", &[0u8; 32], "c".repeat(64)).is_err());
}

#[test]
fn second_begin_in_same_window_is_out_of_order() {
    let mut mgr = manager();
    mgr.open_window();
    let fp = "d".repeat(64);
    let (_spake, msg_a) = Spake2::<Ed25519Group>::start_a(
        &Password::new(mgr.open_window().unwrap()),
        &SpakeIdentity::new(PHONE_IDENTITY),
        &SpakeIdentity::new(fp.as_bytes()),
    );
    assert!(mgr.handle_pair_begin("P", &msg_a, fp.clone()).is_ok());
    assert!(mgr.handle_pair_begin("P", &msg_a, fp).is_err());
}

/// A first message of a phone that uses `code`, and what finishes its exchange.
fn phone(code: &str) -> (Spake2<Ed25519Group>, Vec<u8>) {
    Spake2::<Ed25519Group>::start_a(
        &Password::new(code),
        &SpakeIdentity::new(PHONE_IDENTITY),
        &SpakeIdentity::new(RECEIVER_IDENTITY),
    )
}

#[test]
fn the_device_is_named_by_its_key() {
    let mut mgr = manager();
    mgr.open_window_with("424242".into());
    let (spake, msg) = phone("424242");
    let begun = match mgr.begin_at(119, "  Zoë  ", &msg, "f".into()) {
        Ok(begun) => begun,
        Err(e) => panic!("{e:?}"),
    };
    assert_eq!(begun.receiver_fingerprint, "f");
    let key = spake.finish(&begun.spake_reply).unwrap();
    assert_eq!(begun.receiver_confirmation, confirmation_hash(&key, CONFIRM_RX));
    let device = mgr
        .verify_at(
            119,
            &confirmation_hash(&key, CONFIRM_PHONE),
            Some(vec![0xab; 32]),
            1_700_000_000,
        )
        .unwrap();
    let id = confirmation_hash("  Zoë  ".as_bytes(), &key);
    assert_eq!(
        device,
        PairedDevice {
            device_id: hex::encode(&id[..16]),
            name: "Zoë".into(),
            token: "ab".repeat(32),
            added_unix_secs: 1_700_000_000,
        }
    );
    assert_eq!(mgr.find_by_token(&"ab".repeat(32)), Some(device.clone()));
    assert_eq!(mgr.list_devices(), vec![device]);
    assert!(!mgr.window_is_open_at(0));
}

#[test]
fn each_refusal_leaves_the_state_it_should() {
    let mut mgr = manager();
    let (_, msg) = phone("1");
    // No window.
    assert_eq!(
        mgr.begin_at(0, "P", &msg, "f".into()).err(),
        Some(PairingError::NoWindow)
    );
    assert_eq!(
        mgr.verify_at(0, &[0; 32], Some(vec![]), 0),
        Err(PairingError::NoWindow)
    );
    // Too early, and messages that no phone sends.
    mgr.open_window_with("123456".into());
    assert_eq!(
        mgr.verify_at(0, &[0; 32], Some(vec![]), 0),
        Err(PairingError::OutOfOrder)
    );
    let (_, not_ours) = Spake2::<Ed25519Group>::start_b(
        &Password::new("123456"),
        &SpakeIdentity::new(PHONE_IDENTITY),
        &SpakeIdentity::new(RECEIVER_IDENTITY),
    );
    for bad in [vec![], vec![0x41; 32], msg[..32].to_vec(), not_ours] {
        assert_eq!(
            mgr.begin_at(0, "P", &bad, "f".into()).err(),
            Some(PairingError::BadCode)
        );
        assert!(mgr.window_is_open_at(0));
    }
    // Too late for the first step.
    assert_eq!(
        mgr.begin_at(120, "P", &msg, "f".into()).err(),
        Some(PairingError::Expired)
    );
    assert!(!mgr.window_is_open_at(0));
    // Too late for the second.
    mgr.open_window_with("123456".into());
    assert!(mgr.begin_at(0, "P", &msg, "f".into()).is_ok());
    assert_eq!(
        mgr.begin_at(0, "P", &msg, "f".into()).err(),
        Some(PairingError::OutOfOrder)
    );
    assert_eq!(
        mgr.verify_at(120, &[0; 32], Some(vec![]), 0),
        Err(PairingError::Expired)
    );
    assert!(!mgr.window_is_open_at(0));
    // A wrong confirmation ends the attempt.
    mgr.open_window_with("123456".into());
    assert!(mgr.begin_at(0, "P", &msg, "f".into()).is_ok());
    assert_eq!(
        mgr.verify_at(0, &[0; 32], Some(vec![]), 0),
        Err(PairingError::BadCode)
    );
    assert!(!mgr.window_is_open_at(0));
    // Without random bytes there is no token; the attempt can be repeated.
    mgr.open_window_with("123456".into());
    let (spake, msg) = phone("123456");
    let begun = match mgr.begin_at(0, "P", &msg, "f".into()) {
        Ok(begun) => begun,
        Err(e) => panic!("{e:?}"),
    };
    let confirm = confirmation_hash(&spake.finish(&begun.spake_reply).unwrap(), CONFIRM_PHONE);
    assert_eq!(
        mgr.verify_at(0, &confirm, None, 0),
        Err(PairingError::NoEntropy)
    );
    assert!(mgr.list_devices().is_empty());
    assert!(mgr.verify_at(0, &confirm, Some(vec![1; 32]), 0).is_ok());
}

#[test]
fn only_points_of_the_curve_are_taken() {
    let mut taken = 0;
    let mut refused = 0;
    for b in 0..=255u8 {
        let mut mgr = manager();
        mgr.open_window_with("123456".into());
        let mut message = vec![0x41u8, b];
        message.extend([0u8; 31]);
        match mgr.begin_at(0, "P", &message, "f".into()) {
            Ok(_) => taken += 1,
            Err(e) => {
                assert_eq!(e, PairingError::BadCode);
                refused += 1;
            }
        }
    }
    assert!(taken > 0 && refused > 0);
}

#[test]
fn pairing_errors_have_texts() {
    assert_eq!(PairingError::NoWindow.to_string(), "no pairing window is open");
    assert_eq!(PairingError::Expired.to_string(), "pairing window has expired");
    assert_eq!(PairingError::OutOfOrder.to_string(), "pairing handshake out of order");
    assert_eq!(PairingError::BadCode.to_string(), "pairing code rejected");
    assert_eq!(PairingError::NoEntropy.to_string(), "system entropy unavailable");
}

fn device(id: &str, token: &str) -> PairedDevice {
    PairedDevice {
        device_id: id.into(),
        name: format!("name of {id}"),
        token: token.into(),
        added_unix_secs: 1,
    }
}

#[test]
fn devices_are_listed_by_identifier_and_the_later_counts() {
    let mgr = PairingManager::new(vec![
        device("b", "one"),
        device("a", "two"),
        device("é", "two"),
        device("b", "three"),
        device("Z", "four"),
    ]);
    let ids: Vec<String> = mgr.list_devices().into_iter().map(|d| d.device_id).collect();
    assert_eq!(ids, vec!["Z", "a", "b", "é"]);
    assert_eq!(mgr.find_by_token("one"), None);
    assert_eq!(mgr.find_by_token("three").unwrap().device_id, "b");
    assert_eq!(mgr.find_by_token("two").unwrap().device_id, "a");
    assert!(!mgr.window_is_open());
}

#[test]
fn windows_close() {
    let mut mgr = manager();
    mgr.open_window_with("1".into());
    assert!(mgr.window_is_open());
    assert!(mgr.window_is_open_at(119));
    assert!(!mgr.window_is_open_at(120));
    mgr.close_window();
    assert!(!mgr.window_is_open());
}

#[test]
fn stored_names_are_trimmed_and_cut() {
    assert_eq!(sanitize_name("  My Phone\t\n"), "My Phone");
    assert_eq!(sanitize_name("\u{2003} x \u{a0}"), "x");
    assert_eq!(sanitize_name(" \n "), "Unknown phone");
    assert_eq!(sanitize_name(""), "Unknown phone");
    assert_eq!(sanitize_name(&"é".repeat(70)), "é".repeat(64));
}

#[test]
fn random_bytes_vary() {
    assert_eq!(random_bytes(0), Some(vec![]));
    let a = random_bytes(32).unwrap();
    assert_eq!(a.len(), 32);
    assert_ne!(a, random_bytes(32).unwrap());
}
