use yap::hotkey::{transition, HotkeyEvent};
use yap::keychain::{
    deletion_outcome, hint_for, key_hint, stored_api_key, KeychainError, KeyringFailure,
};
use yap::model::{check_archive_digest, verify_download, ArchiveHasher, Progress, MODEL_SHA256};
use yap::stt::{api_key_is_blank, model_load_report, request_language, trim_transcript, truncate, SelfTest};

#[test]
fn hotkey_edges() {
    assert_eq!(transition(false, true), (true, Some(HotkeyEvent::Pressed)));
    assert_eq!(transition(true, true), (true, None));
    assert_eq!(transition(true, false), (false, Some(HotkeyEvent::Released)));
    assert_eq!(transition(false, false), (false, None));
}

#[test]
fn hotkey_events_alternate_over_a_series() {
    let mut held = false;
    let mut events = Vec::new();
    for obs in [true, true, false, false, true, false, true] {
        let (next, ev) = transition(held, obs);
        held = next;
        events.extend(ev);
    }
    assert_eq!(
        events,
        vec![
            HotkeyEvent::Pressed,
            HotkeyEvent::Released,
            HotkeyEvent::Pressed,
            HotkeyEvent::Released,
            HotkeyEvent::Pressed
        ]
    );
    assert!(held);
}

#[test]
fn key_hints() {
    assert_eq!(key_hint("sk-proj-abcdef1234"), "sk-\u{2026}1234");
    assert_eq!(key_hint("xy"), "sk-\u{2026}xy");
    assert_eq!(key_hint("ab\u{e9}cd"), "sk-\u{2026}b\u{e9}cd");
}

#[test]
fn stored_key_must_be_non_empty() {
    assert_eq!(stored_api_key(Ok("k".to_string())), Some("k".to_string()));
    assert_eq!(stored_api_key(Ok(String::new())), None);
    assert_eq!(stored_api_key(Err(KeyringFailure::NoEntry)), None);
    assert_eq!(stored_api_key(Err(KeyringFailure::Other("locked".to_string()))), None);
}

#[test]
fn deleting_a_missing_key_succeeds() {
    assert_eq!(deletion_outcome(Ok(())), Ok(()));
    assert_eq!(deletion_outcome(Err(KeyringFailure::NoEntry)), Ok(()));
    assert_eq!(
        deletion_outcome(Err(KeyringFailure::Other("denied".to_string()))),
        Err(KeychainError::Delete("denied".to_string()))
    );
}

#[test]
fn archive_digest() {
    assert_eq!(MODEL_SHA256, None);
    assert_eq!(check_archive_digest(None, &[0x0f, 0xa0]), Ok("0fa0".to_string()));
    assert_eq!(check_archive_digest(Some("0FA0"), &[0x0f, 0xa0]), Ok("0fa0".to_string()));
    let err = check_archive_digest(Some("0fa1"), &[0x0f, 0xa0]).unwrap_err();
    assert_eq!(err.expected, "0fa1");
    assert_eq!(err.actual, "0fa0");
    assert!(check_archive_digest(Some("0fa"), &[0x0f, 0xa0]).is_err());
}

#[test]
fn progress_values() {
    let p = Progress::Downloading { bytes: 10, total: Some(20) };
    assert_eq!(p, Progress::Downloading { bytes: 10, total: Some(20) });
    assert_ne!(Progress::Extracting, Progress::Done);
}

#[test]
fn error_bodies_are_truncated() {
    assert_eq!(truncate("short", 240), "short");
    assert_eq!(truncate("abcdef", 3), "abc\u{2026}");
    assert_eq!(truncate("abc", 3), "abc");
    assert_eq!(truncate("\u{e9}\u{e9}", 2), "\u{e9}\u{2026}");
}

#[test]
fn api_keys_and_languages() {
    assert!(api_key_is_blank(""));
    assert!(api_key_is_blank("  \t"));
    assert!(!api_key_is_blank(" sk-1 "));
    assert_eq!(request_language(Some("en".to_string())), Some("en".to_string()));
    assert_eq!(request_language(Some("  ".to_string())), None);
    assert_eq!(request_language(None), None);
}

#[test]
fn transcripts_are_trimmed() {
    assert_eq!(trim_transcript("  hello world \n"), "hello world");
    assert_eq!(trim_transcript(""), "");
}

#[test]
fn model_load_reports() {
    assert_eq!(model_load_report(&SelfTest::NoClip), "Parakeet model loaded");
    assert_eq!(
        model_load_report(&SelfTest::Transcript(String::new())),
        "Parakeet loaded, but bundled test audio produced no transcript"
    );
    assert_eq!(
        model_load_report(&SelfTest::Transcript("hi".to_string())),
        "Parakeet model loaded"
    );
    assert_eq!(
        model_load_report(&SelfTest::Failed("bad wav".to_string())),
        "Parakeet loaded, but model self-test failed: bad wav"
    );
}

#[test]
fn hints_follow_the_stored_key() {
    assert_eq!(hint_for(None), None);
    assert_eq!(hint_for(Some("sk-abcdef1234".to_string())), Some("sk-\u{2026}1234".to_string()));
    assert_eq!(hint_for(Some("xy".to_string())), Some("sk-\u{2026}xy".to_string()));
}

const SHA256_ABC: &str = "ba7816bf8f01cfea414140de5dae2223b00361a396177a9cb410ff61f20015ad";

#[test]
fn archive_hash_covers_every_chunk() {
    let mut h = ArchiveHasher::new();
    h.update(b"a");
    h.update(b"");
    h.update(b"bc");
    assert_eq!(verify_download(None, h), Ok(SHA256_ABC.to_string()));

    let mut h = ArchiveHasher::new();
    h.update(b"abc");
    assert_eq!(
        verify_download(Some(&SHA256_ABC.to_uppercase()), h),
        Ok(SHA256_ABC.to_string())
    );

    let mut h = ArchiveHasher::new();
    h.update(b"abd");
    let err = verify_download(Some(SHA256_ABC), h).unwrap_err();
    assert_eq!(err.expected, SHA256_ABC);
    assert_ne!(err.actual, SHA256_ABC);
    assert_eq!(err.actual.len(), 64);

    let empty = ArchiveHasher::new();
    assert_eq!(
        verify_download(None, empty),
        Ok("e3b0c44298fc1c149afbf4c8996fb92427ae41e4649b934ca495991b7852b855".to_string())
    );
}
