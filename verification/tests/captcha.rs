use std::collections::HashSet;

use match_lighthouse::captcha::{
    draw_check, is_right_answer, make_check, new_secret, open_token, prompt, seal_token,
    sign_captcha, use_check, verify_captcha, CaptchaPayload,
};
use match_lighthouse::clock::unix_seconds;

fn check() -> CaptchaPayload {
    CaptchaPayload { left: 3, right: 4, expires_at: unix_seconds() + 60, nonce: 1 }
}

fn bytes(check: &CaptchaPayload) -> Vec<u8> {
    format!(
        "{{\"left\":{},\"right\":{},\"expires_at\":{},\"nonce\":{}}}",
        check.left, check.right, check.expires_at, check.nonce
    )
    .into_bytes()
}

#[test]
fn signed_human_check_is_single_use() {
    let secret = [7; 32];
    let check = check();
    let token = seal_token(&secret, &bytes(&check)).unwrap();
    let mut used = HashSet::new();
    let mut verify = |token: &str, answer: &str| -> Result<(), String> {
        let mark = verify_captcha(&secret, token, Some(check), answer, unix_seconds())?;
        use_check(used.insert(mark))
    };
    assert!(verify(&token, "7").is_ok());
    assert!(verify(&token, "7").is_err());
    assert_eq!(verify(&token, "7").unwrap_err(), "Human check already used");
}

#[test]
fn tampered_human_check_is_rejected() {
    let secret = [7; 32];
    assert!(verify_captcha(&secret, "bad.token", Some(check()), "7", unix_seconds()).is_err());
}

#[test]
fn a_sealed_token_opens_with_its_secret_alone() {
    let payload = b"payload".to_vec();
    let token = seal_token(&[7; 32], &payload).unwrap();
    assert_eq!(token.split('.').count(), 2);
    assert_eq!(token.split('.').next(), Some("cGF5bG9hZA"));
    assert_eq!(open_token(&[7; 32], &token).unwrap(), payload);
    assert_eq!(open_token(&[8; 32], &token).unwrap_err(), "Invalid human check");
}

#[test]
fn every_change_to_a_token_is_refused() {
    let secret = [7; 32];
    let token = seal_token(&secret, b"payload").unwrap();
    let parts: Vec<&str> = token.split('.').collect();
    for wrong in [
        "".to_owned(),
        parts[0].to_owned(),
        format!("{}.", parts[0]),
        format!("cGF5bG9hZB.{}", parts[1]),
        format!("{}x.{}", parts[0], parts[1]),
        format!("{}.{}", parts[1], parts[0]),
        format!("{token}.{}", parts[1]),
        format!("{token}="),
    ] {
        assert_eq!(open_token(&secret, &wrong).unwrap_err(), "Invalid human check");
    }
}

#[test]
fn the_signature_is_a_keyed_digest() {
    let code = sign_captcha(b"Jefe", b"what do ya want for nothing?").unwrap();
    let hex: String = code.iter().map(|byte| format!("{byte:02x}")).collect();
    assert_eq!(hex, "5bdcc146bf60754e6a042426089575c75a003f089d2739839dec58b964ec3843");
}

#[test]
fn answers_are_sums_given_in_time() {
    let check = CaptchaPayload { left: 3, right: 4, expires_at: 100, nonce: 1 };
    assert!(is_right_answer(&check, "7", 100));
    assert!(is_right_answer(&check, "+07", 0));
    assert!(!is_right_answer(&check, "7", 101));
    for wrong in ["", "8", "seven", "7 ", "-7", "65543"] {
        assert!(!is_right_answer(&check, wrong, 0));
    }
    let large = CaptchaPayload { left: 200, right: 100, ..check };
    assert!(!is_right_answer(&large, "300", 101));
    assert!(!is_right_answer(&large, "44", 101));
    let token = seal_token(&[7; 32], &bytes(&large)).unwrap();
    assert_eq!(
        verify_captcha(&[7; 32], &token, Some(large), "300", 101).unwrap_err(),
        "Invalid human check"
    );
}

#[test]
fn wrong_and_late_answers_are_refused() {
    let secret = [7; 32];
    let check = CaptchaPayload { left: 3, right: 4, expires_at: 100, nonce: 1 };
    let token = seal_token(&secret, &bytes(&check)).unwrap();
    for (read, answer, now) in [(Some(check), "8", 1), (Some(check), "7", 101), (None, "7", 1)] {
        assert_eq!(
            verify_captcha(&secret, &token, read, answer, now).unwrap_err(),
            "Invalid human check"
        );
    }
    let mark = verify_captcha(&secret, &token, Some(check), "7", 100).unwrap();
    assert_eq!(mark.len(), 64);
    assert_ne!(mark, token);
}

#[test]
fn checks_are_made_of_random_numbers() {
    let check = make_check(0, 15, 1_000, 9);
    assert_eq!(check, CaptchaPayload { left: 2, right: 9, expires_at: 1_300, nonce: 9 });
    assert_eq!(make_check(0, 0, u64::MAX - 1, 0).expires_at, u64::MAX);
    assert_eq!(prompt(&check), "2 + 9 =");
}

#[test]
fn drawn_checks_hold_for_five_minutes() {
    let before = unix_seconds();
    let check = draw_check();
    let after = unix_seconds();
    assert!(check.left >= 2 && check.left <= 9);
    assert!(check.right >= 2 && check.right <= 9);
    assert!(check.expires_at >= before + 300 && check.expires_at <= after + 300);
}

#[test]
fn secrets_and_nonces_differ() {
    assert_ne!(new_secret(), new_secret());
    assert_ne!(draw_check().nonce, draw_check().nonce);
}
