use talk_wall::domain::AppConfig;
use talk_wall::errors::ApiError;
use talk_wall::forum::{Forum, SESSION_TTL_SECS};
use talk_wall::hashing::{hash_password, verify_password, hash_then_verify};

fn empty_forum() -> Forum {
    Forum::new(AppConfig { admin_uids: Vec::new() })
}

#[test]
fn hash_roundtrip_verifies() {
    assert_eq!(hash_then_verify("password1").unwrap(), true);
}

#[test]
fn hash_rejects_other_password() {
    let h = hash_password("password1").unwrap();
    assert_eq!(verify_password(&h, "password2").unwrap(), false);
}

#[test]
fn corrupt_hash_is_an_error_not_a_mismatch() {
    let r = verify_password("not-a-phc-string", "password1");
    assert!(matches!(r, Err(ApiError::PasswordHash(_))));
}

#[test]
fn register_rejects_short_password() {
    let mut f = empty_forum();
    let r = f.register_at("alice", "12345", "123", "uid-alice".to_string(), 100);
    let e = r.unwrap_err();
    assert!(matches!(e, ApiError::Validation(_)));
    assert_eq!(e.status_code(), 400);
}

#[test]
fn register_rejects_blank_username() {
    let mut f = empty_forum();
    let r = f.register_at("   ", "12345", "password1", "uid-a".to_string(), 100);
    assert!(matches!(r, Err(ApiError::Validation(_))));
}

#[test]
fn register_then_duplicate_conflicts() {
    let mut f = empty_forum();
    f.register_at("alice", "12345", "password1", "uid-a".to_string(), 100).unwrap();
    let e = f.register_at("alice", "67890", "password2", "uid-b".to_string(), 101).unwrap_err();
    assert!(matches!(e, ApiError::Conflict(_)));
    assert_eq!(e.status_code(), 409);
}

#[test]
fn six_char_password_is_accepted_after_short_rejection() {
    let mut f = empty_forum();
    let e = f.register_at("alice", "12345", "12345", "uid-a".to_string(), 100).unwrap_err();
    assert!(matches!(e, ApiError::Validation(_)));
    f.register_at("alice", "12345", "123456", "uid-a".to_string(), 100).unwrap();
}

#[test]
fn login_unknown_user_is_unauthorized() {
    let mut f = empty_forum();
    let e = f.login_at("nobody", "password1", "tok-1".to_string(), 100).unwrap_err();
    assert!(matches!(e, ApiError::Unauthorized));
    assert_eq!(e.status_code(), 401);
}

#[test]
fn login_wrong_password_is_unauthorized() {
    let mut f = empty_forum();
    f.register_at("alice", "12345", "password1", "uid-a".to_string(), 100).unwrap();
    let e = f.login_at("alice", "password2", "tok-1".to_string(), 200).unwrap_err();
    assert!(matches!(e, ApiError::Unauthorized));
}

#[test]
fn login_then_me_echoes_identity() {
    let mut f = empty_forum();
    f.register_at("alice", "12345", "password1", "uid-a".to_string(), 100).unwrap();
    let ok = f.login_at("alice", "password1", "tok-1".to_string(), 200).unwrap();
    assert_eq!(ok.user.username, "alice".to_string());
    assert_eq!(ok.user.uid, "uid-a".to_string());
    assert_eq!(ok.token, "tok-1".to_string());
    let me = f.me(Some("tok-1"), 300).unwrap();
    assert_eq!(me.username, "alice".to_string());
    assert_eq!(me.uid, "uid-a".to_string());
    assert!(!me.is_admin);
}

#[test]
fn me_without_cookie_is_unauthorized() {
    let mut f = empty_forum();
    let e = f.me(None, 100).unwrap_err();
    assert!(matches!(e, ApiError::Unauthorized));
}

#[test]
fn logout_then_me_is_unauthorized() {
    let mut f = empty_forum();
    f.register_at("alice", "12345", "password1", "uid-a".to_string(), 100).unwrap();
    f.login_at("alice", "password1", "tok-1".to_string(), 200).unwrap();
    assert!(f.me(Some("tok-1"), 300).is_ok());
    let m = f.logout(Some("tok-1"));
    assert_eq!(m.message, "退出成功".to_string());
    let e = f.me(Some("tok-1"), 400).unwrap_err();
    assert!(matches!(e, ApiError::Unauthorized));
}

#[test]
fn session_resolves_inside_ttl_window() {
    let mut f = empty_forum();
    f.register_at("alice", "12345", "password1", "uid-a".to_string(), 0).unwrap();
    let t0 = 1_000;
    f.login_at("alice", "password1", "tok-1".to_string(), t0).unwrap();
    assert!(f.authenticate(Some("tok-1"), t0).is_ok());
    assert!(f.authenticate(Some("tok-1"), t0 + SESSION_TTL_SECS - 1).is_ok());
}

#[test]
fn session_expires_at_ttl_boundary_and_is_deleted() {
    let mut f = empty_forum();
    f.register_at("alice", "12345", "password1", "uid-a".to_string(), 0).unwrap();
    let t0 = 1_000;
    f.login_at("alice", "password1", "tok-1".to_string(), t0).unwrap();
    let e = f.authenticate(Some("tok-1"), t0 + SESSION_TTL_SECS).unwrap_err();
    assert!(matches!(e, ApiError::Unauthorized));
    assert_eq!(f.sessions.len(), 0);
    // even a check back inside the window now fails: the row is gone
    let e2 = f.authenticate(Some("tok-1"), t0).unwrap_err();
    assert!(matches!(e2, ApiError::Unauthorized));
}

#[test]
fn revoke_is_idempotent() {
    let mut f = empty_forum();
    f.register_at("alice", "12345", "password1", "uid-a".to_string(), 0).unwrap();
    f.login_at("alice", "password1", "tok-1".to_string(), 100).unwrap();
    assert_eq!(f.sessions.len(), 1);
    f.revoke("tok-1");
    assert_eq!(f.sessions.len(), 0);
    f.revoke("tok-1");
    assert_eq!(f.sessions.len(), 0);
}

#[test]
fn revoking_unknown_token_is_a_noop() {
    let mut f = empty_forum();
    f.revoke("never-issued");
    assert_eq!(f.sessions.len(), 0);
}

#[test]
fn duplicate_login_token_is_internal_error() {
    let mut f = empty_forum();
    f.register_at("alice", "12345", "password1", "uid-a".to_string(), 0).unwrap();
    f.login_at("alice", "password1", "tok-1".to_string(), 100).unwrap();
    let e = f.login_at("alice", "password1", "tok-1".to_string(), 200).unwrap_err();
    assert!(matches!(e, ApiError::Internal(_)));
}

#[test]
fn change_password_requires_correct_current() {
    let mut f = empty_forum();
    f.register_at("alice", "12345", "password1", "uid-a".to_string(), 0).unwrap();
    f.login_at("alice", "password1", "tok-1".to_string(), 100).unwrap();
    let e = f.change_password(Some("tok-1"), "wrong", "password2", 200).unwrap_err();
    assert!(matches!(e, ApiError::Validation(_)));
    let e2 = f.change_password(Some("tok-1"), "password1", "123", 200).unwrap_err();
    assert!(matches!(e2, ApiError::Validation(_)));
    f.change_password(Some("tok-1"), "password1", "password2", 200).unwrap();
    // old password no longer logs in, the new one does
    assert!(f.login_at("alice", "password1", "tok-2".to_string(), 300).is_err());
    assert!(f.login_at("alice", "password2", "tok-2".to_string(), 300).is_ok());
}

#[test]
fn update_profile_rejects_noop_and_detects_conflict() {
    let mut f = empty_forum();
    f.register_at("alice", "1111", "password1", "uid-a".to_string(), 0).unwrap();
    f.register_at("bob", "2222", "password1", "uid-b".to_string(), 1).unwrap();
    f.login_at("alice", "password1", "tok-1".to_string(), 100).unwrap();
    let e = f.update_profile(Some("tok-1"), None, None, 200).unwrap_err();
    assert!(matches!(e, ApiError::Validation(_)));
    let e2 = f.update_profile(Some("tok-1"), Some("bob".to_string()), None, 200).unwrap_err();
    assert!(matches!(e2, ApiError::Conflict(_)));
    let r = f.update_profile(Some("tok-1"), Some(" carol ".to_string()), None, 200).unwrap();
    assert_eq!(r.username, "carol".to_string());
    assert_eq!(r.qq, "1111".to_string());
    // the rename sticks for the next login
    assert!(f.login_at("carol", "password1", "tok-2".to_string(), 300).is_ok());
}

#[test]
fn random_login_flow_works_end_to_end() {
    let mut f = empty_forum();
    f.register("alice", "12345", "password1").unwrap();
    let ok = f.login("alice", "password1").unwrap();
    assert_eq!(ok.token.len(), 36);
    let now = talk_wall::sys::now_unix();
    let me = f.me(Some(&ok.token), now).unwrap();
    assert_eq!(me.username, "alice".to_string());
}

#[test]
fn register_rejects_blank_qq() {
    let mut f = empty_forum();
    let r = f.register_at("alice", "   ", "password1", "uid-a".to_string(), 100);
    assert!(matches!(r, Err(ApiError::Validation(_))));
}

#[test]
fn logout_without_cookie_still_succeeds() {
    let mut f = empty_forum();
    let m = f.logout(None);
    assert_eq!(m.message, "退出成功".to_string());
}

#[test]
fn expired_session_cannot_create_posts() {
    let mut f = empty_forum();
    f.register_at("alice", "12345", "password1", "uid-a".to_string(), 0).unwrap();
    let t0 = 1_000;
    f.login_at("alice", "password1", "tok-1".to_string(), t0).unwrap();
    let e = f
        .create_post(Some("tok-1"), "t", "c", None, None, t0 + SESSION_TTL_SECS + 5)
        .unwrap_err();
    assert!(matches!(e, ApiError::Unauthorized));
    // the lazy eviction removed the dead session
    assert_eq!(f.sessions.len(), 0);
}

#[test]
fn update_profile_without_session_is_unauthorized() {
    let mut f = empty_forum();
    let e = f.update_profile(None, Some("x".to_string()), None, 100).unwrap_err();
    assert!(matches!(e, ApiError::Unauthorized));
}
