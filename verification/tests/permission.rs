use pself::permission_manager::{PermissionManager, MAX_ATTEMPTS};

const PASSWORD: &str = "s3cretpass";

#[test]
fn permission_granted_with_the_right_password() {
    let mut m = PermissionManager::new();
    assert!(!m.check_permission("ann"));
    assert!(m.request_permission(true, "ann", PASSWORD));
    assert!(m.check_permission("ann"));
    assert_eq!(m.attempts("ann"), 0);
    assert!(!m.check_permission("bob"));
}

#[test]
fn permission_needs_elevated_privilege() {
    let mut m = PermissionManager::new();
    assert!(!m.request_permission(false, "ann", PASSWORD));
    assert!(!m.check_permission("ann"));
    assert_eq!(m.attempts("ann"), 0);
    // wrong passwords without privilege are not counted either
    assert!(!m.request_permission(false, "ann", "nope"));
    assert!(!m.request_permission(false, "ann", "nope"));
    assert!(!m.request_permission(false, "ann", "nope"));
    assert_eq!(m.attempts("ann"), 0);
    assert!(m.request_permission(true, "ann", PASSWORD));
}

#[test]
fn permission_locks_out_after_two_failures() {
    assert_eq!(MAX_ATTEMPTS, 2);
    let mut m = PermissionManager::new();
    assert!(!m.request_permission(true, "ann", "wrong"));
    assert_eq!(m.attempts("ann"), 1);
    assert!(!m.request_permission(true, "ann", "s3cretpas"));
    assert_eq!(m.attempts("ann"), 2);
    assert!(!m.request_permission(true, "ann", PASSWORD));
    assert!(!m.check_permission("ann"));
    assert!(!m.request_permission(true, "ann", PASSWORD));
    assert_eq!(m.attempts("ann"), 2);
    // another user name is not affected
    assert!(m.request_permission(true, "bob", PASSWORD));
    assert!(m.check_permission("bob"));
}

#[test]
fn permission_success_clears_the_counter() {
    let mut m = PermissionManager::new();
    assert!(!m.request_permission(true, "ann", "wrong"));
    assert!(m.request_permission(true, "ann", PASSWORD));
    assert_eq!(m.attempts("ann"), 0);
    assert!(!m.request_permission(true, "ann", "wrong"));
    assert_eq!(m.attempts("ann"), 1);
    // a failure leaves an earlier grant in place
    assert!(m.check_permission("ann"));
    assert!(m.request_permission(true, "ann", PASSWORD));
}

#[test]
fn permission_lockout_takes_back_a_grant() {
    let mut m = PermissionManager::new();
    assert!(m.request_permission(true, "ann", PASSWORD));
    assert!(!m.request_permission(true, "ann", "x"));
    assert!(!m.request_permission(true, "ann", "y"));
    assert!(m.check_permission("ann"));
    assert!(!m.request_permission(true, "ann", PASSWORD));
    assert!(!m.check_permission("ann"));
}

#[test]
fn permission_password_is_compared_exactly() {
    for wrong in ["", "S3CRETPASS", "s3cretpass ", " s3cretpass", "s3cretpass\n"] {
        let mut m = PermissionManager::new();
        assert!(!m.request_permission(true, "ann", wrong));
        assert_eq!(m.attempts("ann"), 1);
    }
}
