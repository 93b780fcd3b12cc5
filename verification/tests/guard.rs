use auth_core::errors::AuthError;
use auth_core::guard::GuardDecision;
use auth_core::guard::authorize;
use auth_core::guard::conclude_request;
use auth_core::identity::LookupOutcome;
use auth_core::identity::UserRecord;
use auth_core::identity::format_user_id;
use auth_core::identity::resolve_subject;
use auth_core::roles::Role;
use auth_core::roles::RoleSet;
use auth_core::token::issue;

fn user_with_role(role: Role) -> UserRecord {
    UserRecord { id: 1, role, password_digest: String::new() }
}

#[test]
fn role_set_builder_and_membership() {
    let set = RoleSet::from_roles(&vec![Role::User, Role::Admin]);
    assert!(set.contains(Role::User));
    assert!(!set.contains(Role::Moderator));
    assert!(set.contains(Role::Admin));

    let empty = RoleSet::from_roles(&Vec::new());
    assert!(!empty.contains(Role::User));
    assert!(!empty.contains(Role::Moderator));
    assert!(!empty.contains(Role::Admin));
}

#[test]
fn admin_gate_admits_admin_and_forbids_user() {
    let admin_only = RoleSet { user: false, moderator: false, admin: true };
    match authorize(Ok(user_with_role(Role::Admin)), &admin_only) {
        GuardDecision::Admitted(u) => assert_eq!(u.role, Role::Admin),
        GuardDecision::Denied(_) => panic!("an admin identity is admitted"),
    }
    assert!(matches!(
        authorize(Ok(user_with_role(Role::User)), &admin_only),
        GuardDecision::Denied(AuthError::Forbidden)
    ));
    assert!(matches!(
        authorize(Ok(user_with_role(Role::Moderator)), &admin_only),
        GuardDecision::Denied(AuthError::Forbidden)
    ));
}

#[test]
fn no_token_denies_before_the_operation_runs() {
    let any_role = RoleSet { user: true, moderator: true, admin: true };
    let resolution = resolve_subject(None, None, b"demo-signing-secret", 1000)
        .map(|_| user_with_role(Role::Admin));
    let mut operation_ran = false;
    match authorize(resolution, &any_role) {
        GuardDecision::Admitted(_) => {
            operation_ran = true;
        },
        GuardDecision::Denied(e) => {
            assert_eq!(e, AuthError::Unauthenticated);
        },
    }
    assert!(!operation_ran);
}

#[test]
fn conclude_request_composes_the_full_pipeline() {
    let secret: &[u8] = b"demo-signing-secret";
    let any_role = RoleSet { user: true, moderator: true, admin: true };
    let id: u128 = 0x99;
    let token = issue(&format_user_id(id), secret, 3600, 1000);
    let stored = UserRecord { id, role: Role::Moderator, password_digest: String::new() };

    // token resolves, user found, role admitted
    let resolution = resolve_subject(Some(&token), None, secret, 1000);
    assert_eq!(resolution, Ok(id));
    match conclude_request(resolution, LookupOutcome::Found(stored), &any_role) {
        GuardDecision::Admitted(u) => assert_eq!(u.id, id),
        GuardDecision::Denied(e) => panic!("denied: {:?}", e),
    }

    // token resolves but the user has vanished since issuance
    let resolution = resolve_subject(Some(&token), None, secret, 1000);
    assert!(matches!(
        conclude_request(resolution, LookupOutcome::Missing, &any_role),
        GuardDecision::Denied(AuthError::Unauthenticated)
    ));

    // token resolves but the store is unreachable
    let resolution = resolve_subject(Some(&token), None, secret, 1000);
    assert!(matches!(
        conclude_request(resolution, LookupOutcome::StoreFailure, &any_role),
        GuardDecision::Denied(AuthError::Server)
    ));

    // no credentials: denied whatever the store would have answered
    let resolution = resolve_subject(None, None, secret, 1000);
    assert!(matches!(
        conclude_request(resolution, LookupOutcome::StoreFailure, &any_role),
        GuardDecision::Denied(AuthError::Unauthenticated)
    ));
}

#[test]
fn resolver_errors_pass_through_the_guard() {
    let any_role = RoleSet { user: true, moderator: true, admin: true };
    assert!(matches!(
        authorize(Err(AuthError::Server), &any_role),
        GuardDecision::Denied(AuthError::Server)
    ));
    assert!(matches!(
        authorize(Err(AuthError::Unauthenticated), &any_role),
        GuardDecision::Denied(AuthError::Unauthenticated)
    ));
}
