use auth_core::errors::AuthError;
use auth_core::flows::SaveOutcome;
use auth_core::flows::change_password;
use auth_core::flows::login;
use auth_core::flows::registration_saved;
use auth_core::guard::GuardDecision;
use auth_core::guard::authorize;
use auth_core::identity::LookupOutcome;
use auth_core::identity::UserRecord;
use auth_core::identity::resolve_identity;
use auth_core::identity::resolve_subject;
use auth_core::password::hash;
use auth_core::roles::Role;
use auth_core::roles::RoleSet;

const SECRET: &[u8] = b"demo-signing-secret";
const MAX_AGE: u64 = 3600;

#[test]
fn end_to_end_register_login_guard_logout_replay() {
    // The store, in miniature: one slot, as the surrounding process keeps it.
    let mut store: Vec<(String, String, UserRecord)> = Vec::new();

    // Register "john" / "john@example.com" / "password123".
    let digest = hash(b"password123").expect("hashing succeeds");
    let john = UserRecord { id: 0x0123_4567_89ab_cdef, role: Role::User, password_digest: digest };
    store.push(("john".to_string(), "john@example.com".to_string(), john.clone()));

    // Login with the same email and password.
    let now: u64 = 1_700_000_000;
    let lookup = match store.iter().find(|(_, email, _)| email == "john@example.com") {
        Some((_, _, u)) => LookupOutcome::Found(u.clone()),
        None => LookupOutcome::Missing,
    };
    let token = login(lookup, b"password123", SECRET, MAX_AGE, now).expect("login succeeds");

    // The token decodes to john's id and passes a guard admitting every role.
    let every_role = RoleSet::from_roles(&vec![Role::User, Role::Moderator, Role::Admin]);
    let check_admission = |at: u64| {
        let resolution = match resolve_subject(Some(&token), None, SECRET, at) {
            Ok(id) => {
                assert_eq!(id, john.id);
                match store.iter().find(|(_, _, u)| u.id == id) {
                    Some((_, _, u)) => resolve_identity(LookupOutcome::Found(u.clone())),
                    None => resolve_identity(LookupOutcome::Missing),
                }
            },
            Err(e) => Err(e),
        };
        match authorize(resolution, &every_role) {
            GuardDecision::Admitted(u) => assert_eq!(u.id, john.id),
            GuardDecision::Denied(e) => panic!("denied: {:?}", e),
        }
    };
    check_admission(now + 10);

    // Logout only tells the client to drop its cookie; the server keeps no
    // record of issued tokens. The replayed token, still unexpired, is
    // accepted again.
    check_admission(now + 20);
}

#[test]
fn login_wrong_password_matches_unknown_email_in_shape() {
    let digest = hash(b"password123").expect("hashing succeeds");
    let john = UserRecord { id: 7, role: Role::User, password_digest: digest };
    let now: u64 = 1_700_000_000;

    let wrong_password = login(
        LookupOutcome::Found(john),
        b"not-the-password",
        SECRET,
        MAX_AGE,
        now,
    );
    let unknown_email = login(LookupOutcome::Missing, b"not-the-password", SECRET, MAX_AGE, now);
    assert_eq!(wrong_password, Err(AuthError::Unauthenticated));
    assert_eq!(unknown_email, Err(AuthError::Unauthenticated));
    assert_eq!(wrong_password, unknown_email);
}

#[test]
fn login_store_failure_is_a_server_error() {
    let r = login(LookupOutcome::StoreFailure, b"password123", SECRET, MAX_AGE, 1000);
    assert_eq!(r, Err(AuthError::Server));
}

#[test]
fn change_password_requires_the_old_password() {
    let digest = hash(b"password123").expect("hashing succeeds");
    let john = UserRecord { id: 7, role: Role::User, password_digest: digest };

    assert_eq!(
        change_password(LookupOutcome::Found(john.clone()), b"wrong-old", b"password1234"),
        Err(AuthError::Unauthenticated)
    );
    let new_digest = change_password(LookupOutcome::Found(john), b"password123", b"password1234")
        .expect("the old password matches");
    assert!(auth_core::password::verify(b"password1234", &new_digest));
    assert!(!auth_core::password::verify(b"password123", &new_digest));

    assert_eq!(
        change_password(LookupOutcome::Missing, b"a", b"b"),
        Err(AuthError::Unauthenticated)
    );
    assert_eq!(
        change_password(LookupOutcome::StoreFailure, b"a", b"b"),
        Err(AuthError::Server)
    );
}

#[test]
fn registration_saved_maps_the_save_outcome() {
    let user = UserRecord { id: 9, role: Role::User, password_digest: String::new() };
    match registration_saved(SaveOutcome::Saved(user)) {
        Ok(u) => assert_eq!(u.id, 9),
        Err(_) => panic!("a saved user registers"),
    }
    assert!(matches!(
        registration_saved(SaveOutcome::DuplicateEmail),
        Err(AuthError::Conflict)
    ));
    assert!(matches!(
        registration_saved(SaveOutcome::StoreFailure),
        Err(AuthError::Server)
    ));
}
