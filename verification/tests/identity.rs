use auth_core::errors::AuthError;
use auth_core::identity::LookupOutcome;
use auth_core::identity::UserRecord;
use auth_core::identity::find_token;
use auth_core::identity::format_user_id;
use auth_core::identity::parse_user_id;
use auth_core::identity::resolve_identity;
use auth_core::identity::resolve_subject;
use auth_core::roles::Role;
use auth_core::token::issue;

const SECRET: &[u8] = b"demo-signing-secret";

#[test]
fn user_id_text_form_is_grouped_hex() {
    let id: u128 = 0x1234;
    let text = format_user_id(id);
    assert_eq!(text, b"00000000-0000-0000-0000-000000001234".to_vec());
    assert_eq!(parse_user_id(&text), Some(id));

    let id2: u128 = 0xdeadbeef_0123_4567_89ab_cdef_0011_2233;
    let text2 = format_user_id(id2);
    assert_eq!(text2, b"deadbeef-0123-4567-89ab-cdef00112233".to_vec());
    assert_eq!(parse_user_id(&text2), Some(id2));
}

#[test]
fn user_id_parse_rejects_bad_shapes() {
    assert_eq!(parse_user_id(b""), None);
    assert_eq!(parse_user_id(b"00000000-0000-0000-0000-00000000123"), None);
    assert_eq!(parse_user_id(b"00000000-0000-0000-0000-0000000012345"), None);
    assert_eq!(parse_user_id(b"00000000x0000-0000-0000-000000001234"), None);
    assert_eq!(parse_user_id(b"0000000G-0000-0000-0000-000000001234"), None);
    assert_eq!(parse_user_id(b"DEADBEEF-0000-0000-0000-000000001234"), None);
}

#[test]
fn find_token_prefers_the_cookie() {
    let cookie: &[u8] = b"cookie-token";
    let header: &[u8] = b"Bearer header-token";
    assert_eq!(find_token(Some(cookie), Some(header)), Some(b"cookie-token".to_vec()));
    assert_eq!(find_token(Some(cookie), None), Some(b"cookie-token".to_vec()));
}

#[test]
fn find_token_reads_a_bearer_header() {
    let header: &[u8] = b"Bearer header-token";
    assert_eq!(find_token(None, Some(header)), Some(b"header-token".to_vec()));
    assert_eq!(find_token(None, Some(b"Basic abc")), None);
    assert_eq!(find_token(None, Some(b"Bearer")), None);
    assert_eq!(find_token(None, Some(b"Bearer ")), Some(Vec::new()));
    assert_eq!(find_token(None, None), None);
}

#[test]
fn resolve_subject_full_path() {
    let id: u128 = 0x42;
    let subject = format_user_id(id);
    let token = issue(&subject, SECRET, 3600, 1000);

    assert_eq!(resolve_subject(Some(&token), None, SECRET, 1000), Ok(id));

    let mut header = b"Bearer ".to_vec();
    header.extend_from_slice(&token);
    assert_eq!(resolve_subject(None, Some(&header), SECRET, 1000), Ok(id));
}

#[test]
fn resolve_subject_collapses_failures_to_unauthenticated() {
    let id: u128 = 0x42;
    let subject = format_user_id(id);
    let token = issue(&subject, SECRET, 3600, 1000);

    // no credentials at all
    assert_eq!(resolve_subject(None, None, SECRET, 1000), Err(AuthError::Unauthenticated));
    // expired token
    assert_eq!(resolve_subject(Some(&token), None, SECRET, 4600), Err(AuthError::Unauthenticated));
    // wrong secret
    assert_eq!(
        resolve_subject(Some(&token), None, b"other-secret", 1000),
        Err(AuthError::Unauthenticated)
    );
    // genuine token whose subject is no identifier
    let odd = issue(b"not-an-identifier", SECRET, 3600, 1000);
    assert_eq!(resolve_subject(Some(&odd), None, SECRET, 1000), Err(AuthError::Unauthenticated));
}

#[test]
fn resolve_identity_maps_the_lookup_outcome() {
    let user = UserRecord { id: 7, role: Role::User, password_digest: String::new() };
    match resolve_identity(LookupOutcome::Found(user)) {
        Ok(u) => {
            assert_eq!(u.id, 7);
            assert_eq!(u.role, Role::User);
        },
        Err(_) => panic!("a found user resolves"),
    }
    assert!(matches!(
        resolve_identity(LookupOutcome::Missing),
        Err(AuthError::Unauthenticated)
    ));
    assert!(matches!(
        resolve_identity(LookupOutcome::StoreFailure),
        Err(AuthError::Server)
    ));
}
