use user_service::auth::Claim;
use user_service::handlers::{create, delete, find, get_jwt_and_user, sign_in_with_email};
use user_service::models::{ApiError, NewUser, SignInWithEmail, UpdateProfile};
use user_service::repo::UserRepository;

/// A stand-in for the outside password hasher: deterministic, so equal
/// plaintexts hash equal, as re-hash-and-compare needs.
fn toy_hash(plaintext: &str) -> Vec<u8> {
    let mut out: Vec<u8> = vec![0x5a];
    for b in plaintext.as_bytes() {
        out.push(b.wrapping_add(1));
    }
    out
}

fn new_user(email: &str, password: &str) -> NewUser {
    NewUser { email: email.to_string(), password: password.to_string() }
}

#[test]
fn test_user() {
    let mut repo = UserRepository::new();
    let email = "test@test.com";
    let password = "test1234";

    // creating a user
    let created = create(&mut repo, new_user(email, password), toy_hash(password));
    assert!(created.is_ok(), "Failed to create user");

    // creating an existing user
    let again = create(&mut repo, new_user(email, password), toy_hash(password));
    let err = again.expect_err("Should not be possible to create user with same username");
    assert_eq!(err.status_code(), 400);

    // finding a user
    let found = find(&repo, email.to_string());
    let found = found.expect("Failed to find user");
    assert_eq!(found.email, email.as_bytes().to_vec(), "Found wrong user");

    // deleting a user
    let deleted = delete(&mut repo, email.to_string());
    assert!(deleted.is_ok(), "Failed to delete user");
}

#[test]
fn created_record_has_no_password() {
    let mut repo = UserRepository::new();
    let user = create(&mut repo, new_user("a@example.com", "abc12345"), toy_hash("abc12345"))
        .expect("create failed");
    assert!(user.password.is_none());
    assert_eq!(user.email, b"a@example.com".to_vec());
    assert_eq!(user.full_name, Vec::<u8>::new());
    assert!(user.image.is_none());
}

#[test]
fn recreating_same_email_is_client_error() {
    let mut repo = UserRepository::new();
    create(&mut repo, new_user("dup@example.com", "abc12345"), toy_hash("abc12345"))
        .expect("first create failed");
    let err = create(&mut repo, new_user("dup@example.com", "xyz98765"), toy_hash("xyz98765"))
        .expect_err("second create must fail");
    assert_eq!(err, ApiError::Conflict);
    assert_eq!(err.status_code(), 400);
}

#[test]
fn find_after_create_matches_exactly() {
    let mut repo = UserRepository::new();
    create(&mut repo, new_user("x@example.com", "pw1aaaaa"), toy_hash("pw1aaaaa"))
        .expect("create failed");
    create(&mut repo, new_user("y@example.com", "pw2bbbbb"), toy_hash("pw2bbbbb"))
        .expect("create failed");
    let user = find(&repo, "x@example.com".to_string()).expect("find failed");
    assert_eq!(user.email, b"x@example.com".to_vec());
    assert!(user.password.is_none());
}

#[test]
fn find_on_empty_table_is_not_found() {
    let repo = UserRepository::new();
    let err = find(&repo, "ghost@example.com".to_string()).expect_err("must be not found");
    assert_eq!(err, ApiError::NotFound);
    assert_eq!(err.status_code(), 400);
}

#[test]
fn delete_removes_row_and_returns_snapshot() {
    let mut repo = UserRepository::new();
    create(&mut repo, new_user("gone@example.com", "abc12345"), toy_hash("abc12345"))
        .expect("create failed");
    let snapshot = delete(&mut repo, "gone@example.com".to_string()).expect("delete failed");
    assert_eq!(snapshot.email, b"gone@example.com".to_vec());
    let err = find(&repo, "gone@example.com".to_string()).expect_err("row must be gone");
    assert_eq!(err, ApiError::NotFound);
}

#[test]
fn delete_leaves_other_rows_untouched() {
    let mut repo = UserRepository::new();
    create(&mut repo, new_user("one@example.com", "abc12345"), toy_hash("abc12345"))
        .expect("create failed");
    create(&mut repo, new_user("two@example.com", "def67890"), toy_hash("def67890"))
        .expect("create failed");
    delete(&mut repo, "one@example.com".to_string()).expect("delete failed");
    let kept = find(&repo, "two@example.com".to_string()).expect("other row must remain");
    assert_eq!(kept.email, b"two@example.com".to_vec());
}

#[test]
fn delete_missing_row_is_not_found() {
    let mut repo = UserRepository::new();
    let err = delete(&mut repo, "absent@example.com".to_string()).expect_err("must fail");
    assert_eq!(err, ApiError::NotFound);
}

#[test]
fn sign_in_with_correct_credentials_expires_after_issuance() {
    let mut repo = UserRepository::new();
    create(&mut repo, new_user("s@example.com", "abc12345"), toy_hash("abc12345"))
        .expect("create failed");
    let credentials = SignInWithEmail {
        email: "s@example.com".to_string(),
        password: "abc12345".to_string(),
    };
    let now: i64 = 1_700_000_000;
    let (user, claim) =
        sign_in_with_email(&repo, &credentials, toy_hash("abc12345"), now, 3600)
            .expect("sign-in failed");
    assert!(claim.expires_at > now);
    assert_eq!(claim.expires_at, now + 3600);
    assert_eq!(claim.subject, b"s@example.com".to_vec());
    assert!(user.password.is_none());
    assert_eq!(user.email, b"s@example.com".to_vec());
}

#[test]
fn sign_in_with_wrong_password_is_client_error() {
    let mut repo = UserRepository::new();
    create(&mut repo, new_user("w@example.com", "abc12345"), toy_hash("abc12345"))
        .expect("create failed");
    let credentials = SignInWithEmail {
        email: "w@example.com".to_string(),
        password: "wrong999".to_string(),
    };
    let err = sign_in_with_email(&repo, &credentials, toy_hash("wrong999"), 1000, 3600)
        .expect_err("sign-in must fail");
    assert_eq!(err, ApiError::WrongPassword);
    assert_eq!(err.status_code(), 400);
}

#[test]
fn sign_in_with_unknown_email_is_not_found() {
    let repo = UserRepository::new();
    let credentials = SignInWithEmail {
        email: "nobody@example.com".to_string(),
        password: "abc12345".to_string(),
    };
    let err = sign_in_with_email(&repo, &credentials, toy_hash("abc12345"), 1000, 3600)
        .expect_err("sign-in must fail");
    assert_eq!(err, ApiError::NotFound);
}

#[test]
fn claim_issue_exact_expiry() {
    let claim = Claim::issue(b"subj".to_vec(), 100, 3600);
    assert_eq!(claim.expires_at, 3700);
    assert_eq!(claim.subject, b"subj".to_vec());
}

#[test]
fn jwt_bundle_carries_token_expiry_and_sanitized_user() {
    let mut repo = UserRepository::new();
    let user = create(&mut repo, new_user("j@example.com", "abc12345"), toy_hash("abc12345"))
        .expect("create failed");
    let claim = Claim::issue(b"j@example.com".to_vec(), 50, 10);
    let bundle = get_jwt_and_user(user, "token-bytes".to_string(), &claim);
    assert_eq!(bundle.access_token, "token-bytes".to_string());
    assert_eq!(bundle.expired_at, 60);
    assert!(bundle.user.password.is_none());
    assert_eq!(bundle.user.email, b"j@example.com".to_vec());
}

#[test]
fn update_with_only_full_name_keeps_image() {
    let mut repo = UserRepository::new();
    create(&mut repo, new_user("u@example.com", "abc12345"), toy_hash("abc12345"))
        .expect("create failed");
    let both = UpdateProfile {
        full_name: Some("Ada Lovelace".to_string()),
        image: Some("https://example.com/a.png".to_string()),
    };
    let user = repo.update(both, "u@example.com".to_string()).expect("update failed");
    assert_eq!(user.full_name, b"Ada Lovelace".to_vec());
    assert_eq!(user.image, Some(b"https://example.com/a.png".to_vec()));

    let only_name = UpdateProfile { full_name: Some("Grace Hopper".to_string()), image: None };
    let user = repo.update(only_name, "u@example.com".to_string()).expect("update failed");
    assert_eq!(user.full_name, b"Grace Hopper".to_vec());
    assert_eq!(user.image, Some(b"https://example.com/a.png".to_vec()));

    let only_image = UpdateProfile {
        full_name: None,
        image: Some("https://example.com/b.png".to_string()),
    };
    let user = repo.update(only_image, "u@example.com".to_string()).expect("update failed");
    assert_eq!(user.full_name, b"Grace Hopper".to_vec());
    assert_eq!(user.image, Some(b"https://example.com/b.png".to_vec()));
    assert!(user.password.is_some());
}

#[test]
fn update_missing_row_is_not_found() {
    let mut repo = UserRepository::new();
    let patch = UpdateProfile { full_name: Some("Nobody".to_string()), image: None };
    let err = repo.update(patch, "absent@example.com".to_string()).expect_err("must fail");
    assert_eq!(err, user_service::models::RepoError::NotFound);
}
