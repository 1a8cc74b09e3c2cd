use user_service::handlers::create;
use user_service::models::{ApiError, NewUser, UpdateProfile, ValidationIssue};
use user_service::repo::UserRepository;
use user_service::validate::{validate_new_user, validate_password};

fn new_user(email: &str, password: &str) -> NewUser {
    NewUser { email: email.to_string(), password: password.to_string() }
}

#[test]
fn valid_payload_passes_validation() {
    let ok = validate_new_user(&new_user("valid@example.com", "abcd1234"));
    assert!(ok.is_ok());
}

#[test]
fn invalid_email_is_rejected() {
    let issues = validate_new_user(&new_user("not-an-email", "abcd1234"))
        .expect_err("must be rejected");
    assert_eq!(issues, vec![ValidationIssue::InvalidEmail]);
}

#[test]
fn empty_email_is_rejected() {
    let issues = validate_new_user(&new_user("", "abcd1234")).expect_err("must be rejected");
    assert_eq!(issues, vec![ValidationIssue::InvalidEmail]);
}

#[test]
fn short_password_is_rejected() {
    let issues = validate_password("a1");
    assert_eq!(issues, vec![ValidationIssue::PasswordTooShort]);
}

#[test]
fn password_without_letter_is_rejected() {
    let issues = validate_password("12345678");
    assert_eq!(issues, vec![ValidationIssue::PasswordMissingAlphabet]);
}

#[test]
fn password_without_digit_is_rejected() {
    let issues = validate_password("abcdefgh");
    assert_eq!(issues, vec![ValidationIssue::PasswordMissingNumber]);
}

#[test]
fn empty_password_raises_every_rule() {
    let issues = validate_password("");
    assert_eq!(
        issues,
        vec![
            ValidationIssue::PasswordTooShort,
            ValidationIssue::PasswordMissingAlphabet,
            ValidationIssue::PasswordMissingNumber,
        ]
    );
}

#[test]
fn eight_characters_with_letter_and_digit_pass() {
    assert!(validate_password("abcd1234").is_empty());
}

#[test]
fn create_with_invalid_payload_never_reaches_store() {
    let mut repo = UserRepository::new();
    let err = create(&mut repo, new_user("bad", "short"), vec![1, 2, 3])
        .expect_err("must be rejected");
    match err {
        ApiError::Validation(issues) => {
            assert_eq!(
                issues,
                vec![
                    ValidationIssue::InvalidEmail,
                    ValidationIssue::PasswordTooShort,
                    ValidationIssue::PasswordMissingNumber,
                ]
            );
        }
        other => panic!("expected a validation error, got {:?}", other),
    }
    assert!(user_service::handlers::find(&repo, "bad".to_string()).is_err());
}

#[test]
fn status_codes_follow_error_class() {
    assert_eq!(ApiError::Validation(vec![ValidationIssue::InvalidEmail]).status_code(), 400);
    assert_eq!(ApiError::NotFound.status_code(), 400);
    assert_eq!(ApiError::Conflict.status_code(), 400);
    assert_eq!(ApiError::Store.status_code(), 400);
    assert_eq!(ApiError::MissingPassword.status_code(), 400);
    assert_eq!(ApiError::WrongPassword.status_code(), 400);
    assert_eq!(ApiError::Internal.status_code(), 500);
}

#[test]
fn as_hashmap_holds_both_columns_with_empty_for_absent() {
    let patch = UpdateProfile { full_name: Some("Ada".to_string()), image: None };
    let map = patch.as_hashmap();
    assert_eq!(map.len(), 2);
    assert_eq!(map.get("full_name"), Some(&"Ada".to_string()));
    assert_eq!(map.get("image"), Some(&"".to_string()));

    let patch = UpdateProfile { full_name: None, image: Some("https://e.com/p".to_string()) };
    let map = patch.as_hashmap();
    assert_eq!(map.get("full_name"), Some(&"".to_string()));
    assert_eq!(map.get("image"), Some(&"https://e.com/p".to_string()));
}
