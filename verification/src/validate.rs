//! Input validation for sign-up payloads: email format through an outside
//! checker, password rules proved directly over the characters.

use crate::models::{NewUser, ValidationIssue};
use validator::ValidateEmail;
use vstd::prelude::*;
use vstd::string::StrSliceExecFns;

verus! {

/// Whether the outside email checker accepts this character sequence.
pub uninterp spec fn email_accepted(s: Seq<char>) -> bool;

/// Relies on validator's `ValidateEmail::validate_email` for `&str`: the
/// verdict is a function of the characters alone, and an empty string is
/// always rejected.
#[verifier::external_body]
fn check_email(s: &str) -> (r: bool)
    ensures
        r == email_accepted(s@),
        s@.len() == 0 ==> !r,
{
    s.validate_email()
}

pub open spec fn is_ascii_letter(c: char) -> bool {
    ('A' <= c && c <= 'Z') || ('a' <= c && c <= 'z')
}

pub open spec fn is_ascii_digit(c: char) -> bool {
    '0' <= c && c <= '9'
}

pub open spec fn has_letter(s: Seq<char>) -> bool {
    exists|i: int| 0 <= i < s.len() && is_ascii_letter(s[i])
}

pub open spec fn has_digit(s: Seq<char>) -> bool {
    exists|i: int| 0 <= i < s.len() && is_ascii_digit(s[i])
}

/// The password rules: at least eight characters, at least one ASCII
/// letter, at least one ASCII digit.
pub open spec fn password_accepted(s: Seq<char>) -> bool {
    s.len() >= 8 && has_letter(s) && has_digit(s)
}

/// Exactly the issues a password raises, in a fixed order.
pub open spec fn password_issues(s: Seq<char>) -> Seq<ValidationIssue> {
    let short = if s.len() < 8 {
        seq![ValidationIssue::PasswordTooShort]
    } else {
        Seq::<ValidationIssue>::empty()
    };
    let letter = if !has_letter(s) {
        seq![ValidationIssue::PasswordMissingAlphabet]
    } else {
        Seq::<ValidationIssue>::empty()
    };
    let digit = if !has_digit(s) {
        seq![ValidationIssue::PasswordMissingNumber]
    } else {
        Seq::<ValidationIssue>::empty()
    };
    short + letter + digit
}

/// Exactly the issues a sign-up payload raises: an email issue first,
/// then the password issues.
pub open spec fn new_user_issues(email: Seq<char>, password: Seq<char>) -> Seq<ValidationIssue> {
    let em = if !email_accepted(email) {
        seq![ValidationIssue::InvalidEmail]
    } else {
        Seq::<ValidationIssue>::empty()
    };
    em + password_issues(password)
}

/// A payload is accepted exactly when it raises no issue.
pub proof fn lemma_no_issues_means_accepted(email: Seq<char>, password: Seq<char>)
    ensures
        new_user_issues(email, password).len() == 0 <==> email_accepted(email)
            && password_accepted(password),
{
}

fn contains_letter(s: &str) -> (r: bool)
    ensures
        r == has_letter(s@),
{
    let n: usize = s.unicode_len();
    let mut i: usize = 0;
    while i < n
        invariant
            n == s@.len(),
            0 <= i <= n,
            forall|j: int| 0 <= j < i ==> !is_ascii_letter(s@[j]),
        decreases n - i,
    {
        let c = s.get_char(i);
        if ('A' <= c && c <= 'Z') || ('a' <= c && c <= 'z') {
            return true;
        }
        i = i + 1;
    }
    false
}

fn contains_digit(s: &str) -> (r: bool)
    ensures
        r == has_digit(s@),
{
    let n: usize = s.unicode_len();
    let mut i: usize = 0;
    while i < n
        invariant
            n == s@.len(),
            0 <= i <= n,
            forall|j: int| 0 <= j < i ==> !is_ascii_digit(s@[j]),
        decreases n - i,
    {
        let c = s.get_char(i);
        if '0' <= c && c <= '9' {
            return true;
        }
        i = i + 1;
    }
    false
}

/// All issues the password raises; empty exactly when the password is
/// accepted.
pub fn validate_password(password: &str) -> (r: Vec<ValidationIssue>)
    ensures
        r@ == password_issues(password@),
        r@.len() == 0 <==> password_accepted(password@),
{
    let mut issues: Vec<ValidationIssue> = Vec::new();
    if s_len_below_8(password) {
        issues.push(ValidationIssue::PasswordTooShort);
    }
    if !contains_letter(password) {
        issues.push(ValidationIssue::PasswordMissingAlphabet);
    }
    if !contains_digit(password) {
        issues.push(ValidationIssue::PasswordMissingNumber);
    }
    proof {
        assert(issues@ =~= password_issues(password@));
    }
    issues
}

fn s_len_below_8(s: &str) -> (r: bool)
    ensures
        r == (s@.len() < 8),
{
    s.unicode_len() < 8
}

/// All issues the payload raises: `Ok` exactly when the email has a valid
/// format and the password meets every rule.
pub fn validate_new_user(new_user: &NewUser) -> (r: Result<(), Vec<ValidationIssue>>)
    ensures
        r is Ok <==> email_accepted(new_user.email@) && password_accepted(new_user.password@),
        r matches Err(v) ==> v@ == new_user_issues(new_user.email@, new_user.password@),
{
    let mut issues: Vec<ValidationIssue> = Vec::new();
    if !check_email(new_user.email.as_str()) {
        issues.push(ValidationIssue::InvalidEmail);
    }
    let mut pw = validate_password(new_user.password.as_str());
    issues.append(&mut pw);
    proof {
        assert(issues@ =~= new_user_issues(new_user.email@, new_user.password@));
    }
    if issues.len() == 0 {
        Ok(())
    } else {
        Err(issues)
    }
}

} // verus!
