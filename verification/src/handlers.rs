//! Request handlers: validate the payload, drive the store and the
//! credential logic, and map every outcome to a result the transport
//! layer can serialize. Records that leave a handler never carry a
//! password.

use crate::auth::{password_matches, verify_password, Claim};
use crate::models::{
    copy_bytes, opt_bytes, sanitize_model, user_model, ApiError, NewUser, RepoError,
    SignInWithEmail, User, UserWithAuth,
};
use crate::repo::{created_model, table_lookup, UserRepository};
use crate::validate::{email_accepted, new_user_issues, password_accepted, validate_new_user};
use vstd::prelude::*;
use vstd::utf8::encode_utf8;

verus! {

/// Look a user up by email: the stored record without its password, or
/// `NotFound` where no row carries the email.
pub fn find(repo: &UserRepository, email: String) -> (r: Result<User, ApiError>)
    requires
        repo.wf(),
    ensures
        match table_lookup(repo@, encode_utf8(email@)) {
            Some(m) => r matches Ok(u) && user_model(u) == sanitize_model(m),
            None => r == Err::<User, ApiError>(ApiError::NotFound),
        },
{
    match repo.find_by_email(email) {
        Ok(u) => {
            let s = u.sanitized();
            proof {
                assert(user_model(s) =~= sanitize_model(user_model(u)));
            }
            Ok(s)
        },
        Err(_) => Err(ApiError::NotFound),
    }
}

/// Create a user from a sign-up payload whose password was already hashed.
/// The payload is validated first; an accepted payload inserts a fresh row
/// and returns it without its password. Re-creating an existing email is a
/// conflict, and every failure leaves the table unchanged.
pub fn create(repo: &mut UserRepository, new_user: NewUser, password_hash: Vec<u8>) -> (r: Result<
    User,
    ApiError,
>)
    requires
        old(repo).wf(),
    ensures
        final(repo).wf(),
        ({
            let e = encode_utf8(new_user.email@);
            let valid = email_accepted(new_user.email@) && password_accepted(new_user.password@);
            &&& (!valid ==> (r matches Err(a) && a matches ApiError::Validation(v) && v@
                == new_user_issues(new_user.email@, new_user.password@)) && final(repo)@ == old(
                repo,
            )@)
            &&& (valid && old(repo)@.contains_key(e) ==> r == Err::<User, ApiError>(
                ApiError::Conflict,
            ) && final(repo)@ == old(repo)@)
            &&& (valid && !old(repo)@.contains_key(e) && !old(repo).ids_available() ==> r == Err::<
                User,
                ApiError,
            >(ApiError::Store) && final(repo)@ == old(repo)@)
            &&& (valid && !old(repo)@.contains_key(e) && old(repo).ids_available() ==> (r matches
                Ok(u) && user_model(u) == sanitize_model(
                created_model(u.id as int, e, password_hash@),
            ) && (forall|k: Seq<u8>|
                old(repo)@.contains_key(k) ==> old(repo)@[k].id != u.id as int) && final(repo)@
                == old(repo)@.insert(e, created_model(u.id as int, e, password_hash@))))
        }),
{
    match validate_new_user(&new_user) {
        Err(issues) => Err(ApiError::Validation(issues)),
        Ok(()) => {
            match repo.create(new_user, password_hash) {
                Ok(u) => {
                    let s = u.sanitized();
                    proof {
                        assert(user_model(s) =~= sanitize_model(user_model(u)));
                    }
                    Ok(s)
                },
                Err(RepoError::Conflict) => Err(ApiError::Conflict),
                Err(_) => Err(ApiError::Store),
            }
        },
    }
}

/// Delete the row with the email and return the pre-deletion snapshot
/// without its password. Fails with `NotFound`, leaving the table
/// unchanged, where no row carries the email.
pub fn delete(repo: &mut UserRepository, email: String) -> (r: Result<User, ApiError>)
    requires
        old(repo).wf(),
    ensures
        final(repo).wf(),
        ({
            let e = encode_utf8(email@);
            match table_lookup(old(repo)@, e) {
                Some(m) => r matches Ok(u) && user_model(u) == sanitize_model(m) && final(repo)@
                    == old(repo)@.remove(e),
                None => r == Err::<User, ApiError>(ApiError::NotFound) && final(repo)@ == old(
                    repo,
                )@,
            }
        }),
{
    match repo.delete(email) {
        Ok(u) => {
            let s = u.sanitized();
            proof {
                assert(user_model(s) =~= sanitize_model(user_model(u)));
            }
            Ok(s)
        },
        Err(_) => Err(ApiError::NotFound),
    }
}

/// Sign a user in: look the email up, require a stored credential, compare
/// it against the recomputed hash of the supplied password, and issue a
/// claim that expires strictly after the moment of issuance. The caller
/// hands in the recomputed hash, the current time and the token lifetime;
/// the returned record carries no password.
pub fn sign_in_with_email(
    repo: &UserRepository,
    credentials: &SignInWithEmail,
    supplied_hash: Vec<u8>,
    now: i64,
    lifetime_seconds: i64,
) -> (r: Result<(User, Claim), ApiError>)
    requires
        repo.wf(),
        lifetime_seconds > 0,
        now + lifetime_seconds <= i64::MAX,
    ensures
        ({
            let e = encode_utf8(credentials.email@);
            match table_lookup(repo@, e) {
                None => r == Err::<(User, Claim), ApiError>(ApiError::NotFound),
                Some(m) => {
                    if m.password is None {
                        r == Err::<(User, Claim), ApiError>(ApiError::MissingPassword)
                    } else if !password_matches(m.password, supplied_hash@) {
                        r == Err::<(User, Claim), ApiError>(ApiError::WrongPassword)
                    } else {
                        r matches Ok((u, c)) && user_model(u) == sanitize_model(m) && c.subject@
                            == e && c.expires_at == now + lifetime_seconds && c.expires_at > now
                    }
                },
            }
        }),
{
    proof {
        repo.lemma_keys_match_emails();
    }
    let ghost e = encode_utf8(credentials.email@);
    let user = match repo.find_by_email(credentials.email.clone()) {
        Ok(u) => u,
        Err(_) => {
            return Err(ApiError::NotFound);
        },
    };
    match &user.password {
        None => {
            return Err(ApiError::MissingPassword);
        },
        Some(_) => {
        },
    }
    if !verify_password(&user.password, supplied_hash.as_slice()) {
        return Err(ApiError::WrongPassword);
    }
    let claim = Claim::issue(copy_bytes(&user.email), now, lifetime_seconds);
    let s = user.sanitized();
    proof {
        assert(user_model(s) =~= sanitize_model(user_model(user)));
    }
    Ok((s, claim))
}

/// Bundle a signed-in user with the bearer token the caller signed for the
/// claim: the sanitized record, the token, and the claim's expiry.
pub fn get_jwt_and_user(user: User, access_token: String, claim: &Claim) -> (r: UserWithAuth)
    ensures
        r.access_token@ == access_token@,
        r.expired_at == claim.expires_at,
        r.user.id == user.id,
        r.user.email@ == user.email@,
        r.user.full_name@ == user.full_name@,
        opt_bytes(r.user.image) == opt_bytes(user.image),
        r.user.password is None,
{
    let sanitized = user.sanitized();
    UserWithAuth { access_token, expired_at: claim.expires_at, user: sanitized }
}

} // verus!
