//! Data shapes of the service: the stored user row, the request payloads,
//! the sign-in response, and the error taxonomy.

use std::collections::HashMap;
use vstd::prelude::*;

verus! {

/// A stored user row. The password holds a hash, never a plaintext, and is
/// suppressed from every record the handlers return.
#[derive(Debug)]
pub struct User {
    pub id: i32,
    pub image: Option<Vec<u8>>,
    pub email: Vec<u8>,
    pub full_name: Vec<u8>,
    pub password: Option<Vec<u8>>,
}

/// The mathematical value of a [`User`] row: the same fields, as sequences.
#[verifier::ext_equal]
pub struct UserModel {
    pub id: int,
    pub email: Seq<u8>,
    pub full_name: Seq<u8>,
    pub image: Option<Seq<u8>>,
    pub password: Option<Seq<u8>>,
}

pub open spec fn opt_bytes(o: Option<Vec<u8>>) -> Option<Seq<u8>> {
    match o {
        Some(v) => Some(v@),
        None => None,
    }
}

/// A row model with its password suppressed, as records leave the service.
pub open spec fn sanitize_model(m: UserModel) -> UserModel {
    UserModel {
        id: m.id,
        email: m.email,
        full_name: m.full_name,
        image: m.image,
        password: None,
    }
}

/// The model of a row.
pub open spec fn user_model(u: User) -> UserModel {
    UserModel {
        id: u.id as int,
        email: u.email@,
        full_name: u.full_name@,
        image: opt_bytes(u.image),
        password: opt_bytes(u.password),
    }
}

/// Byte-for-byte copy of a byte vector.
pub(crate) fn copy_bytes(v: &Vec<u8>) -> (r: Vec<u8>)
    ensures
        r@ == v@,
{
    vstd::slice::slice_to_vec(v.as_slice())
}

pub(crate) fn copy_opt_bytes(v: &Option<Vec<u8>>) -> (r: Option<Vec<u8>>)
    ensures
        opt_bytes(r) == opt_bytes(*v),
{
    match v {
        Some(b) => Some(copy_bytes(b)),
        None => None,
    }
}

impl User {
    /// The row as it may be shown to a caller: every field kept except the
    /// password, which is always absent from outbound records.
    pub fn sanitized(&self) -> (r: User)
        ensures
            r.id == self.id,
            r.email@ == self.email@,
            r.full_name@ == self.full_name@,
            opt_bytes(r.image) == opt_bytes(self.image),
            r.password is None,
    {
        User {
            id: self.id,
            image: copy_opt_bytes(&self.image),
            email: copy_bytes(&self.email),
            full_name: copy_bytes(&self.full_name),
            password: None,
        }
    }
}

/// A sign-up payload: an email and a plaintext password, both still
/// unvalidated.
#[derive(Clone, Debug)]
pub struct NewUser {
    pub email: String,
    pub password: String,
}

/// A profile patch: a field that is `None` is left untouched by `update`.
#[derive(Clone, Debug)]
pub struct UpdateProfile {
    pub full_name: Option<String>,
    pub image: Option<String>,
}

impl UpdateProfile {
    /// The supplied full name, or the empty string where none was supplied.
    pub fn full_name_value(&self) -> (r: String)
        ensures
            r@ == (match self.full_name {
                Some(s) => s@,
                None => Seq::<char>::empty(),
            }),
    {
        match &self.full_name {
            Some(s) => s.clone(),
            None => String::new(),
        }
    }

    /// The supplied image URL, or the empty string where none was supplied.
    pub fn image_value(&self) -> (r: String)
        ensures
            r@ == (match self.image {
                Some(s) => s@,
                None => Seq::<char>::empty(),
            }),
    {
        match &self.image {
            Some(s) => s.clone(),
            None => String::new(),
        }
    }

    /// Both fields under their column names, an absent field as the empty
    /// string. Nothing is proved of the map itself: its keys are strings,
    /// of which the hash-map model says nothing; the verified accessors
    /// above carry the same values with exact contracts.
    pub fn as_hashmap(&self) -> HashMap<String, String> {
        let mut hashmap = HashMap::<String, String>::new();
        hashmap.insert("full_name".to_owned(), self.full_name_value());
        hashmap.insert("image".to_owned(), self.image_value());
        hashmap
    }
}

/// A sign-in payload: an email and a plaintext password.
#[derive(Clone, Debug)]
pub struct SignInWithEmail {
    pub email: String,
    pub password: String,
}

/// A sign-in response: the sanitized user, a bearer token, and the token's
/// expiry as seconds since the Unix epoch.
#[derive(Debug)]
pub struct UserWithAuth {
    pub access_token: String,
    pub expired_at: i64,
    pub user: User,
}

/// A single reason why a sign-up payload was rejected.
#[derive(Clone, Copy, Debug, PartialEq, Eq, Structural)]
pub enum ValidationIssue {
    /// The email does not have a valid format.
    InvalidEmail,
    /// The password has fewer than eight characters.
    PasswordTooShort,
    /// The password has no ASCII letter.
    PasswordMissingAlphabet,
    /// The password has no ASCII digit.
    PasswordMissingNumber,
}

/// Failure of a store operation.
#[derive(Clone, Copy, Debug, PartialEq, Eq, Structural)]
pub enum RepoError {
    /// No row has the given email.
    NotFound,
    /// A row with the given email already exists.
    Conflict,
    /// Every representable row identifier is in use.
    IdsExhausted,
}

/// Failure of a request, as a handler reports it to the transport layer.
#[derive(Clone, Debug, PartialEq, Eq)]
pub enum ApiError {
    /// The payload was rejected before it reached the store.
    Validation(Vec<ValidationIssue>),
    /// No row has the given email.
    NotFound,
    /// A row with the given email already exists.
    Conflict,
    /// The store failed for another reason.
    Store,
    /// The row has no password credential to check against.
    MissingPassword,
    /// The supplied password does not match the stored credential.
    WrongPassword,
    /// Hashing, signing, or the store itself failed.
    Internal,
}

impl ApiError {
    /// The HTTP status this error maps to: client errors are 400,
    /// internal failures 500.
    pub open spec fn spec_status_code(&self) -> u16 {
        match self {
            ApiError::Internal => 500u16,
            _ => 400u16,
        }
    }

    /// The HTTP status code for this error.
    pub fn status_code(&self) -> (r: u16)
        ensures
            r == self.spec_status_code(),
    {
        match self {
            ApiError::Internal => 500,
            _ => 400,
        }
    }
}

} // verus!
