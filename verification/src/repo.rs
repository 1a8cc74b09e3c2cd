//! The user store: a table of user rows keyed by email, with create,
//! point lookup, profile update and delete.
//!
//! The table's mathematical value is a map from email bytes to row models;
//! every operation's contract is stated as a map operation on that view.

use crate::models::{
    copy_bytes, copy_opt_bytes, opt_bytes, user_model, NewUser, RepoError, UpdateProfile, User,
    UserModel,
};
use vstd::prelude::*;
use vstd::string::StrSliceExecFns;
use vstd::utf8::encode_utf8;

verus! {

/// The map a row sequence denotes: each email to the model of the last row
/// that carries it.
pub open spec fn table_view(rows: Seq<User>) -> Map<Seq<u8>, UserModel>
    decreases rows.len(),
{
    if rows.len() == 0 {
        Map::empty()
    } else {
        table_view(rows.drop_last()).insert(rows.last().email@, user_model(rows.last()))
    }
}

/// No two rows share an email.
pub open spec fn unique_emails(rows: Seq<User>) -> bool {
    forall|i: int, j: int| 0 <= i < j < rows.len() ==> rows[i].email@ != rows[j].email@
}

/// Point lookup on a table value.
pub open spec fn table_lookup(t: Map<Seq<u8>, UserModel>, email: Seq<u8>) -> Option<UserModel> {
    if t.contains_key(email) {
        Some(t[email])
    } else {
        None
    }
}

/// The model of a freshly created row: the email, the password hash, an
/// empty full name and no image.
pub open spec fn created_model(id: int, email: Seq<u8>, password_hash: Seq<u8>) -> UserModel {
    UserModel {
        id: id,
        email: email,
        full_name: Seq::<u8>::empty(),
        image: None,
        password: Some(password_hash),
    }
}

/// A profile patch applied to a row model: a supplied field is replaced by
/// the UTF-8 bytes of the supplied string, an absent field keeps its
/// persisted value; identifier, email and password are never touched.
pub open spec fn apply_patch(m: UserModel, p: UpdateProfile) -> UserModel {
    UserModel {
        id: m.id,
        email: m.email,
        full_name: match p.full_name {
            Some(s) => encode_utf8(s@),
            None => m.full_name,
        },
        image: match p.image {
            Some(s) => Some(encode_utf8(s@)),
            None => m.image,
        },
        password: m.password,
    }
}

proof fn lemma_view_contains(rows: Seq<User>, e: Seq<u8>)
    ensures
        table_view(rows).contains_key(e) <==> exists|i: int|
            0 <= i < rows.len() && rows[i].email@ == e,
    decreases rows.len(),
{
    if rows.len() == 0 {
    } else {
        let sub = rows.drop_last();
        lemma_view_contains(sub, e);
        if rows.last().email@ == e {
            assert(rows[rows.len() - 1].email@ == e);
        } else {
            if table_view(rows).contains_key(e) {
                let i = choose|i: int| 0 <= i < sub.len() && sub[i].email@ == e;
                assert(rows[i].email@ == e);
            }
            if exists|i: int| 0 <= i < rows.len() && rows[i].email@ == e {
                let i = choose|i: int| 0 <= i < rows.len() && rows[i].email@ == e;
                assert(i < rows.len() - 1);
                assert(sub[i].email@ == e);
            }
        }
    }
}

proof fn lemma_view_last_match(rows: Seq<User>, e: Seq<u8>, i: int)
    requires
        0 <= i < rows.len(),
        rows[i].email@ == e,
        forall|j: int| i < j < rows.len() ==> rows[j].email@ != e,
    ensures
        table_view(rows).contains_key(e),
        table_view(rows)[e] == user_model(rows[i]),
    decreases rows.len(),
{
    let sub = rows.drop_last();
    if i == rows.len() - 1 {
    } else {
        assert(rows.last().email@ != e);
        assert(sub[i].email@ == e);
        assert(forall|j: int| i < j < sub.len() ==> sub[j].email@ != e);
        lemma_view_last_match(sub, e, i);
    }
}

proof fn lemma_view_push(rows: Seq<User>, u: User)
    ensures
        table_view(rows.push(u)) == table_view(rows).insert(u.email@, user_model(u)),
{
    assert(rows.push(u).drop_last() =~= rows);
    assert(rows.push(u).last() == u);
}

proof fn lemma_view_ids_bounded(rows: Seq<User>, bound: int)
    requires
        forall|i: int| 0 <= i < rows.len() ==> rows[i].id < bound,
    ensures
        forall|k: Seq<u8>| table_view(rows).contains_key(k) ==> table_view(rows)[k].id < bound,
    decreases rows.len(),
{
    if rows.len() == 0 {
    } else {
        let sub = rows.drop_last();
        assert(forall|i: int| 0 <= i < sub.len() ==> sub[i].id < bound);
        lemma_view_ids_bounded(sub, bound);
    }
}

proof fn lemma_view_key_email(rows: Seq<User>)
    ensures
        forall|k: Seq<u8>| #[trigger]
            table_view(rows).contains_key(k) ==> table_view(rows)[k].email == k,
    decreases rows.len(),
{
    if rows.len() == 0 {
    } else {
        lemma_view_key_email(rows.drop_last());
    }
}

proof fn lemma_view_remove_at(rows: Seq<User>, i: int)
    requires
        unique_emails(rows),
        0 <= i < rows.len(),
    ensures
        table_view(rows.remove(i)) == table_view(rows).remove(rows[i].email@),
    decreases rows.len(),
{
    let e = rows[i].email@;
    let sub = rows.drop_last();
    if i == rows.len() - 1 {
        assert(rows.remove(i) =~= sub);
        lemma_view_contains(sub, e);
        assert(forall|j: int| 0 <= j < sub.len() ==> rows[j].email@ != e);
        assert(!table_view(sub).contains_key(e));
        assert(table_view(sub).insert(e, user_model(rows.last())).remove(e) =~= table_view(sub));
    } else {
        let last = rows.last();
        assert(forall|a: int, b: int|
            0 <= a < b < sub.len() ==> sub[a].email@ != sub[b].email@);
        lemma_view_remove_at(sub, i);
        assert(rows.remove(i) =~= sub.remove(i).push(last));
        lemma_view_push(sub.remove(i), last);
        assert(last.email@ != e);
        assert(table_view(sub).remove(e).insert(last.email@, user_model(last)) =~= table_view(
            sub,
        ).insert(last.email@, user_model(last)).remove(e));
    }
}

/// The user table. Emails are unique; row identifiers are generated by the
/// store and never reused.
pub struct UserRepository {
    rows: Vec<User>,
    next_id: i32,
}

impl View for UserRepository {
    type V = Map<Seq<u8>, UserModel>;

    closed spec fn view(&self) -> Map<Seq<u8>, UserModel> {
        table_view(self.rows@)
    }
}

impl UserRepository {
    /// Well-formedness: emails are pairwise distinct and every stored
    /// identifier is below the generator.
    pub closed spec fn wf(&self) -> bool {
        &&& unique_emails(self.rows@)
        &&& forall|i: int| 0 <= i < self.rows@.len() ==> self.rows@[i].id < self.next_id
        &&& self.next_id >= 1
    }

    /// Whether the store can still mint a fresh row identifier.
    pub closed spec fn ids_available(&self) -> bool {
        self.next_id < i32::MAX
    }

    /// Every record in the table is filed under exactly the email it
    /// carries.
    pub proof fn lemma_keys_match_emails(&self)
        ensures
            forall|k: Seq<u8>| #[trigger] self@.contains_key(k) ==> self@[k].email == k,
    {
        lemma_view_key_email(self.rows@);
    }

    /// An empty table.
    pub fn new() -> (r: Self)
        ensures
            r.wf(),
            r.ids_available(),
            r@ == Map::<Seq<u8>, UserModel>::empty(),
    {
        let r = UserRepository { rows: Vec::new(), next_id: 1 };
        proof {
            assert(r.rows@.len() == 0);
        }
        r
    }

    fn find_index(&self, email: &[u8]) -> (r: Option<usize>)
        ensures
            match r {
                Some(i) => i < self.rows@.len() && self.rows@[i as int].email@ == email@,
                None => forall|i: int| 0 <= i < self.rows@.len() ==> self.rows@[i].email@ != email@,
            },
    {
        let n = self.rows.len();
        let mut i: usize = 0;
        while i < n
            invariant
                n == self.rows@.len(),
                0 <= i <= n,
                forall|j: int| 0 <= j < i ==> self.rows@[j].email@ != email@,
            decreases n - i,
        {
            if bytes_equal(self.rows[i].email.as_slice(), email) {
                return Some(i);
            }
            i = i + 1;
        }
        None
    }

    /// Point lookup by email: the stored row, or `NotFound` where no row
    /// carries the email.
    pub fn find_by_email(&self, email: String) -> (r: Result<User, RepoError>)
        requires
            self.wf(),
        ensures
            match table_lookup(self@, encode_utf8(email@)) {
                Some(m) => r matches Ok(u) && user_model(u) == m,
                None => r == Err::<User, RepoError>(RepoError::NotFound),
            },
    {
        let eb = email.as_str().as_bytes();
        let ghost e = encode_utf8(email@);
        match self.find_index(eb) {
            Some(i) => {
                proof {
                    assert(forall|j: int|
                        i < j < self.rows@.len() ==> self.rows@[j].email@ != e);
                    lemma_view_last_match(self.rows@, e, i as int);
                }
                let u = &self.rows[i];
                let copy = User {
                    id: u.id,
                    image: copy_opt_bytes(&u.image),
                    email: copy_bytes(&u.email),
                    full_name: copy_bytes(&u.full_name),
                    password: copy_opt_bytes(&u.password),
                };
                proof {
                    assert(user_model(copy) =~= user_model(self.rows@[i as int]));
                }
                Ok(copy)
            },
            None => {
                proof {
                    lemma_view_contains(self.rows@, e);
                }
                Err(RepoError::NotFound)
            },
        }
    }

    /// Insert a fresh row for the email, with the given password hash, an
    /// empty full name and no image. Fails with `Conflict` where a row with
    /// the email already exists, and with `IdsExhausted` where no fresh
    /// identifier is left; either failure leaves the table unchanged.
    pub fn create(&mut self, new_user: NewUser, password_hash: Vec<u8>) -> (r: Result<
        User,
        RepoError,
    >)
        requires
            old(self).wf(),
        ensures
            final(self).wf(),
            ({
                let e = encode_utf8(new_user.email@);
                &&& (old(self)@.contains_key(e) ==> r == Err::<User, RepoError>(
                    RepoError::Conflict,
                ) && final(self)@ == old(self)@)
                &&& (!old(self)@.contains_key(e) && !old(self).ids_available() ==> r == Err::<
                    User,
                    RepoError,
                >(RepoError::IdsExhausted) && final(self)@ == old(self)@)
                &&& (!old(self)@.contains_key(e) && old(self).ids_available() ==> (r matches Ok(u)
                    && user_model(u) == created_model(u.id as int, e, password_hash@)
                    && (forall|k: Seq<u8>|
                        old(self)@.contains_key(k) ==> old(self)@[k].id != u.id as int)
                    && final(self)@ == old(self)@.insert(
                        e,
                        created_model(u.id as int, e, password_hash@),
                    )))
            }),
    {
        let eb = new_user.email.as_str().as_bytes_vec();
        let ghost e = encode_utf8(new_user.email@);
        match self.find_index(eb.as_slice()) {
            Some(_) => {
                proof {
                    lemma_view_contains(self.rows@, e);
                }
                Err(RepoError::Conflict)
            },
            None => {
                proof {
                    lemma_view_contains(self.rows@, e);
                }
                if self.next_id == i32::MAX {
                    Err(RepoError::IdsExhausted)
                } else {
                    let id = self.next_id;
                    self.next_id = id + 1;
                    let row = User {
                        id,
                        image: None,
                        email: copy_bytes(&eb),
                        full_name: Vec::new(),
                        password: Some(copy_bytes(&password_hash)),
                    };
                    let ret = User {
                        id,
                        image: None,
                        email: eb,
                        full_name: Vec::new(),
                        password: Some(password_hash),
                    };
                    proof {
                        assert(user_model(row) =~= user_model(ret));
                        assert(user_model(ret) =~= created_model(id as int, e, password_hash@));
                        lemma_view_ids_bounded(self.rows@, id as int);
                    }
                    self.rows.push(row);
                    proof {
                        lemma_view_push(old(self).rows@, row);
                    }
                    Ok(ret)
                }
            },
        }
    }

    /// Apply a profile patch to the row with the email and return the
    /// patched row: a supplied field is replaced, an absent field keeps its
    /// persisted value. Fails with `NotFound`, leaving the table unchanged,
    /// where no row carries the email.
    pub fn update(&mut self, update_profile: UpdateProfile, email: String) -> (r: Result<
        User,
        RepoError,
    >)
        requires
            old(self).wf(),
        ensures
            final(self).wf(),
            ({
                let e = encode_utf8(email@);
                match table_lookup(old(self)@, e) {
                    Some(m) => r matches Ok(u) && user_model(u) == apply_patch(m, update_profile)
                        && final(self)@ == old(self)@.insert(e, apply_patch(m, update_profile)),
                    None => r == Err::<User, RepoError>(RepoError::NotFound)
                        && final(self)@ == old(self)@,
                }
            }),
    {
        let eb = email.as_str().as_bytes_vec();
        let ghost e = encode_utf8(email@);
        match self.find_index(eb.as_slice()) {
            None => {
                proof {
                    lemma_view_contains(self.rows@, e);
                }
                Err(RepoError::NotFound)
            },
            Some(i) => {
                proof {
                    assert(forall|j: int|
                        i < j < self.rows@.len() ==> self.rows@[j].email@ != e);
                    lemma_view_last_match(self.rows@, e, i as int);
                    lemma_view_remove_at(self.rows@, i as int);
                }
                let old_row = self.rows.remove(i);
                let new_full_name = match &update_profile.full_name {
                    Some(s) => s.as_str().as_bytes_vec(),
                    None => old_row.full_name,
                };
                let new_image = match &update_profile.image {
                    Some(s) => Some(s.as_str().as_bytes_vec()),
                    None => old_row.image,
                };
                let row = User {
                    id: old_row.id,
                    image: new_image,
                    email: old_row.email,
                    full_name: new_full_name,
                    password: old_row.password,
                };
                let ret = User {
                    id: row.id,
                    image: copy_opt_bytes(&row.image),
                    email: copy_bytes(&row.email),
                    full_name: copy_bytes(&row.full_name),
                    password: copy_opt_bytes(&row.password),
                };
                proof {
                    assert(user_model(ret) =~= user_model(row));
                    assert(user_model(row) =~= apply_patch(
                        table_lookup(old(self)@, e).unwrap(),
                        update_profile,
                    ));
                }
                self.rows.push(row);
                proof {
                    lemma_view_push(old(self).rows@.remove(i as int), row);
                    assert(final(self)@ =~= old(self)@.insert(e, user_model(row)));
                }
                Ok(ret)
            },
        }
    }

    /// Remove the row with the email and return the pre-deletion snapshot.
    /// Fails with `NotFound`, leaving the table unchanged, where no row
    /// carries the email.
    pub fn delete(&mut self, email: String) -> (r: Result<User, RepoError>)
        requires
            old(self).wf(),
        ensures
            final(self).wf(),
            ({
                let e = encode_utf8(email@);
                match table_lookup(old(self)@, e) {
                    Some(m) => r matches Ok(u) && user_model(u) == m
                        && final(self)@ == old(self)@.remove(e),
                    None => r == Err::<User, RepoError>(RepoError::NotFound)
                        && final(self)@ == old(self)@,
                }
            }),
    {
        let eb = email.as_str().as_bytes();
        let ghost e = encode_utf8(email@);
        match self.find_index(eb) {
            None => {
                proof {
                    lemma_view_contains(self.rows@, e);
                }
                Err(RepoError::NotFound)
            },
            Some(i) => {
                proof {
                    assert(forall|j: int|
                        i < j < self.rows@.len() ==> self.rows@[j].email@ != e);
                    lemma_view_last_match(self.rows@, e, i as int);
                    lemma_view_remove_at(self.rows@, i as int);
                }
                let row = self.rows.remove(i);
                Ok(row)
            },
        }
    }
}

/// Byte-for-byte equality of two slices.
pub(crate) fn bytes_equal(a: &[u8], b: &[u8]) -> (r: bool)
    ensures
        r == (a@ == b@),
{
    if a.len() != b.len() {
        proof {
            assert(a@ != b@);
        }
        return false;
    }
    let n = a.len();
    let mut i: usize = 0;
    while i < n
        invariant
            n == a@.len(),
            n == b@.len(),
            0 <= i <= n,
            forall|j: int| 0 <= j < i ==> a@[j] == b@[j],
        decreases n - i,
    {
        if a[i] != b[i] {
            proof {
                assert(a@ == b@ ==> a@[i as int] == b@[i as int]);
            }
            return false;
        }
        i = i + 1;
    }
    proof {
        assert(a@ =~= b@);
    }
    true
}

} // verus!
