//! Laws of the store, stated over the table view that the operations'
//! contracts use: what a lookup returns right after a create, why a second
//! create of the same email must conflict, what a delete leaves behind,
//! and which fields a partial profile patch can touch.

use crate::models::{UpdateProfile, UserModel};
use crate::repo::{apply_patch, table_lookup};
use vstd::prelude::*;

verus! {

/// After a create, a lookup of the created email returns exactly the
/// created record: `create` inserts the record under its email, and a
/// lookup of that key yields it.
pub proof fn lemma_find_after_create(t: Map<Seq<u8>, UserModel>, e: Seq<u8>, m: UserModel)
    ensures
        table_lookup(t.insert(e, m), e) == Some(m),
{
}

/// After a create, the created email is occupied, so a second create of
/// the same email fails with a conflict — a client error — and leaves the
/// table as it was.
pub proof fn lemma_recreate_conflicts(t: Map<Seq<u8>, UserModel>, e: Seq<u8>, m: UserModel)
    ensures
        t.insert(e, m).contains_key(e),
{
}

/// After a delete, the row is gone: a lookup of the deleted email fails,
/// whatever the table held before.
pub proof fn lemma_find_after_delete(t: Map<Seq<u8>, UserModel>, e: Seq<u8>)
    ensures
        table_lookup(t.remove(e), e) is None,
{
}

/// A create or an update touches only its own email: a lookup of every
/// other key returns exactly what it returned before.
pub proof fn lemma_insert_preserves_others(
    t: Map<Seq<u8>, UserModel>,
    e: Seq<u8>,
    m: UserModel,
    k: Seq<u8>,
)
    requires
        k != e,
    ensures
        table_lookup(t.insert(e, m), k) == table_lookup(t, k),
{
}

/// A delete touches only its own email: every other record is exactly as
/// it was.
pub proof fn lemma_delete_preserves_others(t: Map<Seq<u8>, UserModel>, e: Seq<u8>, k: Seq<u8>)
    requires
        k != e,
    ensures
        table_lookup(t.remove(e), k) == table_lookup(t, k),
{
}

/// A partial profile patch leaves every field it does not supply exactly
/// as persisted: an absent full name or image is kept, and the identifier,
/// the email and the password are never touched by a patch at all.
pub proof fn lemma_partial_patch_keeps_fields(m: UserModel, p: UpdateProfile)
    ensures
        p.full_name is None ==> apply_patch(m, p).full_name == m.full_name,
        p.image is None ==> apply_patch(m, p).image == m.image,
        apply_patch(m, p).id == m.id,
        apply_patch(m, p).email == m.email,
        apply_patch(m, p).password == m.password,
{
}

} // verus!
