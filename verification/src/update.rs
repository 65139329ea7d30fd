use vstd::prelude::*;

use crate::errors::Error;
use crate::read;
use crate::store::{
    contains_uid, lemma_update_uid_absent, lemma_update_uid_at, opt_str_view, patched, update_uid,
    UserStore, UserView,
};

verus! {

/// The patch of the update operation: a field that is `Some` is replaced, a
/// field that is `None` keeps its stored value.
pub struct User {
    pub name: Option<String>,
    pub email: Option<String>,
}

/// The mathematical value of a patch.
pub ghost struct PatchView {
    pub name: Option<Seq<char>>,
    pub email: Option<Seq<char>>,
}

impl View for User {
    type V = PatchView;

    open spec fn view(&self) -> PatchView {
        PatchView { name: opt_str_view(self.name), email: opt_str_view(self.email) }
    }
}

impl User {
    /// A copy of the patch, equal to it in both fields.
    pub fn duplicate(&self) -> (r: User)
        ensures
            r@ == self@,
    {
        User {
            name: read::clone_opt_string(&self.name),
            email: read::clone_opt_string(&self.email),
        }
    }
}

/// Whether a patch gives no field at all. Such a patch is rejected with a
/// defined "nothing to update" error rather than touching the table.
pub open spec fn empty_patch(p: PatchView) -> bool {
    p.name is None && p.email is None
}

/// Whether the fields a patch gives fit their bounded-length columns.
pub open spec fn fits_patch(p: PatchView) -> bool {
    &&& match p.name {
        Some(n) => n.len() <= 128,
        None => true,
    }
    &&& match p.email {
        Some(e) => e.len() <= 255,
        None => true,
    }
}

/// When an update succeeds: the patch gives at least one field and, where a
/// row carries the identifier, the given fields fit their columns. An
/// identifier that no row carries succeeds silently — the statement affects
/// zero rows, and no row count distinguishes that from success.
pub open spec fn update_ok(s: Seq<UserView>, uid: Seq<char>, p: PatchView) -> bool {
    &&& !empty_patch(p)
    &&& contains_uid(s, uid) ==> fits_patch(p)
}

/// The error a failing update reports: the empty patch is rejected before
/// the table is consulted; otherwise a patch value did not fit the column of
/// the row it would have changed.
pub open spec fn update_err(p: PatchView) -> Error {
    if empty_patch(p) {
        Error::EmptyPatch
    } else {
        Error::ValueTooLong
    }
}

/// Applies a partial update to the row carrying the external identifier:
/// fields the patch gives are replaced, the others — identity, external
/// identifier and creation timestamp among them — keep their value. An empty
/// patch is rejected first; an identifier no row carries is a silent
/// success that changes nothing; a patch value that does not fit its column
/// is rejected. On failure the table is unchanged.
pub fn update_user(store: &mut UserStore, user_uid: String, user: User) -> (r: Result<(), Error>)
    requires
        old(store).wf(),
    ensures
        final(store).wf(),
        final(store).next_id == old(store).next_id,
        match r {
            Ok(()) => {
                &&& update_ok(old(store)@, user_uid@, user@)
                &&& final(store)@ =~= update_uid(old(store)@, user_uid@, user@.name, user@.email)
            },
            Err(e) => {
                &&& !update_ok(old(store)@, user_uid@, user@)
                &&& e == update_err(user@)
                &&& final(store)@ == old(store)@
            },
        },
{
    let patch_is_empty = match (&user.name, &user.email) {
        (None, None) => true,
        _ => false,
    };
    if patch_is_empty {
        return Err(Error::EmptyPatch);
    }
    let j = match store.find_uid(&user_uid) {
        Some(j) => j,
        None => {
            proof {
                lemma_update_uid_absent(store@, user_uid@, user@.name, user@.email);
            }
            return Ok(());
        },
    };
    let name_too_long = match &user.name {
        Some(n) => n.as_str().unicode_len() > 128,
        None => false,
    };
    let email_too_long = match &user.email {
        Some(e) => e.as_str().unicode_len() > 255,
        None => false,
    };
    if name_too_long || email_too_long {
        return Err(Error::ValueTooLong);
    }
    let ghost oldv = store@;
    let old_row = store.users.remove(j);
    let new_row = read::User {
        id: old_row.id,
        user_uid: old_row.user_uid,
        created_at: old_row.created_at,
        name: match &user.name {
            Some(n) => n.clone(),
            None => old_row.name,
        },
        email: match &user.email {
            Some(e) => Some(e.clone()),
            None => old_row.email,
        },
    };
    let ghost rv = new_row@;
    store.users.insert(j, new_row);
    proof {
        assert(rv == patched(oldv[j as int], user@.name, user@.email));
        assert(store@ =~= oldv.update(j as int, rv));
        lemma_update_uid_at(oldv, user_uid@, j as int, user@.name, user@.email);
        assert(forall|i: int|
            0 <= i < store@.len() ==> (#[trigger] store@[i]).id == oldv[i].id && store@[i].user_uid
                == oldv[i].user_uid);
    }
    Ok(())
}

} // verus!
