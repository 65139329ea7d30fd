use vstd::prelude::*;

use crate::errors::Error;
use crate::read;
use crate::store::{contains_uid, lemma_lookup_uid, opt_str_view, UserStore, UserView};

verus! {

/// The input of the create operation: the caller chooses name and email;
/// identity, external identifier and creation timestamp are assigned by the
/// store.
pub struct User {
    pub name: String,
    pub email: Option<String>,
}

/// The mathematical value of a create input.
pub ghost struct NewUserView {
    pub name: Seq<char>,
    pub email: Option<Seq<char>>,
}

impl View for User {
    type V = NewUserView;

    open spec fn view(&self) -> NewUserView {
        NewUserView { name: self.name@, email: opt_str_view(self.email) }
    }
}

impl User {
    /// A copy of the input, equal to it in both fields.
    pub fn duplicate(&self) -> (r: User)
        ensures
            r@ == self@,
    {
        User { name: self.name.clone(), email: read::clone_opt_string(&self.email) }
    }
}

/// Whether a new row fits the bounded-length columns of the table: at most
/// 128 characters for the name and the external identifier, at most 255 for
/// the email.
pub open spec fn fits_new(name: Seq<char>, uid: Seq<char>, email: Option<Seq<char>>) -> bool {
    &&& name.len() <= 128
    &&& uid.len() <= 128
    &&& match email {
        Some(e) => e.len() <= 255,
        None => true,
    }
}

/// The row a create inserts.
pub open spec fn new_row(id: int, uid: Seq<char>, created_at: int, input: NewUserView) -> UserView {
    UserView { id, user_uid: uid, created_at, name: input.name, email: input.email }
}

/// When a create succeeds: the values fit their columns, the external
/// identifier is free, and the identity space is not exhausted.
pub open spec fn create_ok(s: Seq<UserView>, next_id: int, input: NewUserView, uid: Seq<char>) -> bool {
    &&& fits_new(input.name, uid, input.email)
    &&& !contains_uid(s, uid)
    &&& next_id < i32::MAX
}

/// The error a failing create reports, by precedence: a value that does not
/// fit its column, then a taken identifier, then identity exhaustion.
pub open spec fn create_err(s: Seq<UserView>, input: NewUserView, uid: Seq<char>) -> Error {
    if !fits_new(input.name, uid, input.email) {
        Error::ValueTooLong
    } else if contains_uid(s, uid) {
        Error::Conflict
    } else {
        Error::IdentityExhausted
    }
}

/// Inserts one row. The store assigns the next identity; the caller hands in
/// the external identifier and the creation timestamp the storage layer
/// produced. Succeeds exactly when the values fit their columns, the
/// external identifier is not yet taken, and the identity space is not
/// exhausted; on success the new row is appended and its identity differs
/// from every existing one. On failure the table is unchanged.
pub fn create_user(store: &mut UserStore, user: User, user_uid: String, created_at: i64) -> (r:
    Result<(), Error>)
    requires
        old(store).wf(),
    ensures
        final(store).wf(),
        match r {
            Ok(()) => {
                &&& create_ok(old(store)@, old(store).next_id as int, user@, user_uid@)
                &&& final(store)@ =~= old(store)@.push(
                    new_row(old(store).next_id as int, user_uid@, created_at as int, user@),
                )
                &&& final(store).next_id == old(store).next_id + 1
                &&& forall|i: int|
                    0 <= i < old(store)@.len() ==> (#[trigger] old(store)@[i]).id
                        != old(store).next_id
            },
            Err(e) => {
                &&& !create_ok(old(store)@, old(store).next_id as int, user@, user_uid@)
                &&& e == create_err(old(store)@, user@, user_uid@)
                &&& final(store)@ == old(store)@
                &&& final(store).next_id == old(store).next_id
            },
        },
{
    let name_too_long = user.name.as_str().unicode_len() > 128;
    let uid_too_long = user_uid.as_str().unicode_len() > 128;
    let email_too_long = match &user.email {
        Some(e) => e.as_str().unicode_len() > 255,
        None => false,
    };
    if name_too_long || uid_too_long || email_too_long {
        return Err(Error::ValueTooLong);
    }
    let taken = match store.find_uid(&user_uid) {
        Some(_) => true,
        None => false,
    };
    if taken {
        return Err(Error::Conflict);
    }
    if store.next_id == i32::MAX {
        return Err(Error::IdentityExhausted);
    }
    let ghost oldv = store@;
    let ghost old_next = store.next_id as int;
    let row = read::User {
        id: store.next_id,
        user_uid,
        created_at,
        name: user.name,
        email: user.email,
    };
    let ghost rv = row@;
    store.users.push(row);
    store.next_id = store.next_id + 1;
    proof {
        assert(store@ =~= oldv.push(rv));
        lemma_lookup_uid(oldv, rv.user_uid);
        assert forall|i: int, j: int| 0 <= i < j < store@.len() implies store@[i].user_uid
            != store@[j].user_uid by {
            if j == oldv.len() {
                assert(store@[i] == oldv[i]);
            }
        }
        assert forall|i: int, j: int| 0 <= i < j < store@.len() implies store@[i].id
            != store@[j].id by {
            if j == oldv.len() {
                assert(store@[i] == oldv[i]);
                assert(oldv[i].id < old_next);
            }
        }
        assert forall|i: int| 0 <= i < store@.len() implies 1 <= (#[trigger] store@[i]).id
            < store.next_id by {
            if i < oldv.len() {
                assert(store@[i] == oldv[i]);
            }
        }
    }
    Ok(())
}

} // verus!
