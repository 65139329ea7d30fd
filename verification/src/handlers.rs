use vstd::prelude::*;
use vstd::string::StringSliceAdditionalSpecFns;

use crate::create;
use crate::delete;
use crate::errors::{http_status, spec_http_status, Error};
use crate::query::{spec_parse_query, GetUsersQuery};
use crate::read;
use crate::read::GetUsersResponse;
use crate::store::{contains_uid, filtered, lookup_uid, remove_uid, update_uid, UserStore};
use crate::update;

verus! {

/// What a handler hands the HTTP layer: the status code of the response and
/// the body — the operation's result on success, the reported error
/// otherwise.
pub struct Reply<T> {
    pub status: u16,
    pub body: Result<T, Error>,
}

/// Handles a list request: binds the raw query string, lists the table.
/// A well-formed query string gets 200 and the filtered rows; a malformed
/// one gets 400, never a server error.
pub fn get_users(store: &UserStore, query_string: &str) -> (r: Reply<GetUsersResponse>)
    ensures
        match spec_parse_query(query_string.spec_bytes()) {
            Some(q) => {
                &&& r.status == 200
                &&& r.body matches Ok(resp) && resp@.data =~= filtered(store@, q.name)
                    && resp@.total == resp@.data.len()
            },
            None => {
                &&& r.status == 400
                &&& r.body == Err::<GetUsersResponse, Error>(Error::BadQuery)
            },
        },
{
    match GetUsersQuery::from_request(query_string) {
        Ok(q) => {
            let resp = read::get_users(store, &q);
            Reply { status: 200, body: Ok(resp) }
        },
        Err(e) => Reply { status: http_status(&e), body: Err(e) },
    }
}

/// Handles a point lookup: 200 and the row when the identifier is present,
/// 404 when it is not.
pub fn get_user(store: &UserStore, user_uid: String) -> (r: Reply<read::User>)
    ensures
        match lookup_uid(store@, user_uid@) {
            Some(u) => {
                &&& r.status == 200
                &&& r.body matches Ok(row) && row@ == u
            },
            None => {
                &&& r.status == 404
                &&& r.body == Err::<read::User, Error>(Error::NotFound)
            },
        },
{
    match read::get_user(store, user_uid) {
        Ok(row) => Reply { status: 200, body: Ok(row) },
        Err(e) => Reply { status: http_status(&e), body: Err(e) },
    }
}

/// Handles a create: 200 and an echo of the input when the insert succeeds;
/// otherwise the error's status, with the table unchanged.
pub fn create_user(store: &mut UserStore, user: create::User, user_uid: String, created_at: i64) -> (r:
    Reply<create::User>)
    requires
        old(store).wf(),
    ensures
        final(store).wf(),
        match r.body {
            Ok(echo) => {
                &&& r.status == 200
                &&& echo@ == user@
                &&& create::create_ok(old(store)@, old(store).next_id as int, user@, user_uid@)
                &&& final(store)@ =~= old(store)@.push(
                    create::new_row(
                        old(store).next_id as int,
                        user_uid@,
                        created_at as int,
                        user@,
                    ),
                )
                &&& final(store).next_id == old(store).next_id + 1
            },
            Err(e) => {
                &&& !create::create_ok(old(store)@, old(store).next_id as int, user@, user_uid@)
                &&& e == create::create_err(old(store)@, user@, user_uid@)
                &&& r.status == spec_http_status(e)
                &&& final(store)@ == old(store)@
                &&& final(store).next_id == old(store).next_id
            },
        },
{
    let echo = user.duplicate();
    match create::create_user(store, user, user_uid, created_at) {
        Ok(()) => Reply { status: 200, body: Ok(echo) },
        Err(e) => Reply { status: http_status(&e), body: Err(e) },
    }
}

/// Handles an update: 200 and an echo of the patch when the statement ran —
/// an identifier no row carries succeeds silently, changing nothing;
/// otherwise the error's status — 400 for the empty patch — with the table
/// unchanged.
pub fn update_user(store: &mut UserStore, user_uid: String, user: update::User) -> (r: Reply<
    update::User>)
    requires
        old(store).wf(),
    ensures
        final(store).wf(),
        final(store).next_id == old(store).next_id,
        match r.body {
            Ok(echo) => {
                &&& r.status == 200
                &&& echo@ == user@
                &&& update::update_ok(old(store)@, user_uid@, user@)
                &&& final(store)@ =~= update_uid(old(store)@, user_uid@, user@.name, user@.email)
            },
            Err(e) => {
                &&& !update::update_ok(old(store)@, user_uid@, user@)
                &&& e == update::update_err(user@)
                &&& r.status == spec_http_status(e)
                &&& final(store)@ == old(store)@
            },
        },
{
    let echo = user.duplicate();
    match update::update_user(store, user_uid, user) {
        Ok(()) => Reply { status: 200, body: Ok(echo) },
        Err(e) => Reply { status: http_status(&e), body: Err(e) },
    }
}

/// Handles a delete: 200 when the row left the table, 404 when no row
/// carried the identifier.
pub fn delete_user(store: &mut UserStore, user_uid: String) -> (r: Reply<()>)
    requires
        old(store).wf(),
    ensures
        final(store).wf(),
        final(store).next_id == old(store).next_id,
        match r.body {
            Ok(()) => {
                &&& r.status == 200
                &&& contains_uid(old(store)@, user_uid@)
                &&& final(store)@ =~= remove_uid(old(store)@, user_uid@)
                &&& final(store)@.len() + 1 == old(store)@.len()
            },
            Err(e) => {
                &&& r.status == 404
                &&& e == Error::NotFound
                &&& !contains_uid(old(store)@, user_uid@)
                &&& final(store)@ == old(store)@
            },
        },
{
    match delete::delete_user(store, user_uid) {
        Ok(()) => Reply { status: 200, body: Ok(()) },
        Err(e) => Reply { status: http_status(&e), body: Err(e) },
    }
}

} // verus!
