use vstd::prelude::*;

use crate::errors::Error;
use crate::query::GetUsersQuery;
use crate::store::{filtered, lookup_uid, opt_str_view, rows_view, UserStore, UserView};

verus! {

/// One row of the users table as the read operations return it.
pub struct User {
    pub id: i32,
    pub user_uid: String,
    pub created_at: i64,
    pub name: String,
    pub email: Option<String>,
}

impl View for User {
    type V = UserView;

    open spec fn view(&self) -> UserView {
        UserView {
            id: self.id as int,
            user_uid: self.user_uid@,
            created_at: self.created_at as int,
            name: self.name@,
            email: opt_str_view(self.email),
        }
    }
}

/// A copy of an optional string column.
pub fn clone_opt_string(o: &Option<String>) -> (r: Option<String>)
    ensures
        opt_str_view(r) == opt_str_view(*o),
{
    match o {
        Some(s) => Some(s.clone()),
        None => None,
    }
}

impl User {
    /// A copy of the row, equal to it in every column.
    pub fn duplicate(&self) -> (r: User)
        ensures
            r@ == self@,
    {
        User {
            id: self.id,
            user_uid: self.user_uid.clone(),
            created_at: self.created_at,
            name: self.name.clone(),
            email: clone_opt_string(&self.email),
        }
    }
}

/// What a list request returns: the matching rows and their count.
pub struct GetUsersResponse {
    pub total: usize,
    pub data: Vec<User>,
}

/// The mathematical value of a list response.
pub ghost struct GetUsersResponseView {
    pub total: int,
    pub data: Seq<UserView>,
}

impl View for GetUsersResponse {
    type V = GetUsersResponseView;

    open spec fn view(&self) -> GetUsersResponseView {
        GetUsersResponseView { total: self.total as int, data: rows_view(self.data@) }
    }
}

/// Lists the users table: returns, in table order, exactly the rows that
/// pass the filter's optional name equality check, and their count. The
/// filter's email field is bound but deliberately not applied: only the name
/// is a filterable column.
pub fn get_users(store: &UserStore, query: &GetUsersQuery) -> (r: GetUsersResponse)
    ensures
        r@.data =~= filtered(store@, opt_str_view(query.name)),
        r@.total == r@.data.len(),
{
    let ghost sv = store@;
    let ghost qn = opt_str_view(query.name);
    let mut data: Vec<User> = Vec::new();
    let n = store.users.len();
    let mut i: usize = 0;
    while i < n
        invariant
            n == store.users.len(),
            sv == store@,
            qn == opt_str_view(query.name),
            i <= n,
            rows_view(data@) =~= filtered(sv.take(i as int), qn),
        decreases n - i,
    {
        let u = &store.users[i];
        let keep = match &query.name {
            Some(f) => u.name == *f,
            None => true,
        };
        proof {
            assert(sv.take(i + 1 as int).drop_last() =~= sv.take(i as int));
            assert(sv.take(i + 1 as int).last() == sv[i as int]);
        }
        if keep {
            let ghost before = data@;
            data.push(u.duplicate());
            proof {
                assert(rows_view(data@) =~= rows_view(before).push(sv[i as int]));
            }
        }
        i = i + 1;
    }
    proof {
        assert(sv.take(n as int) =~= sv);
    }
    let total = data.len();
    GetUsersResponse { total, data }
}

/// Point lookup by external identifier: returns the row that carries the
/// identifier, or `NotFound` exactly when no row does.
pub fn get_user(store: &UserStore, user_uid: String) -> (r: Result<User, Error>)
    ensures
        match r {
            Ok(u) => lookup_uid(store@, user_uid@) == Some(u@),
            Err(e) => e == Error::NotFound && lookup_uid(store@, user_uid@) is None,
        },
{
    let ghost sv = store@;
    proof {
        assert(sv.skip(0) =~= sv);
    }
    let n = store.users.len();
    let mut i: usize = 0;
    while i < n
        invariant
            n == store.users.len(),
            sv == store@,
            i <= n,
            lookup_uid(sv, user_uid@) == lookup_uid(sv.skip(i as int), user_uid@),
        decreases n - i,
    {
        proof {
            assert(sv.skip(i as int)[0] == sv[i as int]);
            assert(sv.skip(i as int).skip(1) =~= sv.skip(i + 1 as int));
        }
        if store.users[i].user_uid == user_uid {
            return Ok(store.users[i].duplicate());
        }
        i = i + 1;
    }
    proof {
        assert(sv.skip(n as int) =~= Seq::<UserView>::empty());
    }
    Err(Error::NotFound)
}

} // verus!
