use vstd::prelude::*;

use crate::read::User;

verus! {

/// The mathematical value of one row of the users table: the internal
/// identity, the external identifier, the creation timestamp (seconds since
/// the epoch), the display name, and the optional email address.
pub ghost struct UserView {
    pub id: int,
    pub user_uid: Seq<char>,
    pub created_at: int,
    pub name: Seq<char>,
    pub email: Option<Seq<char>>,
}

/// The view of an optional string column.
pub open spec fn opt_str_view(o: Option<String>) -> Option<Seq<char>> {
    match o {
        Some(s) => Some(s@),
        None => None,
    }
}

/// The views of a sequence of rows.
pub open spec fn rows_view(v: Seq<User>) -> Seq<UserView> {
    v.map_values(|u: User| u@)
}

/// The users table. Rows are kept in insertion order, as a serial scan of
/// the table would return them; `next_id` is the value the auto-increment
/// identity column hands to the next inserted row.
pub struct UserStore {
    pub users: Vec<User>,
    pub next_id: i32,
}

/// Well-formedness of a table state: every identity was drawn from the
/// auto-increment counter (so it is positive and below `next_id`), no two
/// rows share an identity, and the external identifier is unique.
pub open spec fn wf_store(s: Seq<UserView>, next_id: int) -> bool {
    &&& 1 <= next_id <= i32::MAX
    &&& forall|i: int| 0 <= i < s.len() ==> 1 <= (#[trigger] s[i]).id < next_id
    &&& forall|i: int, j: int| 0 <= i < j < s.len() ==> s[i].id != s[j].id
    &&& forall|i: int, j: int| 0 <= i < j < s.len() ==> s[i].user_uid != s[j].user_uid
}

impl View for UserStore {
    type V = Seq<UserView>;

    open spec fn view(&self) -> Seq<UserView> {
        rows_view(self.users@)
    }
}

impl UserStore {
    /// Well-formedness of the store.
    pub open spec fn wf(&self) -> bool {
        wf_store(self@, self.next_id as int)
    }

    /// An empty table, with the identity counter at its initial value.
    pub fn new() -> (s: UserStore)
        ensures
            s@ =~= Seq::<UserView>::empty(),
            s.next_id == 1,
            s.wf(),
    {
        UserStore { users: Vec::new(), next_id: 1 }
    }
}

/// The first row whose external identifier equals `uid`, if any.
pub open spec fn lookup_uid(s: Seq<UserView>, uid: Seq<char>) -> Option<UserView>
    decreases s.len(),
{
    if s.len() == 0 {
        None
    } else if s[0].user_uid == uid {
        Some(s[0])
    } else {
        lookup_uid(s.skip(1), uid)
    }
}

/// Whether some row carries the external identifier `uid`.
pub open spec fn contains_uid(s: Seq<UserView>, uid: Seq<char>) -> bool {
    lookup_uid(s, uid) is Some
}

/// The table with the first row whose external identifier equals `uid`
/// removed; the table unchanged when no row matches.
pub open spec fn remove_uid(s: Seq<UserView>, uid: Seq<char>) -> Seq<UserView>
    decreases s.len(),
{
    if s.len() == 0 {
        s
    } else if s[0].user_uid == uid {
        s.skip(1)
    } else {
        seq![s[0]] + remove_uid(s.skip(1), uid)
    }
}

/// One row after a partial update: a field given by the patch is replaced,
/// a field the patch leaves out keeps its value; identity, external
/// identifier and creation timestamp never change.
pub open spec fn patched(u: UserView, name: Option<Seq<char>>, email: Option<Seq<char>>) -> UserView {
    UserView {
        name: match name {
            Some(n) => n,
            None => u.name,
        },
        email: match email {
            Some(e) => Some(e),
            None => u.email,
        },
        ..u
    }
}

/// The table with the partial update applied to the first row whose
/// external identifier equals `uid`; the table unchanged when no row
/// matches.
pub open spec fn update_uid(
    s: Seq<UserView>,
    uid: Seq<char>,
    name: Option<Seq<char>>,
    email: Option<Seq<char>>,
) -> Seq<UserView>
    decreases s.len(),
{
    if s.len() == 0 {
        s
    } else if s[0].user_uid == uid {
        seq![patched(s[0], name, email)] + s.skip(1)
    } else {
        seq![s[0]] + update_uid(s.skip(1), uid, name, email)
    }
}

/// Whether a row's name passes an optional equality filter.
pub open spec fn name_matches(u: UserView, name: Option<Seq<char>>) -> bool {
    match name {
        Some(n) => u.name == n,
        None => true,
    }
}

/// The rows that pass an optional name filter, in table order.
pub open spec fn filtered(s: Seq<UserView>, name: Option<Seq<char>>) -> Seq<UserView>
    decreases s.len(),
{
    if s.len() == 0 {
        s
    } else {
        let rest = filtered(s.drop_last(), name);
        if name_matches(s.last(), name) {
            rest.push(s.last())
        } else {
            rest
        }
    }
}

impl UserStore {
    /// The position of the first row whose external identifier equals `uid`.
    pub(crate) fn find_uid(&self, uid: &String) -> (r: Option<usize>)
        ensures
            match r {
                Some(j) => {
                    &&& 0 <= j < self@.len()
                    &&& self@[j as int].user_uid == uid@
                    &&& forall|k: int| 0 <= k < j ==> (#[trigger] self@[k]).user_uid != uid@
                    &&& lookup_uid(self@, uid@) == Some(self@[j as int])
                },
                None => lookup_uid(self@, uid@) is None,
            },
    {
        let ghost sv = self@;
        proof {
            assert(sv.skip(0) =~= sv);
        }
        let n = self.users.len();
        let mut i: usize = 0;
        while i < n
            invariant
                n == self.users.len(),
                sv == self@,
                i <= n,
                lookup_uid(sv, uid@) == lookup_uid(sv.skip(i as int), uid@),
                forall|k: int| 0 <= k < i ==> (#[trigger] sv[k]).user_uid != uid@,
            decreases n - i,
        {
            proof {
                assert(sv.skip(i as int)[0] == sv[i as int]);
                assert(sv.skip(i as int).skip(1) =~= sv.skip(i + 1 as int));
            }
            if self.users[i].user_uid == *uid {
                return Some(i);
            }
            i = i + 1;
        }
        proof {
            assert(sv.skip(n as int) =~= Seq::<UserView>::empty());
        }
        None
    }
}

/// Updating by external identifier rewrites exactly the first matching
/// position of the table.
pub proof fn lemma_update_uid_at(
    s: Seq<UserView>,
    uid: Seq<char>,
    j: int,
    name: Option<Seq<char>>,
    email: Option<Seq<char>>,
)
    requires
        0 <= j < s.len(),
        s[j].user_uid == uid,
        forall|k: int| 0 <= k < j ==> (#[trigger] s[k]).user_uid != uid,
    ensures
        update_uid(s, uid, name, email) =~= s.update(j, patched(s[j], name, email)),
    decreases j,
{
    if j == 0 {
        assert(update_uid(s, uid, name, email) =~= s.update(0, patched(s[0], name, email)));
    } else {
        assert(s.skip(1)[j - 1] == s[j]);
        assert(forall|k: int| 0 <= k < j - 1 ==> (#[trigger] s.skip(1)[k]).user_uid != uid);
        lemma_update_uid_at(s.skip(1), uid, j - 1, name, email);
        assert(update_uid(s, uid, name, email) =~= seq![s[0]] + s.skip(1).update(
            j - 1,
            patched(s[j], name, email),
        ));
        assert(seq![s[0]] + s.skip(1).update(j - 1, patched(s[j], name, email)) =~= s.update(
            j,
            patched(s[j], name, email),
        ));
    }
}

/// Updating by an external identifier that no row carries leaves the table
/// as it is.
pub proof fn lemma_update_uid_absent(
    s: Seq<UserView>,
    uid: Seq<char>,
    name: Option<Seq<char>>,
    email: Option<Seq<char>>,
)
    requires
        !contains_uid(s, uid),
    ensures
        update_uid(s, uid, name, email) =~= s,
    decreases s.len(),
{
    if s.len() > 0 {
        lemma_update_uid_absent(s.skip(1), uid, name, email);
        assert(update_uid(s, uid, name, email) =~= seq![s[0]] + s.skip(1));
    }
}

/// Deleting by external identifier removes exactly the first matching
/// position of the table.
pub proof fn lemma_remove_uid_at(s: Seq<UserView>, uid: Seq<char>, j: int)
    requires
        0 <= j < s.len(),
        s[j].user_uid == uid,
        forall|k: int| 0 <= k < j ==> (#[trigger] s[k]).user_uid != uid,
    ensures
        remove_uid(s, uid) =~= s.remove(j),
    decreases j,
{
    if j == 0 {
        assert(remove_uid(s, uid) =~= s.remove(0));
    } else {
        assert(s.skip(1)[j - 1] == s[j]);
        assert(forall|k: int| 0 <= k < j - 1 ==> (#[trigger] s.skip(1)[k]).user_uid != uid);
        lemma_remove_uid_at(s.skip(1), uid, j - 1);
        assert(remove_uid(s, uid) =~= seq![s[0]] + s.skip(1).remove(j - 1));
        assert(seq![s[0]] + s.skip(1).remove(j - 1) =~= s.remove(j));
    }
}

/// A point lookup succeeds exactly on the identifiers present in the table,
/// and what it returns is a row of the table carrying that identifier.
pub proof fn lemma_lookup_uid(s: Seq<UserView>, uid: Seq<char>)
    ensures
        match lookup_uid(s, uid) {
            Some(u) => exists|i: int| 0 <= i < s.len() && s[i] == u && (#[trigger] s[i]).user_uid == uid,
            None => forall|i: int| 0 <= i < s.len() ==> (#[trigger] s[i]).user_uid != uid,
        },
    decreases s.len(),
{
    if s.len() > 0 && s[0].user_uid != uid {
        lemma_lookup_uid(s.skip(1), uid);
        match lookup_uid(s.skip(1), uid) {
            Some(u) => {
                let i = choose|i: int|
                    0 <= i < s.skip(1).len() && s.skip(1)[i] == u && (#[trigger] s.skip(1)[i]).user_uid
                        == uid;
                assert(s[i + 1] == u && s[i + 1].user_uid == uid);
            },
            None => {
                assert forall|i: int| 0 <= i < s.len() implies (#[trigger] s[i]).user_uid != uid by {
                    if i > 0 {
                        assert(s.skip(1)[i - 1] == s[i]);
                    }
                }
            },
        }
    }
}

} // verus!
