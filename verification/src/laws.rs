use vstd::prelude::*;

use crate::store::{
    contains_uid, filtered, lemma_lookup_uid, lookup_uid, name_matches, patched, remove_uid,
    update_uid, wf_store, UserView,
};

verus! {

/// Listing with no filter returns the whole table: the filter with no name
/// given passes every row.
pub proof fn lemma_list_no_filter(s: Seq<UserView>)
    ensures
        filtered(s, None) =~= s,
    decreases s.len(),
{
    if s.len() > 0 {
        lemma_list_no_filter(s.drop_last());
        assert(filtered(s, None) =~= s.drop_last().push(s.last()));
    }
}

/// A freshly inserted row is visible to a following list: filtering the
/// grown table lists the old rows' survivors first and then, exactly when it
/// passes the filter, the new row — so with no filter the listing is the old
/// listing plus the one new row.
pub proof fn lemma_create_then_list(s: Seq<UserView>, u: UserView, name: Option<Seq<char>>)
    ensures
        filtered(s.push(u), name) =~= if name_matches(u, name) {
            filtered(s, name).push(u)
        } else {
            filtered(s, name)
        },
{
    assert(s.push(u).drop_last() =~= s);
    assert(s.push(u).last() == u);
}

/// A freshly inserted row is visible to a following point lookup: when its
/// external identifier was not yet taken, getting that identifier from the
/// grown table returns exactly the new row.
pub proof fn lemma_create_then_get(s: Seq<UserView>, u: UserView)
    requires
        !contains_uid(s, u.user_uid),
    ensures
        lookup_uid(s.push(u), u.user_uid) == Some(u),
    decreases s.len(),
{
    if s.len() == 0 {
        assert(s.push(u)[0] == u);
    } else {
        assert(s.push(u)[0] == s[0]);
        assert(s.push(u).skip(1) =~= s.skip(1).push(u));
        lemma_create_then_get(s.skip(1), u);
    }
}

/// A lookup by an identifier other than the new row's is not disturbed by
/// the insert.
pub proof fn lemma_create_preserves_other_gets(s: Seq<UserView>, u: UserView, uid: Seq<char>)
    requires
        uid != u.user_uid,
        contains_uid(s, uid),
    ensures
        lookup_uid(s.push(u), uid) == lookup_uid(s, uid),
    decreases s.len(),
{
    if s.len() > 0 {
        assert(s.push(u)[0] == s[0]);
        if s[0].user_uid != uid {
            assert(s.push(u).skip(1) =~= s.skip(1).push(u));
            lemma_create_preserves_other_gets(s.skip(1), u, uid);
        }
    }
}

/// A filtered listing is exact: every listed row carries the requested name
/// and stands in the table, and every row of the table that carries the name
/// is listed.
pub proof fn lemma_list_filter_exact(s: Seq<UserView>, n: Seq<char>)
    ensures
        forall|i: int|
            0 <= i < filtered(s, Some(n)).len() ==> (#[trigger] filtered(s, Some(n))[i]).name == n
                && s.contains(filtered(s, Some(n))[i]),
        forall|i: int|
            0 <= i < s.len() && (#[trigger] s[i]).name == n ==> filtered(s, Some(n)).contains(s[i]),
    decreases s.len(),
{
    if s.len() > 0 {
        let pre = s.drop_last();
        lemma_list_filter_exact(pre, n);
        let f = filtered(s, Some(n));
        let fp = filtered(pre, Some(n));
        assert forall|i: int| 0 <= i < f.len() implies (#[trigger] f[i]).name == n && s.contains(
            f[i],
        ) by {
            if i < fp.len() {
                assert(f[i] == fp[i]);
                let w = choose|w: int| 0 <= w < pre.len() && pre[w] == fp[i];
                assert(s[w] == fp[i]);
            } else {
                assert(f[i] == s.last());
                assert(s[s.len() - 1] == s.last());
            }
        }
        assert forall|i: int| 0 <= i < s.len() && (#[trigger] s[i]).name == n implies f.contains(
            s[i],
        ) by {
            if i < s.len() - 1 {
                assert(pre[i] == s[i]);
                assert(fp.contains(s[i]));
                let w = choose|w: int| 0 <= w < fp.len() && fp[w] == s[i];
                assert(f[w] == s[i]);
            } else {
                assert(name_matches(s.last(), Some(n)));
                assert(f[f.len() - 1] == s[i]);
            }
        }
    }
}

/// A partial update touches only the fields the patch gives: row count,
/// identities, external identifiers and creation timestamps are kept, a
/// field the patch leaves out keeps its value in every row.
pub proof fn lemma_update_keeps_untouched_fields(
    s: Seq<UserView>,
    uid: Seq<char>,
    name: Option<Seq<char>>,
    email: Option<Seq<char>>,
)
    ensures
        update_uid(s, uid, name, email).len() == s.len(),
        forall|i: int|
            0 <= i < s.len() ==> {
                let t = #[trigger] update_uid(s, uid, name, email)[i];
                &&& t.id == s[i].id
                &&& t.user_uid == s[i].user_uid
                &&& t.created_at == s[i].created_at
                &&& (email is None ==> t.email == s[i].email)
                &&& (name is None ==> t.name == s[i].name)
            },
    decreases s.len(),
{
    if s.len() > 0 && s[0].user_uid != uid {
        lemma_update_keeps_untouched_fields(s.skip(1), uid, name, email);
        let t = update_uid(s, uid, name, email);
        assert forall|i: int| 0 < i < s.len() implies t[i] == update_uid(
            s.skip(1),
            uid,
            name,
            email,
        )[i - 1] && s[i] == s.skip(1)[i - 1] by {}
    }
}

/// An updated row is visible to a following point lookup: getting the
/// identifier afterwards returns the old row with the patch applied — in
/// particular, a patch that gives only the name leaves the email as it was.
pub proof fn lemma_update_then_get(
    s: Seq<UserView>,
    uid: Seq<char>,
    name: Option<Seq<char>>,
    email: Option<Seq<char>>,
)
    requires
        contains_uid(s, uid),
    ensures
        lookup_uid(update_uid(s, uid, name, email), uid) == Some(
            patched(lookup_uid(s, uid)->0, name, email),
        ),
    decreases s.len(),
{
    let t = update_uid(s, uid, name, email);
    if s[0].user_uid == uid {
        assert(t[0] == patched(s[0], name, email));
    } else {
        assert(t[0] == s[0]);
        assert(t.skip(1) =~= update_uid(s.skip(1), uid, name, email));
        lemma_update_then_get(s.skip(1), uid, name, email);
    }
}

/// A deleted row is gone: in a table whose external identifiers are unique
/// — as every well-formed store's are — a point lookup for the removed
/// identifier finds nothing.
pub proof fn lemma_delete_then_get(s: Seq<UserView>, uid: Seq<char>)
    requires
        forall|i: int, j: int| 0 <= i < j < s.len() ==> s[i].user_uid != s[j].user_uid,
    ensures
        lookup_uid(remove_uid(s, uid), uid) is None,
    decreases s.len(),
{
    if s.len() > 0 {
        if s[0].user_uid == uid {
            lemma_lookup_uid(s.skip(1), uid);
            if lookup_uid(s.skip(1), uid) is Some {
                let w = choose|w: int|
                    0 <= w < s.skip(1).len() && (#[trigger] s.skip(1)[w]).user_uid == uid;
                assert(s[w + 1].user_uid == s[0].user_uid);
                assert(false);
            }
        } else {
            let t = remove_uid(s, uid);
            assert(t[0] == s[0]);
            assert(t.skip(1) =~= remove_uid(s.skip(1), uid));
            assert(forall|i: int, j: int|
                0 <= i < j < s.skip(1).len() ==> s.skip(1)[i].user_uid != s.skip(1)[j].user_uid);
            lemma_delete_then_get(s.skip(1), uid);
        }
    }
}

/// Deleting one identifier does not disturb a lookup by another.
pub proof fn lemma_delete_preserves_other_gets(s: Seq<UserView>, uid: Seq<char>, other: Seq<char>)
    requires
        uid != other,
    ensures
        lookup_uid(remove_uid(s, uid), other) == lookup_uid(s, other),
    decreases s.len(),
{
    if s.len() > 0 {
        if s[0].user_uid == uid {
        } else {
            let t = remove_uid(s, uid);
            assert(t[0] == s[0]);
            assert(t.skip(1) =~= remove_uid(s.skip(1), uid));
            lemma_delete_preserves_other_gets(s.skip(1), uid, other);
        }
    }
}

/// Creates assign fresh, pairwise distinct identities: every insert takes
/// the counter's current value and advances it, so two creates — in
/// whichever order the store serves them — get identities that differ from
/// each other and from every identity already in the table.
pub proof fn lemma_creates_assign_distinct_ids(
    s: Seq<UserView>,
    next_id: int,
    u1: UserView,
    u2: UserView,
)
    requires
        wf_store(s, next_id),
        u1.id == next_id,
        u2.id == next_id + 1,
    ensures
        u1.id != u2.id,
        forall|i: int|
            0 <= i < s.len() ==> (#[trigger] s[i]).id != u1.id && s[i].id != u2.id,
{
}

/// Two creates run back to back — the store serializes every call, in either
/// order — lose nothing: every old row keeps its place, the two new rows
/// stand at the end, and their identities are distinct and previously
/// unseen.
pub proof fn lemma_two_creates_lose_nothing(
    s: Seq<UserView>,
    next_id: int,
    u1: UserView,
    u2: UserView,
)
    requires
        wf_store(s, next_id),
        u1.id == next_id,
        u2.id == next_id + 1,
    ensures
        ({
            let t = s.push(u1).push(u2);
            &&& t.len() == s.len() + 2
            &&& forall|i: int| 0 <= i < s.len() ==> t[i] == s[i]
            &&& t[s.len() as int] == u1
            &&& t[s.len() as int + 1] == u2
        }),
        u1.id != u2.id,
        forall|i: int|
            0 <= i < s.len() ==> (#[trigger] s[i]).id != u1.id && s[i].id != u2.id,
{
}

} // verus!
