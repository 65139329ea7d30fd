use vstd::prelude::*;

use crate::errors::Error;
use crate::store::{contains_uid, lemma_remove_uid_at, remove_uid, UserStore};

verus! {

/// Removes the row carrying the external identifier. Deleting an identifier
/// that no row carries is a not-found condition, not a silent success; on
/// success exactly one row leaves the table and the rest keep their order.
pub fn delete_user(store: &mut UserStore, user_uid: String) -> (r: Result<(), Error>)
    requires
        old(store).wf(),
    ensures
        final(store).wf(),
        final(store).next_id == old(store).next_id,
        match r {
            Ok(()) => {
                &&& contains_uid(old(store)@, user_uid@)
                &&& final(store)@ =~= remove_uid(old(store)@, user_uid@)
                &&& final(store)@.len() + 1 == old(store)@.len()
            },
            Err(e) => {
                &&& e == Error::NotFound
                &&& !contains_uid(old(store)@, user_uid@)
                &&& final(store)@ == old(store)@
            },
        },
{
    let j = match store.find_uid(&user_uid) {
        Some(j) => j,
        None => {
            return Err(Error::NotFound);
        },
    };
    let ghost oldv = store@;
    let _removed = store.users.remove(j);
    proof {
        assert(store@ =~= oldv.remove(j as int));
        lemma_remove_uid_at(oldv, user_uid@, j as int);
        assert forall|i: int, k: int| 0 <= i < k < store@.len() implies store@[i].id != store@[k].id
            && store@[i].user_uid != store@[k].user_uid by {
            let i0 = if i < j { i } else { i + 1 };
            let k0 = if k < j { k } else { k + 1 };
            assert(store@[i] == oldv[i0]);
            assert(store@[k] == oldv[k0]);
        }
        assert forall|i: int| 0 <= i < store@.len() implies 1 <= (#[trigger] store@[i]).id
            < store.next_id by {
            let i0 = if i < j { i } else { i + 1 };
            assert(store@[i] == oldv[i0]);
        }
    }
    Ok(())
}

} // verus!
