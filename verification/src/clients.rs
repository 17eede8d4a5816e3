//! Client profiles: the stored profile picture path.

use vstd::prelude::*;

use crate::auth::CurrentUser;
use crate::errors::ApiError;
use crate::store::{ClientRow, Store};

verus! {

/// Stores a freshly saved profile picture name on the client row whose
/// own row id equals the caller's user id; that is how the schema keys
/// this update.
pub fn upload_profile_picture(store: &mut Store, user: CurrentUser, file_name: String) -> (r: Result<
    (),
    ApiError,
>)
    requires
        old(store).wf(),
    ensures
        final(store).wf(),
        final(store).next_id == old(store).next_id,
        final(store).users == old(store).users,
        final(store).providers == old(store).providers,
        final(store).businesses == old(store).businesses,
        final(store).bookings == old(store).bookings,
        final(store).messages == old(store).messages,
        final(store).reviews == old(store).reviews,
        final(store).favorites == old(store).favorites,
        final(store).interactions == old(store).interactions,
        final(store).services == old(store).services,
        final(store).categories == old(store).categories,
        final(store).admins == old(store).admins,
        final(store).password_resets == old(store).password_resets,
        final(store).availability == old(store).availability,
        final(store).posts == old(store).posts,
        final(store).attachments == old(store).attachments,
        final(store).counties == old(store).counties,
        final(store).constituencies == old(store).constituencies,
        final(store).wards == old(store).wards,
        final(store).provider_categories == old(store).provider_categories,
        final(store).business_categories == old(store).business_categories,
        final(store).branch_locations == old(store).branch_locations,
        final(store).provider_locations == old(store).provider_locations,
        r == Ok::<(), ApiError>(()),
        final(store).clients@.len() == old(store).clients@.len(),
        forall|j: int|
            0 <= j < old(store).clients@.len() && (#[trigger] old(store).clients@[j]).id
                != user.user_id ==> final(store).clients@[j] == old(store).clients@[j],
        forall|j: int|
            0 <= j < old(store).clients@.len() && (#[trigger] old(store).clients@[j]).id
                == user.user_id ==> {
                let post = final(store).clients@[j];
                let pre = old(store).clients@[j];
                post.id == pre.id && post.user_id == pre.user_id && (match post.profile_picture {
                    Some(v) => v@ == file_name@,
                    None => false,
                })
            },
{
    let n = store.clients.len();
    for k in 0..n
        invariant
            n == store.clients@.len(),
            *store == *old(store),
            forall|j: int| 0 <= j < k ==> (#[trigger] store.clients@[j]).id != user.user_id,
    {
        if store.clients[k].id == user.user_id {
            assert(store.clients@[k as int].id == user.user_id);
            let row = ClientRow {
                id: store.clients[k].id,
                user_id: store.clients[k].user_id,
                profile_picture: Some(file_name),
            };
            store.clients[k] = row;
            proof {
                assert(forall|j: int|
                    0 <= j < old(store).clients@.len() && j != k ==> (#[trigger] old(
                        store,
                    ).clients@[j]).id != user.user_id);
            }
            return Ok(());
        }
    }
    Ok(())
}

} // verus!
