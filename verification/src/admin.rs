//! Administrative endpoints: category and user management. Callers pass
//! the admin gate in [`crate::auth::require_admin`] first.

use vstd::prelude::*;

use crate::errors::ApiError;
use crate::store::{category_ids_ok, user_ids_ok, CategoryRow, Role, Store, UserRow};
use crate::validate::char_len;

verus! {

/// A new category; a missing parent id makes a top-level category.
pub struct NewCategory {
    pub name: String,
    pub parent_id: Option<i32>,
}

/// A parent named by name, and the subcategory to create under it.
pub struct NewParentCategory {
    pub subcategory_name: String,
    pub parent_category_name: String,
}

pub struct DeleteCategoryParams {
    pub category_id: i32,
}

/// A user as the administrative listing shows it.
pub struct User {
    pub id: i32,
    pub username: String,
    pub email: String,
    pub role: String,
}

pub struct DeleteUserParams {
    pub user_id: i32,
}

/// Everything an administrative category endpoint does not touch stays as
/// it was.
pub open spec fn admin_categories_frame(pre: Store, post: Store) -> bool {
    &&& post.users == pre.users
    &&& post.clients == pre.clients
    &&& post.providers == pre.providers
    &&& post.businesses == pre.businesses
    &&& post.admins == pre.admins
    &&& post.password_resets == pre.password_resets
    &&& post.services == pre.services
    &&& post.bookings == pre.bookings
    &&& post.messages == pre.messages
    &&& post.interactions == pre.interactions
    &&& post.favorites == pre.favorites
    &&& post.reviews == pre.reviews
    &&& post.availability == pre.availability
    &&& post.posts == pre.posts
    &&& post.attachments == pre.attachments
    &&& post.counties == pre.counties
    &&& post.constituencies == pre.constituencies
    &&& post.wards == pre.wards
    &&& post.provider_categories == pre.provider_categories
    &&& post.business_categories == pre.business_categories
    &&& post.branch_locations == pre.branch_locations
    &&& post.provider_locations == pre.provider_locations
}

/// All categories with their parents' names; the administrative view is
/// the public one.
pub fn get_categories(store: &Store) -> (r: Vec<crate::categories::CategoryWithParent>)
    requires
        store.wf(),
    ensures
        r@.len() == store.categories@.len(),
        forall|i: int|
            0 <= i < store.categories@.len() ==> crate::categories::category_with_parent_ok(
                store.categories@,
                store.categories@[i],
                #[trigger] r@[i],
            ),
{
    crate::categories::get_categories(store)
}

/// Creates a category with a name of 1 to 100 characters.
pub fn create_category(store: &mut Store, payload: NewCategory) -> (r: Result<i32, ApiError>)
    requires
        old(store).wf(),
        old(store).next_id < i32::MAX,
    ensures
        final(store).wf(),
        admin_categories_frame(*old(store), *final(store)),
        r is Err ==> *final(store) == *old(store),
        (payload.name@.len() == 0 || payload.name@.len() > 100) ==> r == Err::<i32, ApiError>(
            ApiError::Validation,
        ),
        (1 <= payload.name@.len() <= 100) ==> {
            &&& r == Ok::<i32, ApiError>(old(store).next_id)
            &&& final(store).next_id == old(store).next_id + 1
            &&& final(store).categories@ == old(store).categories@.push(
                (CategoryRow {
                    id: old(store).next_id,
                    name: final(store).categories@.last().name,
                    parent_id: payload.parent_id,
                }),
            )
            &&& final(store).categories@.last().name@ == payload.name@
        },
{
    let len = char_len(payload.name.as_str());
    if len == 0 || len > 100 {
        return Err(ApiError::Validation);
    }
    let id = store.next_id;
    store.categories.push(CategoryRow { id, name: payload.name, parent_id: payload.parent_id });
    store.next_id = id + 1;
    Ok(id)
}

/// A top-level category with this name exists.
pub open spec fn parent_category_present(cats: Seq<CategoryRow>, name: Seq<char>) -> bool {
    exists|i: int|
        0 <= i < cats.len() && (#[trigger] cats[i]).name@ == name && cats[i].parent_id is None
}

/// Creates a subcategory under the named top-level parent, creating the
/// parent too when it is absent; the pair is one atomic group.
pub fn create_parent_category(store: &mut Store, payload: NewParentCategory) -> (r: Result<
    i32,
    ApiError,
>)
    requires
        old(store).wf(),
        old(store).next_id + 2 <= i32::MAX,
    ensures
        final(store).wf(),
        admin_categories_frame(*old(store), *final(store)),
        r is Ok,
        parent_category_present(final(store).categories@, payload.parent_category_name@),
        match r {
            Ok(child_id) => {
                &&& final(store).categories@.last().id == child_id
                &&& final(store).categories@.last().name@ == payload.subcategory_name@
                &&& final(store).categories@.last().parent_id is Some
                &&& exists|k: int|
                    0 <= k < final(store).categories@.len() - 1 && (#[trigger] final(store).categories@[k]).name@
                        == payload.parent_category_name@ && final(store).categories@[k].parent_id
                        is None && final(store).categories@.last().parent_id == Some(
                        final(store).categories@[k].id,
                    )
                &&& if parent_category_present(
                    old(store).categories@,
                    payload.parent_category_name@,
                ) {
                    &&& final(store).categories@.len() == old(store).categories@.len() + 1
                    &&& final(store).categories@.subrange(0, old(store).categories@.len() as int)
                        == old(store).categories@
                    &&& final(store).next_id == old(store).next_id + 1
                } else {
                    &&& final(store).categories@.len() == old(store).categories@.len() + 2
                    &&& final(store).categories@.subrange(0, old(store).categories@.len() as int)
                        == old(store).categories@
                    &&& final(store).categories@[final(store).categories@.len() - 2].name@
                        == payload.parent_category_name@
                    &&& final(store).categories@[final(store).categories@.len() - 2].parent_id
                        is None
                    &&& final(store).categories@.last().parent_id == Some(old(store).next_id)
                    &&& final(store).next_id == old(store).next_id + 2
                }
            },
            Err(e) => false,
        },
{
    let mut parent_at: Option<usize> = None;
    let n = store.categories.len();
    for i in 0..n
        invariant
            n == store.categories@.len(),
            *store == *old(store),
            match parent_at {
                Some(k) => k < n && store.categories@[k as int].name@
                    == payload.parent_category_name@ && store.categories@[k as int].parent_id
                    is None,
                None => forall|j: int|
                    0 <= j < i ==> !((#[trigger] store.categories@[j]).name@
                        == payload.parent_category_name@ && store.categories@[j].parent_id
                        is None),
            },
    {
        if parent_at.is_none() && store.categories[i].name == payload.parent_category_name
            && store.categories[i].parent_id.is_none() {
            assert(store.categories@[i as int].name@ == payload.parent_category_name@);
            parent_at = Some(i);
        }
    }
    let parent_id = match parent_at {
        Some(k) => store.categories[k].id,
        None => {
            let pid = store.next_id;
            store.categories.push(
                CategoryRow { id: pid, name: payload.parent_category_name, parent_id: None },
            );
            store.next_id = pid + 1;
            pid
        },
    };
    let child_id = store.next_id;
    store.categories.push(
        CategoryRow { id: child_id, name: payload.subcategory_name, parent_id: Some(parent_id) },
    );
    store.next_id = child_id + 1;
    proof {
        if parent_at is Some {
            let k = parent_at->Some_0 as int;
            assert(final(store).categories@[k].name@ == payload.parent_category_name@);
            assert(final(store).categories@.subrange(0, old(store).categories@.len() as int)
                =~= old(store).categories@);
        } else {
            let k = old(store).categories@.len() as int;
            assert(final(store).categories@[k].name@ == payload.parent_category_name@);
            assert(final(store).categories@.subrange(0, old(store).categories@.len() as int)
                =~= old(store).categories@);
        }
    }
    Ok(child_id)
}

/// Removing a row keeps the categories table's invariants.
proof fn lemma_category_remove_ok(s: Seq<CategoryRow>, k: int, n: i32)
    requires
        category_ids_ok(s, n),
        0 <= k < s.len(),
    ensures
        category_ids_ok(s.remove(k), n),
{
    let s2 = s.remove(k);
    assert forall|i: int| 0 <= i < s2.len() implies 1 <= (#[trigger] s2[i]).id < n by {
        if i < k {
            assert(s2[i] == s[i]);
        } else {
            assert(s2[i] == s[i + 1]);
        }
    }
    assert forall|i: int, j: int| #![trigger s2[i], s2[j]] 0 <= i < j < s2.len() implies s2[i].id
        != s2[j].id by {
        let a = if i < k { i } else { i + 1 };
        let b = if j < k { j } else { j + 1 };
        assert(s2[i] == s[a]);
        assert(s2[j] == s[b]);
    }
}

/// Deletes a category by id; a missing id deletes nothing. The delete is
/// hard: children keep their now-dangling parent reference.
pub fn delete_category(store: &mut Store, payload: &DeleteCategoryParams) -> (r: Result<
    (),
    ApiError,
>)
    requires
        old(store).wf(),
    ensures
        final(store).wf(),
        admin_categories_frame(*old(store), *final(store)),
        final(store).next_id == old(store).next_id,
        r == Ok::<(), ApiError>(()),
        (forall|k: int|
            0 <= k < old(store).categories@.len() ==> (#[trigger] old(store).categories@[k]).id
                != payload.category_id) ==> final(store).categories == old(store).categories,
        forall|k: int|
            0 <= k < old(store).categories@.len() && (#[trigger] old(store).categories@[k]).id
                == payload.category_id ==> final(store).categories@ == old(
                store,
            ).categories@.remove(k),
{
    let k = match crate::categories::category_index_by_id(&store.categories, payload.category_id) {
        Some(k) => k,
        None => {
            return Ok(());
        },
    };
    proof {
        lemma_category_remove_ok(store.categories@, k as int, store.next_id);
        assert(forall|j: int|
            0 <= j < old(store).categories@.len() && j != k ==> (#[trigger] old(
                store,
            ).categories@[j]).id != payload.category_id);
    }
    store.categories.remove(k);
    Ok(())
}

/// The role name of a user, as the listing shows it.
pub open spec fn role_name_spec(r: Role) -> Seq<char> {
    match r {
        Role::Client => "client"@,
        Role::Provider => "provider"@,
        Role::Business => "business"@,
    }
}

/// All users, most recently registered first.
pub fn get_users(store: &Store) -> (r: Vec<User>)
    requires
        store.wf(),
    ensures
        r@.len() == store.users@.len(),
        forall|i: int|
            0 <= i < store.users@.len() ==> {
                let src = store.users@[store.users@.len() - 1 - i];
                &&& (#[trigger] r@[i]).id == src.id
                &&& r@[i].username@ == src.username@
                &&& r@[i].email@ == src.email@
                &&& r@[i].role@ == role_name_spec(src.role)
            },
{
    let mut out: Vec<User> = Vec::new();
    let n = store.users.len();
    for i in 0..n
        invariant
            n == store.users@.len(),
            out@.len() == i,
            forall|j: int|
                0 <= j < i ==> {
                    let src = store.users@[n - 1 - j];
                    &&& (#[trigger] out@[j]).id == src.id
                    &&& out@[j].username@ == src.username@
                    &&& out@[j].email@ == src.email@
                    &&& out@[j].role@ == role_name_spec(src.role)
                },
    {
        let u = &store.users[n - 1 - i];
        let role = match u.role {
            Role::Client => "client".to_owned(),
            Role::Provider => "provider".to_owned(),
            Role::Business => "business".to_owned(),
        };
        out.push(
            User { id: u.id, username: u.username.clone(), email: u.email.clone(), role },
        );
    }
    out
}

/// Removing a row keeps the users table's invariants.
proof fn lemma_user_remove_ok(s: Seq<UserRow>, k: int, n: i32)
    requires
        user_ids_ok(s, n),
        crate::store::users_unique(s),
        0 <= k < s.len(),
    ensures
        user_ids_ok(s.remove(k), n),
        crate::store::users_unique(s.remove(k)),
{
    let s2 = s.remove(k);
    assert forall|i: int| 0 <= i < s2.len() implies 1 <= (#[trigger] s2[i]).id < n by {
        if i < k {
            assert(s2[i] == s[i]);
        } else {
            assert(s2[i] == s[i + 1]);
        }
    }
    assert forall|i: int, j: int| #![trigger s2[i], s2[j]] 0 <= i < j < s2.len() implies s2[i].id
        != s2[j].id && s2[i].username@ != s2[j].username@ && s2[i].email@ != s2[j].email@ by {
        let a = if i < k { i } else { i + 1 };
        let b = if j < k { j } else { j + 1 };
        assert(s2[i] == s[a]);
        assert(s2[j] == s[b]);
    }
}

/// Deletes a user by id; a missing id deletes nothing. Dependent rows are
/// the store's cascade responsibility and stay untouched here.
pub fn delete_user(store: &mut Store, payload: &DeleteUserParams) -> (r: Result<(), ApiError>)
    requires
        old(store).wf(),
    ensures
        final(store).wf(),
        final(store).next_id == old(store).next_id,
        r == Ok::<(), ApiError>(()),
        final(store).clients == old(store).clients,
        final(store).providers == old(store).providers,
        final(store).businesses == old(store).businesses,
        final(store).admins == old(store).admins,
        final(store).password_resets == old(store).password_resets,
        final(store).categories == old(store).categories,
        final(store).services == old(store).services,
        final(store).bookings == old(store).bookings,
        final(store).messages == old(store).messages,
        final(store).interactions == old(store).interactions,
        final(store).favorites == old(store).favorites,
        final(store).reviews == old(store).reviews,
        final(store).availability == old(store).availability,
        final(store).posts == old(store).posts,
        final(store).attachments == old(store).attachments,
        final(store).counties == old(store).counties,
        final(store).constituencies == old(store).constituencies,
        final(store).wards == old(store).wards,
        final(store).provider_categories == old(store).provider_categories,
        final(store).business_categories == old(store).business_categories,
        final(store).branch_locations == old(store).branch_locations,
        final(store).provider_locations == old(store).provider_locations,
        (forall|k: int|
            0 <= k < old(store).users@.len() ==> (#[trigger] old(store).users@[k]).id
                != payload.user_id) ==> final(store).users == old(store).users,
        forall|k: int|
            0 <= k < old(store).users@.len() && (#[trigger] old(store).users@[k]).id
                == payload.user_id ==> final(store).users@ == old(store).users@.remove(k),
{
    let k = match crate::store::user_index_by_id(&store.users, payload.user_id) {
        Some(k) => k,
        None => {
            return Ok(());
        },
    };
    proof {
        lemma_user_remove_ok(store.users@, k as int, store.next_id);
        assert(forall|j: int|
            0 <= j < old(store).users@.len() && j != k ==> (#[trigger] old(store).users@[j]).id
                != payload.user_id);
    }
    store.users.remove(k);
    Ok(())
}

} // verus!
