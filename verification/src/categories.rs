//! The category taxonomy: a two-level tree read with parent names
//! resolved, and the assignment of categories to providers and
//! businesses.

use vstd::prelude::*;

use crate::errors::ApiError;
use crate::store::{
    BusinessCategoryRow, CategoryRow, ProviderCategoryRow, Store, TargetType,
};
use crate::validate::{parse_target_type, target_type_of};

verus! {

/// A category row joined with its parent's name, for display.
pub struct CategoryWithParent {
    pub id: i32,
    pub category_name: String,
    pub parent_id: Option<i32>,
    pub parent_name: Option<String>,
}

pub struct Subcategory {
    pub id: i32,
    pub name: String,
}

pub struct Category {
    pub id: i32,
    pub name: String,
}

pub struct ProviderCategoryResponse {
    pub provider_id: i32,
    pub subcategory_id: i32,
    pub subcategory_name: String,
    pub parent_category_id: Option<i32>,
    pub parent_category_name: Option<String>,
}

pub struct ProviderWQueryResponse {
    pub category: Option<i32>,
    pub subcategory: Option<i32>,
}

pub struct BusinessCategoryResponse {
    pub business_id: i32,
    pub subcategory_id: i32,
    pub subcategory_name: String,
    pub parent_category_id: Option<i32>,
    pub parent_category_name: Option<String>,
}

pub struct BusinessWQueryResponse {
    pub category: Option<i32>,
    pub subcategory: Option<i32>,
}

pub struct CategoryAssignment {
    pub target_id: i32,
    pub target_type: String,
    pub category_ids: Vec<i32>,
}

/// Everything a category endpoint does not touch stays as it was.
pub open spec fn categories_frame(pre: Store, post: Store) -> bool {
    &&& post.users == pre.users
    &&& post.clients == pre.clients
    &&& post.providers == pre.providers
    &&& post.businesses == pre.businesses
    &&& post.admins == pre.admins
    &&& post.password_resets == pre.password_resets
    &&& post.services == pre.services
    &&& post.bookings == pre.bookings
    &&& post.messages == pre.messages
    &&& post.interactions == pre.interactions
    &&& post.favorites == pre.favorites
    &&& post.reviews == pre.reviews
    &&& post.availability == pre.availability
    &&& post.posts == pre.posts
    &&& post.attachments == pre.attachments
    &&& post.counties == pre.counties
    &&& post.constituencies == pre.constituencies
    &&& post.wards == pre.wards
    &&& post.branch_locations == pre.branch_locations
    &&& post.provider_locations == pre.provider_locations
}

/// The display row for one category: its own fields, and the name of the
/// parent where one is referenced and exists.
pub open spec fn category_with_parent_ok(cats: Seq<CategoryRow>, c: CategoryRow, row: CategoryWithParent) -> bool {
    &&& row.id == c.id
    &&& row.category_name@ == c.name@
    &&& row.parent_id == c.parent_id
    &&& match c.parent_id {
        None => row.parent_name is None,
        Some(pid) => {
            &&& forall|k: int|
                0 <= k < cats.len() && (#[trigger] cats[k]).id == pid ==> (match row.parent_name {
                    Some(pn) => pn@ == cats[k].name@,
                    None => false,
                })
            &&& (forall|k: int| 0 <= k < cats.len() ==> (#[trigger] cats[k]).id != pid)
                ==> row.parent_name is None
        },
    }
}

/// Index of the first category with the given id.
pub fn category_index_by_id(cats: &Vec<CategoryRow>, id: i32) -> (r: Option<usize>)
    ensures
        match r {
            Some(k) => 0 <= k < cats@.len() && cats@[k as int].id == id,
            None => forall|k: int| 0 <= k < cats@.len() ==> (#[trigger] cats@[k]).id != id,
        },
{
    let n = cats.len();
    for i in 0..n
        invariant
            n == cats@.len(),
            forall|j: int| 0 <= j < i ==> (#[trigger] cats@[j]).id != id,
    {
        if cats[i].id == id {
            assert(cats@[i as int].id == id);
            return Some(i);
        }
    }
    None
}

/// All categories, each joined with its parent's name.
pub fn get_categories(store: &Store) -> (r: Vec<CategoryWithParent>)
    requires
        store.wf(),
    ensures
        r@.len() == store.categories@.len(),
        forall|i: int|
            0 <= i < store.categories@.len() ==> category_with_parent_ok(
                store.categories@,
                store.categories@[i],
                #[trigger] r@[i],
            ),
{
    let mut out: Vec<CategoryWithParent> = Vec::new();
    let n = store.categories.len();
    for i in 0..n
        invariant
            n == store.categories@.len(),
            out@.len() == i,
            forall|j: int|
                0 <= j < i ==> category_with_parent_ok(
                    store.categories@,
                    store.categories@[j],
                    #[trigger] out@[j],
                ),
    {
        let c = &store.categories[i];
        let parent_name: Option<String> = match c.parent_id {
            None => None,
            Some(pid) => match category_index_by_id(&store.categories, pid) {
                Some(k) => Some(store.categories[k].name.clone()),
                None => None,
            },
        };
        out.push(
            CategoryWithParent {
                id: c.id,
                category_name: c.name.clone(),
                parent_id: c.parent_id,
                parent_name,
            },
        );
    }
    out
}

/// The subcategories of one parent, in store order.
pub fn get_subcategories_by_category_id(store: &Store, parent_id: i32) -> (r: Vec<Category>)
    requires
        store.wf(),
    ensures
        ({
            let picked = store.categories@.filter(
                |c: CategoryRow| c.parent_id == Some(parent_id),
            );
            r@.len() == picked.len() && forall|i: int|
                0 <= i < picked.len() ==> (#[trigger] r@[i]).id == picked[i].id && r@[i].name@
                    == picked[i].name@
        }),
{
    let ghost pred = |c: CategoryRow| c.parent_id == Some(parent_id);
    let mut out: Vec<Category> = Vec::new();
    let n = store.categories.len();
    for i in 0..n
        invariant
            n == store.categories@.len(),
            out@.len() == store.categories@.subrange(0, i as int).filter(pred).len(),
            forall|j: int|
                0 <= j < out@.len() ==> (#[trigger] out@[j]).id == store.categories@.subrange(
                    0,
                    i as int,
                ).filter(pred)[j].id && out@[j].name@ == store.categories@.subrange(
                    0,
                    i as int,
                ).filter(pred)[j].name@,
    {
        proof {
            crate::store::lemma_filter_push(
                store.categories@.subrange(0, i as int),
                store.categories@[i as int],
                pred,
            );
            assert(store.categories@.subrange(0, i as int).push(store.categories@[i as int])
                =~= store.categories@.subrange(0, i + 1 as int));
        }
        let c = &store.categories[i];
        let is_child = match c.parent_id {
            Some(p) => p == parent_id,
            None => false,
        };
        if is_child {
            out.push(Category { id: c.id, name: c.name.clone() });
        }
    }
    proof {
        assert(store.categories@.subrange(0, store.categories@.len() as int) =~= store.categories@);
    }
    out
}

/// Replaces a target's assigned categories with the given list.
pub fn assign_categories(store: &mut Store, payload: &CategoryAssignment) -> (r: Result<
    (),
    ApiError,
>)
    requires
        old(store).wf(),
    ensures
        final(store).wf(),
        categories_frame(*old(store), *final(store)),
        final(store).next_id == old(store).next_id,
        final(store).categories == old(store).categories,
        r is Err ==> *final(store) == *old(store),
        match target_type_of(payload.target_type@) {
            None => r == Err::<(), ApiError>(ApiError::Validation),
            Some(tt) => {
                if payload.category_ids@.len() == 0 || payload.target_id <= 0 {
                    r == Err::<(), ApiError>(ApiError::Validation)
                } else {
                    &&& r == Ok::<(), ApiError>(())
                    &&& match tt {
                        TargetType::Provider => final(store).provider_categories@ == old(
                            store,
                        ).provider_categories@.filter(
                            |pc: ProviderCategoryRow| pc.provider_id != payload.target_id,
                        ) + Seq::new(
                            payload.category_ids@.len(),
                            |i: int|
                                ProviderCategoryRow {
                                    provider_id: payload.target_id,
                                    category_id: payload.category_ids@[i],
                                },
                        ) && final(store).business_categories == old(store).business_categories,
                        TargetType::Business => final(store).business_categories@ == old(
                            store,
                        ).business_categories@.filter(
                            |bc: BusinessCategoryRow| bc.business_id != payload.target_id,
                        ) + Seq::new(
                            payload.category_ids@.len(),
                            |i: int|
                                BusinessCategoryRow {
                                    business_id: payload.target_id,
                                    category_id: payload.category_ids@[i],
                                },
                        ) && final(store).provider_categories == old(store).provider_categories,
                    }
                }
            },
        },
{
    let tt = match parse_target_type(payload.target_type.as_str()) {
        Some(tt) => tt,
        None => {
            return Err(ApiError::Validation);
        },
    };
    if payload.category_ids.len() == 0 || payload.target_id <= 0 {
        return Err(ApiError::Validation);
    }
    match tt {
        TargetType::Provider => {
            let ghost pred = |pc: ProviderCategoryRow| pc.provider_id != payload.target_id;
            let mut kept: Vec<ProviderCategoryRow> = Vec::new();
            let n = store.provider_categories.len();
            for i in 0..n
                invariant
                    n == store.provider_categories@.len(),
                    *store == *old(store),
                    kept@ == store.provider_categories@.subrange(0, i as int).filter(pred),
            {
                proof {
                    crate::store::lemma_filter_push(
                        store.provider_categories@.subrange(0, i as int),
                        store.provider_categories@[i as int],
                        pred,
                    );
                    assert(store.provider_categories@.subrange(0, i as int).push(
                        store.provider_categories@[i as int],
                    ) =~= store.provider_categories@.subrange(0, i + 1 as int));
                }
                if store.provider_categories[i].provider_id != payload.target_id {
                    kept.push(store.provider_categories[i]);
                }
            }
            proof {
                assert(store.provider_categories@.subrange(
                    0,
                    store.provider_categories@.len() as int,
                ) =~= store.provider_categories@);
            }
            let m = payload.category_ids.len();
            for i in 0..m
                invariant
                    m == payload.category_ids@.len(),
                    *store == *old(store),
                    kept@.len() == old(store).provider_categories@.filter(pred).len() + i,
                    kept@.subrange(
                        0,
                        old(store).provider_categories@.filter(pred).len() as int,
                    ) == old(store).provider_categories@.filter(pred),
                    forall|j: int|
                        0 <= j < i ==> kept@[old(store).provider_categories@.filter(
                            pred,
                        ).len() + j] == (ProviderCategoryRow {
                            provider_id: payload.target_id,
                            category_id: payload.category_ids@[j],
                        }),
            {
                let ghost pre_kept = kept@;
                kept.push(
                    ProviderCategoryRow {
                        provider_id: payload.target_id,
                        category_id: payload.category_ids[i],
                    },
                );
                proof {
                    assert(kept@.subrange(
                        0,
                        old(store).provider_categories@.filter(pred).len() as int,
                    ) =~= pre_kept.subrange(
                        0,
                        old(store).provider_categories@.filter(pred).len() as int,
                    ));
                }
            }
            store.provider_categories = kept;
            proof {
                assert(store.provider_categories@ =~= old(store).provider_categories@.filter(pred)
                    + Seq::new(
                    payload.category_ids@.len(),
                    |i: int|
                        ProviderCategoryRow {
                            provider_id: payload.target_id,
                            category_id: payload.category_ids@[i],
                        },
                ));
            }
            Ok(())
        },
        TargetType::Business => {
            let ghost pred = |bc: BusinessCategoryRow| bc.business_id != payload.target_id;
            let mut kept: Vec<BusinessCategoryRow> = Vec::new();
            let n = store.business_categories.len();
            for i in 0..n
                invariant
                    n == store.business_categories@.len(),
                    *store == *old(store),
                    kept@ == store.business_categories@.subrange(0, i as int).filter(pred),
            {
                proof {
                    crate::store::lemma_filter_push(
                        store.business_categories@.subrange(0, i as int),
                        store.business_categories@[i as int],
                        pred,
                    );
                    assert(store.business_categories@.subrange(0, i as int).push(
                        store.business_categories@[i as int],
                    ) =~= store.business_categories@.subrange(0, i + 1 as int));
                }
                if store.business_categories[i].business_id != payload.target_id {
                    kept.push(store.business_categories[i]);
                }
            }
            proof {
                assert(store.business_categories@.subrange(
                    0,
                    store.business_categories@.len() as int,
                ) =~= store.business_categories@);
            }
            let m = payload.category_ids.len();
            for i in 0..m
                invariant
                    m == payload.category_ids@.len(),
                    *store == *old(store),
                    kept@.len() == old(store).business_categories@.filter(pred).len() + i,
                    kept@.subrange(
                        0,
                        old(store).business_categories@.filter(pred).len() as int,
                    ) == old(store).business_categories@.filter(pred),
                    forall|j: int|
                        0 <= j < i ==> kept@[old(store).business_categories@.filter(
                            pred,
                        ).len() + j] == (BusinessCategoryRow {
                            business_id: payload.target_id,
                            category_id: payload.category_ids@[j],
                        }),
            {
                let ghost pre_kept = kept@;
                kept.push(
                    BusinessCategoryRow {
                        business_id: payload.target_id,
                        category_id: payload.category_ids[i],
                    },
                );
                proof {
                    assert(kept@.subrange(
                        0,
                        old(store).business_categories@.filter(pred).len() as int,
                    ) =~= pre_kept.subrange(
                        0,
                        old(store).business_categories@.filter(pred).len() as int,
                    ));
                }
            }
            store.business_categories = kept;
            proof {
                assert(store.business_categories@ =~= old(store).business_categories@.filter(pred)
                    + Seq::new(
                    payload.category_ids@.len(),
                    |i: int|
                        BusinessCategoryRow {
                            business_id: payload.target_id,
                            category_id: payload.category_ids@[i],
                        },
                ));
            }
            Ok(())
        },
    }
}

/// The filter the by-category queries apply to an assignment row: its
/// category must exist, match the optional subcategory id, and sit under
/// the optional parent category id.
pub open spec fn assignment_pred(
    cats: Seq<CategoryRow>,
    category: Option<i32>,
    subcategory: Option<i32>,
) -> spec_fn(i32) -> bool {
    |cid: i32|
        exists|s: int|
            0 <= s < cats.len() && (#[trigger] cats[s]).id == cid && (match subcategory {
                None => true,
                Some(sc) => cid == sc,
            }) && (match category {
                None => true,
                Some(c) => cats[s].parent_id == Some(c),
            })
}

/// The joined display fields for one assignment row: the subcategory's
/// name and parent, and the parent's name where it exists.
pub open spec fn joined_names_ok(
    cats: Seq<CategoryRow>,
    cid: i32,
    sub_name: Seq<char>,
    parent_id: Option<i32>,
    parent_name: Option<String>,
) -> bool {
    &&& forall|s: int|
        0 <= s < cats.len() && (#[trigger] cats[s]).id == cid ==> sub_name == cats[s].name@
            && parent_id == cats[s].parent_id
    &&& match parent_id {
        None => parent_name is None,
        Some(pid) => {
            &&& forall|t: int|
                0 <= t < cats.len() && (#[trigger] cats[t]).id == pid ==> (match parent_name {
                    Some(pn) => pn@ == cats[t].name@,
                    None => false,
                })
            &&& (forall|t: int| 0 <= t < cats.len() ==> (#[trigger] cats[t]).id != pid)
                ==> parent_name is None
        },
    }
}

/// Resolves one assignment row against the category tree, deciding the
/// filter and building the joined names.
fn resolve_assignment(
    store: &Store,
    cid: i32,
    category: Option<i32>,
    subcategory: Option<i32>,
) -> (r: Option<(String, Option<i32>, Option<String>)>)
    requires
        store.wf(),
    ensures
        match r {
            Some(out) => assignment_pred(store.categories@, category, subcategory)(cid)
                && joined_names_ok(store.categories@, cid, out.0@, out.1, out.2),
            None => !assignment_pred(store.categories@, category, subcategory)(cid),
        },
{
    let f = match category_index_by_id(&store.categories, cid) {
        Some(f) => f,
        None => {
            return None;
        },
    };
    proof {
        assert(forall|s: int|
            0 <= s < store.categories@.len() && (#[trigger] store.categories@[s]).id == cid ==> s
                == f);
    }
    let sub_pass = match subcategory {
        None => true,
        Some(sc) => cid == sc,
    };
    let cat_pass = match category {
        None => true,
        Some(c) => match store.categories[f].parent_id {
            Some(p) => p == c,
            None => false,
        },
    };
    if !(sub_pass && cat_pass) {
        return None;
    }
    let parent_id = store.categories[f].parent_id;
    let parent_name: Option<String> = match parent_id {
        None => None,
        Some(pid) => match category_index_by_id(&store.categories, pid) {
            Some(t) => Some(store.categories[t].name.clone()),
            None => None,
        },
    };
    assert(store.categories@[f as int].id == cid);
    Some((store.categories[f].name.clone(), parent_id, parent_name))
}

/// Providers joined with their assigned subcategories, optionally
/// narrowed to one parent category or one subcategory.
pub fn get_providers_by_category(store: &Store, params: &ProviderWQueryResponse) -> (r: Vec<
    ProviderCategoryResponse,
>)
    requires
        store.wf(),
    ensures
        ({
            let picked = store.provider_categories@.filter(
                |pc: ProviderCategoryRow| assignment_pred(
                    store.categories@,
                    params.category,
                    params.subcategory,
                )(pc.category_id),
            );
            r@.len() == picked.len() && forall|i: int|
                0 <= i < picked.len() ==> (#[trigger] r@[i]).provider_id == picked[i].provider_id
                    && r@[i].subcategory_id == picked[i].category_id && joined_names_ok(
                    store.categories@,
                    picked[i].category_id,
                    r@[i].subcategory_name@,
                    r@[i].parent_category_id,
                    r@[i].parent_category_name,
                )
        }),
{
    let ghost pred = |pc: ProviderCategoryRow| assignment_pred(
        store.categories@,
        params.category,
        params.subcategory,
    )(pc.category_id);
    let mut out: Vec<ProviderCategoryResponse> = Vec::new();
    let n = store.provider_categories.len();
    for i in 0..n
        invariant
            n == store.provider_categories@.len(),
            out@.len() == store.provider_categories@.subrange(0, i as int).filter(pred).len(),
            forall|j: int|
                0 <= j < out@.len() ==> {
                    let src = store.provider_categories@.subrange(0, i as int).filter(pred)[j];
                    &&& (#[trigger] out@[j]).provider_id == src.provider_id
                    &&& out@[j].subcategory_id == src.category_id
                    &&& joined_names_ok(
                        store.categories@,
                        src.category_id,
                        out@[j].subcategory_name@,
                        out@[j].parent_category_id,
                        out@[j].parent_category_name,
                    )
                },
    {
        proof {
            crate::store::lemma_filter_push(
                store.provider_categories@.subrange(0, i as int),
                store.provider_categories@[i as int],
                pred,
            );
            assert(store.provider_categories@.subrange(0, i as int).push(
                store.provider_categories@[i as int],
            ) =~= store.provider_categories@.subrange(0, i + 1 as int));
        }
        let pc = store.provider_categories[i];
        match resolve_assignment(store, pc.category_id, params.category, params.subcategory) {
            Some((sub_name, parent_id, parent_name)) => {
                out.push(
                    ProviderCategoryResponse {
                        provider_id: pc.provider_id,
                        subcategory_id: pc.category_id,
                        subcategory_name: sub_name,
                        parent_category_id: parent_id,
                        parent_category_name: parent_name,
                    },
                );
            },
            None => {},
        }
    }
    proof {
        assert(store.provider_categories@.subrange(0, store.provider_categories@.len() as int)
            =~= store.provider_categories@);
    }
    out
}

/// Businesses joined with their assigned subcategories, optionally
/// narrowed to one parent category or one subcategory.
pub fn get_businesses_by_category(store: &Store, params: &BusinessWQueryResponse) -> (r: Vec<
    BusinessCategoryResponse,
>)
    requires
        store.wf(),
    ensures
        ({
            let picked = store.business_categories@.filter(
                |bc: BusinessCategoryRow| assignment_pred(
                    store.categories@,
                    params.category,
                    params.subcategory,
                )(bc.category_id),
            );
            r@.len() == picked.len() && forall|i: int|
                0 <= i < picked.len() ==> (#[trigger] r@[i]).business_id == picked[i].business_id
                    && r@[i].subcategory_id == picked[i].category_id && joined_names_ok(
                    store.categories@,
                    picked[i].category_id,
                    r@[i].subcategory_name@,
                    r@[i].parent_category_id,
                    r@[i].parent_category_name,
                )
        }),
{
    let ghost pred = |bc: BusinessCategoryRow| assignment_pred(
        store.categories@,
        params.category,
        params.subcategory,
    )(bc.category_id);
    let mut out: Vec<BusinessCategoryResponse> = Vec::new();
    let n = store.business_categories.len();
    for i in 0..n
        invariant
            n == store.business_categories@.len(),
            out@.len() == store.business_categories@.subrange(0, i as int).filter(pred).len(),
            forall|j: int|
                0 <= j < out@.len() ==> {
                    let src = store.business_categories@.subrange(0, i as int).filter(pred)[j];
                    &&& (#[trigger] out@[j]).business_id == src.business_id
                    &&& out@[j].subcategory_id == src.category_id
                    &&& joined_names_ok(
                        store.categories@,
                        src.category_id,
                        out@[j].subcategory_name@,
                        out@[j].parent_category_id,
                        out@[j].parent_category_name,
                    )
                },
    {
        proof {
            crate::store::lemma_filter_push(
                store.business_categories@.subrange(0, i as int),
                store.business_categories@[i as int],
                pred,
            );
            assert(store.business_categories@.subrange(0, i as int).push(
                store.business_categories@[i as int],
            ) =~= store.business_categories@.subrange(0, i + 1 as int));
        }
        let bc = store.business_categories[i];
        match resolve_assignment(store, bc.category_id, params.category, params.subcategory) {
            Some((sub_name, parent_id, parent_name)) => {
                out.push(
                    BusinessCategoryResponse {
                        business_id: bc.business_id,
                        subcategory_id: bc.category_id,
                        subcategory_name: sub_name,
                        parent_category_id: parent_id,
                        parent_category_name: parent_name,
                    },
                );
            },
            None => {},
        }
    }
    proof {
        assert(store.business_categories@.subrange(0, store.business_categories@.len() as int)
            =~= store.business_categories@);
    }
    out
}

} // verus!
