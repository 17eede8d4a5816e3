//! Posts: a public feed owned by providers and businesses, with attached
//! media replaced as one atomic group.

use vstd::prelude::*;

use crate::auth::CurrentUser;
use crate::errors::ApiError;
use crate::store::{
    attachment_ids_ok, post_ids_ok, AttachmentRow, PostRow, Role, Store,
};
use crate::validate::char_len;

verus! {

pub struct CreatPost {
    pub title: String,
    pub content: String,
    pub business_id: Option<i32>,
    pub provider_id: Option<i32>,
}

pub struct PostQuery {
    pub business_id: Option<i32>,
    pub provider_id: Option<i32>,
}

pub struct ProviderPostsQuery {
    pub provider_id: i32,
}

pub struct BusinessPostsQuery {
    pub business_id: i32,
}

/// A sparse post patch, with the replacing attachment paths.
pub struct UpdatePost {
    pub title: Option<String>,
    pub content: Option<String>,
    pub business_id: Option<i32>,
    pub provider_id: Option<i32>,
    pub updated_by: i32,
    pub attachments: Vec<String>,
}

impl Clone for PostRow {
    fn clone(&self) -> (r: Self)
        ensures
            r == *self,
    {
        PostRow {
            id: self.id,
            title: self.title.clone(),
            content: self.content.clone(),
            business_id: self.business_id,
            provider_id: self.provider_id,
            created_at: self.created_at,
            updated_at: self.updated_at,
        }
    }
}

/// Everything a post endpoint does not touch stays as it was.
pub open spec fn posts_frame(pre: Store, post: Store) -> bool {
    &&& post.users == pre.users
    &&& post.clients == pre.clients
    &&& post.providers == pre.providers
    &&& post.businesses == pre.businesses
    &&& post.admins == pre.admins
    &&& post.password_resets == pre.password_resets
    &&& post.categories == pre.categories
    &&& post.services == pre.services
    &&& post.bookings == pre.bookings
    &&& post.messages == pre.messages
    &&& post.interactions == pre.interactions
    &&& post.favorites == pre.favorites
    &&& post.reviews == pre.reviews
    &&& post.availability == pre.availability
    &&& post.counties == pre.counties
    &&& post.constituencies == pre.constituencies
    &&& post.wards == pre.wards
    &&& post.provider_categories == pre.provider_categories
    &&& post.business_categories == pre.business_categories
    &&& post.branch_locations == pre.branch_locations
    &&& post.provider_locations == pre.provider_locations
}

/// A post payload passes validation: both texts non-empty and within the
/// schema's length caps.
pub open spec fn post_valid(p: CreatPost) -> bool {
    &&& 1 <= p.title@.len() <= 255
    &&& 1 <= p.content@.len() <= 1000
}

/// Creates a post. A client account may not post; a named owning business
/// or provider must exist.
pub fn create_posts(store: &mut Store, user: CurrentUser, payload: CreatPost, now: i64) -> (r:
    Result<i32, ApiError>)
    requires
        old(store).wf(),
        old(store).next_id < i32::MAX,
    ensures
        final(store).wf(),
        posts_frame(*old(store), *final(store)),
        final(store).attachments == old(store).attachments,
        r is Err ==> *final(store) == *old(store),
        !crate::store::user_exists(old(store).users@, user.user_id) ==> r == Err::<i32, ApiError>(
            ApiError::NotFound,
        ),
        (exists|u: int|
            0 <= u < old(store).users@.len() && (#[trigger] old(store).users@[u]).id
                == user.user_id && old(store).users@[u].role != Role::Client) && post_valid(
            payload,
        ) && (match payload.business_id {
            Some(b) => crate::store::business_exists(old(store).businesses@, b),
            None => true,
        }) && (match payload.provider_id {
            Some(p) => crate::store::provider_exists(old(store).providers@, p),
            None => true,
        }) ==> r is Ok,
        (exists|u: int|
            0 <= u < old(store).users@.len() && (#[trigger] old(store).users@[u]).id
                == user.user_id && old(store).users@[u].role == Role::Client) ==> r == Err::<
            i32,
            ApiError,
        >(ApiError::Forbidden),
        match r {
            Ok(pid) => {
                &&& post_valid(payload)
                &&& pid == old(store).next_id
                &&& final(store).next_id == old(store).next_id + 1
                &&& final(store).posts@.len() == old(store).posts@.len() + 1
                &&& final(store).posts@.subrange(0, old(store).posts@.len() as int) == old(
                    store,
                ).posts@
                &&& final(store).posts@.last().id == pid
                &&& final(store).posts@.last().title@ == payload.title@
                &&& final(store).posts@.last().content@ == payload.content@
                &&& final(store).posts@.last().business_id == payload.business_id
                &&& final(store).posts@.last().provider_id == payload.provider_id
                &&& final(store).posts@.last().created_at == now
                &&& final(store).posts@.last().updated_at == now
                &&& (match payload.business_id {
                    Some(b) => crate::store::business_exists(old(store).businesses@, b),
                    None => true,
                })
                &&& (match payload.provider_id {
                    Some(p) => crate::store::provider_exists(old(store).providers@, p),
                    None => true,
                })
            },
            Err(e) => {
                ||| (e == ApiError::NotFound && !crate::store::user_exists(
                    old(store).users@,
                    user.user_id,
                ))
                ||| (e == ApiError::Forbidden && exists|u: int|
                    0 <= u < old(store).users@.len() && (#[trigger] old(store).users@[u]).id
                        == user.user_id && old(store).users@[u].role == Role::Client)
                ||| (e == ApiError::Validation && (!post_valid(payload) || (match payload.business_id {
                    Some(b) => !crate::store::business_exists(old(store).businesses@, b),
                    None => false,
                }) || (match payload.provider_id {
                    Some(p) => !crate::store::provider_exists(old(store).providers@, p),
                    None => false,
                })))
            },
        },
{
    let uk = match crate::store::user_index_by_id(&store.users, user.user_id) {
        Some(k) => k,
        None => {
            return Err(ApiError::NotFound);
        },
    };
    if matches!(store.users[uk].role, Role::Client) {
        assert(store.users@[uk as int].id == user.user_id);
        return Err(ApiError::Forbidden);
    }
    proof {
        assert(store.users@[uk as int].id == user.user_id && store.users@[uk as int].role
            != Role::Client);
    }
    let title_len = char_len(payload.title.as_str());
    let content_len = char_len(payload.content.as_str());
    if title_len == 0 || title_len > 255 || content_len == 0 || content_len > 1000 {
        return Err(ApiError::Validation);
    }
    if let Some(b) = payload.business_id {
        if crate::store::business_index_by_id(&store.businesses, b).is_none() {
            return Err(ApiError::Validation);
        }
    }
    if let Some(p) = payload.provider_id {
        if crate::store::provider_index_by_id(&store.providers, p).is_none() {
            return Err(ApiError::Validation);
        }
    }
    let id = store.next_id;
    store.posts.push(
        PostRow {
            id,
            title: payload.title,
            content: payload.content,
            business_id: payload.business_id,
            provider_id: payload.provider_id,
            created_at: now,
            updated_at: now,
        },
    );
    store.next_id = id + 1;
    Ok(id)
}

/// The filter the public feed applies.
pub open spec fn posts_pred(params: PostQuery) -> spec_fn(PostRow) -> bool {
    |p: PostRow|
        (match params.business_id {
            None => true,
            Some(b) => p.business_id == Some(b),
        }) && (match params.provider_id {
            None => true,
            Some(pr) => p.provider_id == Some(pr),
        })
}

/// The public feed, optionally narrowed by owner; filter values are
/// matched as data, never interpolated.
#[allow(nonstandard_style)]
pub fn get_All_posts(store: &Store, params: &PostQuery) -> (r: Vec<PostRow>)
    requires
        store.wf(),
    ensures
        r@ == store.posts@.filter(posts_pred(*params)),
{
    let ghost pred = posts_pred(*params);
    let mut out: Vec<PostRow> = Vec::new();
    let n = store.posts.len();
    for i in 0..n
        invariant
            n == store.posts@.len(),
            out@ == store.posts@.subrange(0, i as int).filter(pred),
    {
        proof {
            crate::store::lemma_filter_push(
                store.posts@.subrange(0, i as int),
                store.posts@[i as int],
                pred,
            );
            assert(store.posts@.subrange(0, i as int).push(store.posts@[i as int])
                =~= store.posts@.subrange(0, i + 1 as int));
        }
        let p = &store.posts[i];
        let b_pass = match params.business_id {
            None => true,
            Some(b) => match p.business_id {
                Some(pb) => pb == b,
                None => false,
            },
        };
        let p_pass = match params.provider_id {
            None => true,
            Some(pr) => match p.provider_id {
                Some(pp) => pp == pr,
                None => false,
            },
        };
        if b_pass && p_pass {
            out.push(p.clone());
        }
    }
    proof {
        assert(store.posts@.subrange(0, store.posts@.len() as int) =~= store.posts@);
    }
    out
}

/// One post, by id.
pub fn get_post_by_id(store: &Store, id: i32) -> (r: Result<PostRow, ApiError>)
    requires
        store.wf(),
    ensures
        match r {
            Ok(p) => exists|k: int|
                0 <= k < store.posts@.len() && (#[trigger] store.posts@[k]).id == id && p
                    == store.posts@[k],
            Err(e) => e == ApiError::NotFound && forall|k: int|
                0 <= k < store.posts@.len() ==> (#[trigger] store.posts@[k]).id != id,
        },
{
    let n = store.posts.len();
    for i in 0..n
        invariant
            n == store.posts@.len(),
            forall|j: int| 0 <= j < i ==> (#[trigger] store.posts@[j]).id != id,
    {
        if store.posts[i].id == id {
            assert(store.posts@[i as int].id == id);
            return Ok(store.posts[i].clone());
        }
    }
    Err(ApiError::NotFound)
}

/// A provider's posts, in store order.
pub fn get_posts_by_provider_id(store: &Store, provider_id: i32) -> (r: Vec<PostRow>)
    requires
        store.wf(),
    ensures
        r@ == store.posts@.filter(
            posts_pred((PostQuery { business_id: None, provider_id: Some(provider_id) })),
        ),
{
    get_All_posts(store, &PostQuery { business_id: None, provider_id: Some(provider_id) })
}

/// A business's posts, in store order.
pub fn get_posts_by_business_id(store: &Store, business_id: i32) -> (r: Vec<PostRow>)
    requires
        store.wf(),
    ensures
        r@ == store.posts@.filter(
            posts_pred((PostQuery { business_id: Some(business_id), provider_id: None })),
        ),
{
    get_All_posts(store, &PostQuery { business_id: Some(business_id), provider_id: None })
}

/// Removing a row keeps the posts table's invariants.
proof fn lemma_post_remove_ok(s: Seq<PostRow>, k: int, n: i32)
    requires
        post_ids_ok(s, n),
        0 <= k < s.len(),
    ensures
        post_ids_ok(s.remove(k), n),
{
    let s2 = s.remove(k);
    assert forall|i: int| 0 <= i < s2.len() implies 1 <= (#[trigger] s2[i]).id < n by {
        if i < k {
            assert(s2[i] == s[i]);
        } else {
            assert(s2[i] == s[i + 1]);
        }
    }
    assert forall|i: int, j: int| #![trigger s2[i], s2[j]] 0 <= i < j < s2.len() implies s2[i].id
        != s2[j].id by {
        let a = if i < k { i } else { i + 1 };
        let b = if j < k { j } else { j + 1 };
        assert(s2[i] == s[a]);
        assert(s2[j] == s[b]);
    }
}

/// Deletes a post by id.
pub fn delete_post(store: &mut Store, id: i32, user: CurrentUser) -> (r: Result<(), ApiError>)
    requires
        old(store).wf(),
    ensures
        final(store).wf(),
        posts_frame(*old(store), *final(store)),
        final(store).attachments == old(store).attachments,
        final(store).next_id == old(store).next_id,
        r is Err ==> *final(store) == *old(store),
        (forall|k: int|
            0 <= k < old(store).posts@.len() ==> (#[trigger] old(store).posts@[k]).id != id) ==> r
            == Err::<(), ApiError>(ApiError::NotFound),
        (exists|k: int|
            0 <= k < old(store).posts@.len() && (#[trigger] old(store).posts@[k]).id == id) ==> r
            is Ok,
        match r {
            Ok(u) => exists|k: int|
                0 <= k < old(store).posts@.len() && (#[trigger] old(store).posts@[k]).id == id
                    && final(store).posts@ == old(store).posts@.remove(k),
            Err(e) => e == ApiError::NotFound && forall|k: int|
                0 <= k < old(store).posts@.len() ==> (#[trigger] old(store).posts@[k]).id != id,
        },
{
    let n = store.posts.len();
    let mut found: Option<usize> = None;
    for i in 0..n
        invariant
            n == store.posts@.len(),
            *store == *old(store),
            match found {
                Some(k) => k < n && store.posts@[k as int].id == id,
                None => forall|j: int| 0 <= j < i ==> (#[trigger] store.posts@[j]).id != id,
            },
    {
        if found.is_none() && store.posts[i].id == id {
            assert(store.posts@[i as int].id == id);
            found = Some(i);
        }
    }
    let k = match found {
        Some(k) => k,
        None => {
            return Err(ApiError::NotFound);
        },
    };
    proof {
        lemma_post_remove_ok(store.posts@, k as int, store.next_id);
    }
    store.posts.remove(k);
    Ok(())
}

/// Filtering keeps attachment ids unique, and keeps only rows of the
/// unfiltered table.
pub proof fn lemma_attachments_filter_ok(
    s: Seq<AttachmentRow>,
    pred: spec_fn(AttachmentRow) -> bool,
    n: i32,
)
    requires
        attachment_ids_ok(s, n),
    ensures
        attachment_ids_ok(s.filter(pred), n),
    decreases s.len(),
{
    reveal(Seq::filter);
    if s.len() == 0 {
    } else {
        let dl = s.drop_last();
        assert forall|a: int| 0 <= a < dl.len() implies 1 <= (#[trigger] dl[a]).id < n by {
            assert(dl[a] == s[a]);
        }
        assert forall|a: int, b: int| #![trigger dl[a], dl[b]] 0 <= a < b < dl.len() implies dl[a].id
            != dl[b].id by {
            assert(dl[a] == s[a]);
            assert(dl[b] == s[b]);
        }
        lemma_attachments_filter_ok(dl, pred, n);
        lemma_attachments_filter_contains(s, pred);
        let out = s.filter(pred);
        let fdl = dl.filter(pred);
        assert forall|i: int, j: int| #![trigger out[i], out[j]] 0 <= i < j < out.len() implies
            out[i].id != out[j].id by {
            if pred(s.last()) && j == out.len() - 1 {
                assert(out[i] == fdl[i]);
                lemma_attachments_filter_contains(dl, pred);
                assert(dl.contains(fdl[i]));
                let a = choose|a: int| 0 <= a < dl.len() && dl[a] == fdl[i];
                assert(s[a] == out[i]);
                assert(s[s.len() - 1] == out[j]);
            } else {
                assert(out[i] == fdl[i]);
                assert(out[j] == fdl[j]);
            }
        }
        assert forall|i: int| 0 <= i < out.len() implies 1 <= (#[trigger] out[i]).id < n by {
            lemma_attachments_filter_contains(s, pred);
            assert(s.contains(out[i]));
            let a = choose|a: int| 0 <= a < s.len() && s[a] == out[i];
        }
    }
}

/// Every filtered attachment row is a row of the unfiltered table.
pub proof fn lemma_attachments_filter_contains(
    s: Seq<AttachmentRow>,
    pred: spec_fn(AttachmentRow) -> bool,
)
    ensures
        forall|i: int| 0 <= i < s.filter(pred).len() ==> s.contains(#[trigger] s.filter(pred)[i]),
    decreases s.len(),
{
    reveal(Seq::filter);
    if s.len() == 0 {
    } else {
        let dl = s.drop_last();
        lemma_attachments_filter_contains(dl, pred);
        let out = s.filter(pred);
        let fdl = dl.filter(pred);
        assert forall|i: int| 0 <= i < out.len() implies s.contains(#[trigger] out[i]) by {
            if pred(s.last()) && i == out.len() - 1 {
                assert(out[i] == s.last());
                assert(s[s.len() - 1] == s.last());
            } else {
                assert(out[i] == fdl[i]);
                assert(dl.contains(fdl[i]));
                let a = choose|a: int| 0 <= a < dl.len() && dl[a] == fdl[i];
                assert(s[a] == fdl[i]);
            }
        }
    }
}

/// Patches a post's title and content and replaces its attachments with
/// the given paths, at most five, as one atomic group.
pub fn update_post_and_attachments(
    store: &mut Store,
    id: i32,
    user: CurrentUser,
    payload: &UpdatePost,
    now: i64,
) -> (r: Result<(), ApiError>)
    requires
        old(store).wf(),
        old(store).next_id + payload.attachments@.len() <= i32::MAX,
    ensures
        final(store).wf(),
        posts_frame(*old(store), *final(store)),
        r is Err ==> *final(store) == *old(store),
        payload.attachments@.len() > 5 ==> r == Err::<(), ApiError>(ApiError::Validation),
        payload.attachments@.len() <= 5 ==> r is Ok,
        match r {
            Ok(u) => {
                &&& payload.attachments@.len() <= 5
                &&& final(store).posts@.len() == old(store).posts@.len()
                &&& forall|k: int|
                    0 <= k < old(store).posts@.len() && (#[trigger] old(store).posts@[k]).id != id
                        ==> final(store).posts@[k] == old(store).posts@[k]
                &&& forall|k: int|
                    0 <= k < old(store).posts@.len() && (#[trigger] old(store).posts@[k]).id == id
                        ==> {
                        let pre = old(store).posts@[k];
                        let post = final(store).posts@[k];
                        &&& post.id == pre.id
                        &&& (match payload.title {
                            Some(t) => post.title@ == t@,
                            None => post.title@ == pre.title@,
                        })
                        &&& (match payload.content {
                            Some(c) => post.content@ == c@,
                            None => post.content@ == pre.content@,
                        })
                        &&& post.business_id == pre.business_id
                        &&& post.provider_id == pre.provider_id
                        &&& post.created_at == pre.created_at
                    }
                &&& ({
                    let kept = old(store).attachments@.filter(
                        |a: AttachmentRow| a.post_id != Some(id),
                    );
                    &&& final(store).attachments@.len() == kept.len()
                        + payload.attachments@.len()
                    &&& final(store).attachments@.subrange(0, kept.len() as int) == kept
                    &&& forall|i: int|
                        0 <= i < payload.attachments@.len() ==> {
                            let row = #[trigger] final(store).attachments@[kept.len() + i];
                            &&& row.post_id == Some(id)
                            &&& row.file_path@ == payload.attachments@[i]@
                            &&& row.file_type@ == "image"@
                        }
                })
            },
            Err(e) => e == ApiError::Validation && payload.attachments@.len() > 5,
        },
{
    if payload.attachments.len() > 5 {
        return Err(ApiError::Validation);
    }
    // Patch the post in place, if it exists.
    let n = store.posts.len();
    let mut found: Option<usize> = None;
    for i in 0..n
        invariant
            n == store.posts@.len(),
            *store == *old(store),
            match found {
                Some(k) => k < n && store.posts@[k as int].id == id,
                None => forall|j: int| 0 <= j < i ==> (#[trigger] store.posts@[j]).id != id,
            },
    {
        if found.is_none() && store.posts[i].id == id {
            assert(store.posts@[i as int].id == id);
            found = Some(i);
        }
    }
    if let Some(k) = found {
        let row = PostRow {
            id: store.posts[k].id,
            title: match &payload.title {
                Some(t) => t.clone(),
                None => store.posts[k].title.clone(),
            },
            content: match &payload.content {
                Some(c) => c.clone(),
                None => store.posts[k].content.clone(),
            },
            business_id: store.posts[k].business_id,
            provider_id: store.posts[k].provider_id,
            created_at: store.posts[k].created_at,
            updated_at: now,
        };
        store.posts[k] = row;
        proof {
            assert(forall|j: int|
                0 <= j < old(store).posts@.len() && j != k ==> (#[trigger] old(store).posts@[j]).id
                    != id);
        }
    }

    // Replace the post's attachments.
    let ghost pred = |a: AttachmentRow| a.post_id != Some(id);
    let mut kept: Vec<AttachmentRow> = Vec::new();
    let an = store.attachments.len();
    for i in 0..an
        invariant
            an == store.attachments@.len(),
            store.attachments == old(store).attachments,
            kept@ == store.attachments@.subrange(0, i as int).filter(pred),
    {
        proof {
            crate::store::lemma_filter_push(
                store.attachments@.subrange(0, i as int),
                store.attachments@[i as int],
                pred,
            );
            assert(store.attachments@.subrange(0, i as int).push(store.attachments@[i as int])
                =~= store.attachments@.subrange(0, i + 1 as int));
        }
        let keep = match store.attachments[i].post_id {
            Some(p) => p != id,
            None => true,
        };
        if keep {
            let a = &store.attachments[i];
            kept.push(
                AttachmentRow {
                    id: a.id,
                    file_name: a.file_name.clone(),
                    file_path: a.file_path.clone(),
                    file_type: a.file_type.clone(),
                    target_type: a.target_type.clone(),
                    target_id: a.target_id,
                    post_id: a.post_id,
                    uploaded_by: a.uploaded_by,
                    created_at: a.created_at,
                },
            );
        }
    }
    proof {
        assert(store.attachments@.subrange(0, store.attachments@.len() as int)
            =~= store.attachments@);
        lemma_attachments_filter_ok(old(store).attachments@, pred, store.next_id);
    }
    let ghost base = old(store).attachments@.filter(pred);
    let ghost mid_posts = store.posts@;
    let m = payload.attachments.len();
    let mut appended: usize = 0;
    while appended < m
        invariant
            store.posts@ == mid_posts,
            store.attachments == old(store).attachments,
            posts_frame(*old(store), *store),
            store.wf(),
            m == payload.attachments@.len(),
            appended <= m,
            store.posts@.len() == old(store).posts@.len(),
            old(store).next_id + m <= i32::MAX,
            store.next_id == old(store).next_id + appended,
            kept@.len() == base.len() + appended,
            kept@.subrange(0, base.len() as int) == base,
            attachment_ids_ok(kept@, store.next_id),
            forall|i: int|
                0 <= i < appended ==> {
                    let row = #[trigger] kept@[base.len() + i];
                    &&& row.post_id == Some(id)
                    &&& row.file_path@ == payload.attachments@[i]@
                    &&& row.file_type@ == "image"@
                    &&& row.id == old(store).next_id + i
                },
        decreases m - appended,
    {
        let ghost pre_kept = kept@;
        let aid = store.next_id;
        kept.push(
            AttachmentRow {
                id: aid,
                file_name: payload.attachments[appended].clone(),
                file_path: payload.attachments[appended].clone(),
                file_type: "image".to_owned(),
                target_type: "post".to_owned(),
                target_id: id,
                post_id: Some(id),
                uploaded_by: payload.updated_by,
                created_at: now,
            },
        );
        store.next_id = aid + 1;
        appended = appended + 1;
        proof {
            assert(kept@.subrange(0, base.len() as int) =~= pre_kept.subrange(
                0,
                base.len() as int,
            ));
        }
    }
    store.attachments = kept;
    Ok(())
}

} // verus!
