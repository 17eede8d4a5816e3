//! Attachment records: metadata for files the surrounding program has
//! already written to storage; the classification by extension and the
//! per-target listing are the logic verified here.

use vstd::prelude::*;

use crate::auth::CurrentUser;
use crate::errors::ApiError;
use crate::store::{AttachmentRow, Store};
use crate::validate::str_eq;

verus! {

pub struct AttachmentParams {
    pub target_type: String,
    pub target_id: i32,
    pub uploaded_by: i32,
}

pub struct AttachmentQuery {
    pub target_type: String,
    pub target_id: i32,
}

/// A file the surrounding program has saved, as handed to the library:
/// its generated name, stored path, lowercased extension and size.
pub struct UploadedFile {
    pub file_name: String,
    pub file_path: String,
    pub extension: String,
    pub size: u64,
}

/// An attachment row as listed.
pub struct SerializableAttachment {
    pub id: i32,
    pub file_name: String,
    pub file_path: String,
    pub file_type: String,
    pub post_id: Option<i32>,
    pub target_type: String,
    pub target_id: i32,
    pub created_at: Option<i64>,
}

/// Everything the attachment endpoints do not touch stays as it was.
pub open spec fn attachments_frame(pre: Store, post: Store) -> bool {
    &&& post.users == pre.users
    &&& post.clients == pre.clients
    &&& post.providers == pre.providers
    &&& post.businesses == pre.businesses
    &&& post.admins == pre.admins
    &&& post.password_resets == pre.password_resets
    &&& post.categories == pre.categories
    &&& post.services == pre.services
    &&& post.bookings == pre.bookings
    &&& post.messages == pre.messages
    &&& post.interactions == pre.interactions
    &&& post.favorites == pre.favorites
    &&& post.reviews == pre.reviews
    &&& post.availability == pre.availability
    &&& post.posts == pre.posts
    &&& post.counties == pre.counties
    &&& post.constituencies == pre.constituencies
    &&& post.wards == pre.wards
    &&& post.provider_categories == pre.provider_categories
    &&& post.business_categories == pre.business_categories
    &&& post.branch_locations == pre.branch_locations
    &&& post.provider_locations == pre.provider_locations
}

/// What kind of file an extension denotes.
pub open spec fn file_type_of(ext: Seq<char>) -> Seq<char> {
    if ext == "jpg"@ || ext == "jpeg"@ || ext == "png"@ || ext == "gif"@ {
        "image"@
    } else if ext == "mp4"@ || ext == "avi"@ || ext == "mov"@ {
        "video"@
    } else {
        "other"@
    }
}

/// Classifies an extension as image, video or other.
pub fn file_type_for_extension(ext: &str) -> (r: String)
    ensures
        r@ == file_type_of(ext@),
{
    if str_eq(ext, "jpg") || str_eq(ext, "jpeg") || str_eq(ext, "png") || str_eq(ext, "gif") {
        "image".to_owned()
    } else if str_eq(ext, "mp4") || str_eq(ext, "avi") || str_eq(ext, "mov") {
        "video".to_owned()
    } else {
        "other".to_owned()
    }
}

/// The files an upload stores: non-empty ones of a supported kind.
pub open spec fn stored_files(files: Seq<UploadedFile>) -> Seq<UploadedFile> {
    files.filter(|f: UploadedFile| f.size > 0 && file_type_of(f.extension@) != "other"@)
}

/// Records metadata for every supported, non-empty file the surrounding
/// program saved. An empty file refuses the whole batch before any row is
/// written; unsupported kinds are skipped.
pub fn upload_attachments(
    store: &mut Store,
    params: &AttachmentParams,
    user: CurrentUser,
    files: Vec<UploadedFile>,
    now: i64,
) -> (r: Result<(), ApiError>)
    requires
        old(store).wf(),
        old(store).next_id + files@.len() <= i32::MAX,
    ensures
        final(store).wf(),
        attachments_frame(*old(store), *final(store)),
        r is Err ==> *final(store) == *old(store),
        (exists|i: int| 0 <= i < files@.len() && (#[trigger] files@[i]).size == 0) ==> r == Err::<
            (),
            ApiError,
        >(ApiError::Validation),
        (forall|i: int| 0 <= i < files@.len() ==> (#[trigger] files@[i]).size > 0) ==> r is Ok,
        match r {
            Ok(u) => {
                let kept = stored_files(files@);
                &&& forall|i: int| 0 <= i < files@.len() ==> (#[trigger] files@[i]).size > 0
                &&& final(store).attachments@.len() == old(store).attachments@.len() + kept.len()
                &&& final(store).attachments@.subrange(0, old(store).attachments@.len() as int)
                    == old(store).attachments@
                &&& forall|i: int|
                    0 <= i < kept.len() ==> {
                        let row = #[trigger] final(store).attachments@[old(
                            store,
                        ).attachments@.len() + i];
                        &&& row.file_name@ == kept[i].file_name@
                        &&& row.file_path@ == kept[i].file_path@
                        &&& row.file_type@ == file_type_of(kept[i].extension@)
                        &&& row.target_type@ == params.target_type@
                        &&& row.target_id == params.target_id
                        &&& row.post_id is None
                        &&& row.uploaded_by == params.uploaded_by
                        &&& row.created_at == now
                    }
            },
            Err(e) => e == ApiError::Validation && exists|i: int|
                0 <= i < files@.len() && (#[trigger] files@[i]).size == 0,
        },
{
    let n = files.len();
    for i in 0..n
        invariant
            n == files@.len(),
            *store == *old(store),
            forall|j: int| 0 <= j < i ==> (#[trigger] files@[j]).size > 0,
    {
        if files[i].size == 0 {
            assert(files@[i as int].size == 0);
            return Err(ApiError::Validation);
        }
    }
    let ghost pred = |f: UploadedFile| f.size > 0 && file_type_of(f.extension@) != "other"@;
    let ghost base_len = store.attachments@.len();
    for i in 0..n
        invariant
            n == files@.len(),
            forall|j: int| 0 <= j < n ==> (#[trigger] files@[j]).size > 0,
            attachments_frame(*old(store), *store),
            store.posts == old(store).posts,
            store.wf(),
            old(store).next_id + files@.len() <= i32::MAX,
            store.next_id == old(store).next_id + (store.attachments@.len() - base_len),
            base_len == old(store).attachments@.len(),
            store.attachments@.len() == base_len + files@.subrange(0, i as int).filter(
                pred,
            ).len(),
            store.attachments@.subrange(0, base_len as int) == old(store).attachments@,
            forall|j: int|
                0 <= j < files@.subrange(0, i as int).filter(pred).len() ==> {
                    let kept = files@.subrange(0, i as int).filter(pred);
                    let row = #[trigger] store.attachments@[base_len + j];
                    &&& row.file_name@ == kept[j].file_name@
                    &&& row.file_path@ == kept[j].file_path@
                    &&& row.file_type@ == file_type_of(kept[j].extension@)
                    &&& row.target_type@ == params.target_type@
                    &&& row.target_id == params.target_id
                    &&& row.post_id is None
                    &&& row.uploaded_by == params.uploaded_by
                    &&& row.created_at == now
                },
    {
        proof {
            crate::store::lemma_filter_push(
                files@.subrange(0, i as int),
                files@[i as int],
                pred,
            );
            assert(files@.subrange(0, i as int).push(files@[i as int]) =~= files@.subrange(
                0,
                i + 1 as int,
            ));
        }
        let ft = file_type_for_extension(files[i].extension.as_str());
        let skip = str_eq(ft.as_str(), "other");
        if !skip {
            let ghost pre_attachments = store.attachments@;
            let id = store.next_id;
            store.attachments.push(
                AttachmentRow {
                    id,
                    file_name: files[i].file_name.clone(),
                    file_path: files[i].file_path.clone(),
                    file_type: ft,
                    target_type: params.target_type.clone(),
                    target_id: params.target_id,
                    post_id: None,
                    uploaded_by: params.uploaded_by,
                    created_at: now,
                },
            );
            store.next_id = id + 1;
            proof {
                assert(store.attachments@.subrange(0, base_len as int) =~= pre_attachments.subrange(
                    0,
                    base_len as int,
                ));
            }
        }
    }
    proof {
        assert(files@.subrange(0, files@.len() as int) =~= files@);
    }
    Ok(())
}

/// The attachments of one target, in store order.
pub fn get_attachments(store: &Store, params: &AttachmentQuery) -> (r: Vec<SerializableAttachment>)
    requires
        store.wf(),
    ensures
        ({
            let picked = store.attachments@.filter(
                |a: AttachmentRow| a.target_type@ == params.target_type@ && a.target_id
                    == params.target_id,
            );
            r@.len() == picked.len() && forall|i: int|
                0 <= i < picked.len() ==> {
                    let src = picked[i];
                    &&& (#[trigger] r@[i]).id == src.id
                    &&& r@[i].file_name@ == src.file_name@
                    &&& r@[i].file_path@ == src.file_path@
                    &&& r@[i].file_type@ == src.file_type@
                    &&& r@[i].post_id == src.post_id
                    &&& r@[i].target_type@ == src.target_type@
                    &&& r@[i].target_id == src.target_id
                    &&& r@[i].created_at == Some(src.created_at)
                }
        }),
{
    let ghost pred = |a: AttachmentRow| a.target_type@ == params.target_type@ && a.target_id
        == params.target_id;
    let mut out: Vec<SerializableAttachment> = Vec::new();
    let n = store.attachments.len();
    for i in 0..n
        invariant
            n == store.attachments@.len(),
            out@.len() == store.attachments@.subrange(0, i as int).filter(pred).len(),
            forall|j: int|
                0 <= j < out@.len() ==> {
                    let src = store.attachments@.subrange(0, i as int).filter(pred)[j];
                    &&& (#[trigger] out@[j]).id == src.id
                    &&& out@[j].file_name@ == src.file_name@
                    &&& out@[j].file_path@ == src.file_path@
                    &&& out@[j].file_type@ == src.file_type@
                    &&& out@[j].post_id == src.post_id
                    &&& out@[j].target_type@ == src.target_type@
                    &&& out@[j].target_id == src.target_id
                    &&& out@[j].created_at == Some(src.created_at)
                },
    {
        proof {
            crate::store::lemma_filter_push(
                store.attachments@.subrange(0, i as int),
                store.attachments@[i as int],
                pred,
            );
            assert(store.attachments@.subrange(0, i as int).push(store.attachments@[i as int])
                =~= store.attachments@.subrange(0, i + 1 as int));
        }
        let a = &store.attachments[i];
        if a.target_id == params.target_id && str_eq(
            a.target_type.as_str(),
            params.target_type.as_str(),
        ) {
            out.push(
                SerializableAttachment {
                    id: a.id,
                    file_name: a.file_name.clone(),
                    file_path: a.file_path.clone(),
                    file_type: a.file_type.clone(),
                    post_id: a.post_id,
                    target_type: a.target_type.clone(),
                    target_id: a.target_id,
                    created_at: Some(a.created_at),
                },
            );
        }
    }
    proof {
        assert(store.attachments@.subrange(0, store.attachments@.len() as int)
            =~= store.attachments@);
    }
    out
}

/// Records attachments for one catalog service, after verifying that the
/// caller owns the provider behind it; the files then go in under the
/// service's own target context.
pub fn upload_service_attachments(
    store: &mut Store,
    user: CurrentUser,
    service_id: i32,
    files: Vec<UploadedFile>,
    now: i64,
) -> (r: Result<(), ApiError>)
    requires
        old(store).wf(),
        old(store).next_id + files@.len() <= i32::MAX,
    ensures
        final(store).wf(),
        attachments_frame(*old(store), *final(store)),
        r is Err ==> *final(store) == *old(store),
        !service_owned_by_provider_of(*old(store), service_id, user.user_id) ==> r == Err::<
            (),
            ApiError,
        >(ApiError::Forbidden),
        service_owned_by_provider_of(*old(store), service_id, user.user_id) && (forall|i: int|
            0 <= i < files@.len() ==> (#[trigger] files@[i]).size > 0) ==> r is Ok,
        match r {
            Ok(u) => {
                let kept = stored_files(files@);
                &&& service_owned_by_provider_of(*old(store), service_id, user.user_id)
                &&& final(store).attachments@.len() == old(store).attachments@.len() + kept.len()
                &&& final(store).attachments@.subrange(0, old(store).attachments@.len() as int)
                    == old(store).attachments@
                &&& forall|i: int|
                    0 <= i < kept.len() ==> {
                        let row = #[trigger] final(store).attachments@[old(
                            store,
                        ).attachments@.len() + i];
                        &&& row.file_name@ == kept[i].file_name@
                        &&& row.file_type@ == file_type_of(kept[i].extension@)
                        &&& row.target_type@ == "service"@
                        &&& row.target_id == service_id
                        &&& row.uploaded_by == user.user_id
                    }
            },
            Err(e) => {
                ||| (e == ApiError::Forbidden && !service_owned_by_provider_of(
                    *old(store),
                    service_id,
                    user.user_id,
                ))
                ||| (e == ApiError::Validation && exists|i: int|
                    0 <= i < files@.len() && (#[trigger] files@[i]).size == 0)
            },
        },
{
    if !check_service_owned(store, service_id, user.user_id) {
        return Err(ApiError::Forbidden);
    }
    let params = AttachmentParams {
        target_type: "service".to_owned(),
        target_id: service_id,
        uploaded_by: user.user_id,
    };
    upload_attachments(store, &params, user, files, now)
}

/// The service exists, belongs to a provider, and that provider's row
/// carries the caller's user id.
pub open spec fn service_owned_by_provider_of(pre: Store, service_id: i32, user_id: i32) -> bool {
    exists|k: int|
        0 <= k < pre.services@.len() && (#[trigger] pre.services@[k]).id == service_id
            && pre.services@[k].target_type == crate::store::TargetType::Provider
            && pre.owns_target(user_id, crate::store::TargetType::Provider, pre.services@[k].target_id)
}

/// Decides [`service_owned_by_provider_of`].
fn check_service_owned(store: &Store, service_id: i32, user_id: i32) -> (r: bool)
    requires
        store.wf(),
    ensures
        r == service_owned_by_provider_of(*store, service_id, user_id),
{
    let n = store.services.len();
    for k in 0..n
        invariant
            n == store.services@.len(),
            forall|j: int|
                0 <= j < k ==> !((#[trigger] store.services@[j]).id == service_id
                    && store.services@[j].target_type == crate::store::TargetType::Provider
                    && store.owns_target(
                    user_id,
                    crate::store::TargetType::Provider,
                    store.services@[j].target_id,
                )),
    {
        let s = &store.services[k];
        let is_provider = matches!(s.target_type, crate::store::TargetType::Provider);
        if s.id == service_id && is_provider {
            if store.check_owns_target(user_id, crate::store::TargetType::Provider, s.target_id) {
                assert(store.services@[k as int].id == service_id);
                return true;
            }
        }
    }
    false
}

} // verus!
