//! Direct messages between a client and a provider/business target, with
//! read-state tracking, and the interaction log that gates reviews.

use vstd::prelude::*;

use crate::auth::CurrentUser;
use crate::errors::ApiError;
use crate::store::{InteractionRow, MessageRow, Store, TargetType};
use crate::validate::{parse_target_type, target_type_of};

verus! {

pub struct NewMessage {
    pub content: String,
    pub target_type: String,
    pub target_id: i32,
    pub receiver_id: i32,
}

pub struct MessageQuery {
    pub target_type: String,
    pub target_id: i32,
    pub with_user: i32,
    pub page: Option<i32>,
    pub limit: Option<i32>,
}

pub struct MarkReadPayload {
    pub target_type: String,
    pub target_id: i32,
    pub sender_id: i32,
    pub message_ids: Vec<i32>,
}

pub struct UnreadMessagesCount {
    pub target_type: String,
}

impl Clone for MessageRow {
    fn clone(&self) -> (r: Self)
        ensures
            r == *self,
    {
        MessageRow {
            id: self.id,
            sender_id: self.sender_id,
            receiver_id: self.receiver_id,
            target_type: self.target_type,
            target_id: self.target_id,
            content: self.content.clone(),
            created_at: self.created_at,
            is_read: self.is_read,
            read_at: self.read_at,
        }
    }
}

/// Everything a messaging endpoint does not touch stays as it was.
pub open spec fn messages_frame(pre: Store, post: Store) -> bool {
    &&& post.users == pre.users
    &&& post.clients == pre.clients
    &&& post.providers == pre.providers
    &&& post.businesses == pre.businesses
    &&& post.admins == pre.admins
    &&& post.password_resets == pre.password_resets
    &&& post.categories == pre.categories
    &&& post.services == pre.services
    &&& post.bookings == pre.bookings
    &&& post.favorites == pre.favorites
    &&& post.reviews == pre.reviews
    &&& post.availability == pre.availability
    &&& post.posts == pre.posts
    &&& post.attachments == pre.attachments
    &&& post.counties == pre.counties
    &&& post.constituencies == pre.constituencies
    &&& post.wards == pre.wards
    &&& post.provider_categories == pre.provider_categories
    &&& post.business_categories == pre.business_categories
    &&& post.branch_locations == pre.branch_locations
    &&& post.provider_locations == pre.provider_locations
}

/// The provider or business row id through which this user acts as the
/// given target type.
pub fn get_target_id(store: &Store, user_id: i32, target_type: TargetType) -> (r: Option<i32>)
    requires
        store.wf(),
    ensures
        match r {
            Some(id) => store.owns_target(user_id, target_type, id),
            None => forall|tid: i32| !store.owns_target(user_id, target_type, tid),
        },
{
    match target_type {
        TargetType::Provider => {
            match crate::store::provider_index_by_user(&store.providers, user_id) {
                Some(k) => Some(store.providers[k].id),
                None => None,
            }
        },
        TargetType::Business => {
            match crate::store::business_index_by_user(&store.businesses, user_id) {
                Some(k) => Some(store.businesses[k].id),
                None => None,
            }
        },
    }
}

/// Sends a message into a target's room and logs the sender's interaction
/// with that target, which later gates review eligibility.
pub fn send_message(store: &mut Store, user: CurrentUser, payload: NewMessage, now: i64) -> (r:
    Result<i32, ApiError>)
    requires
        old(store).wf(),
        old(store).next_id + 2 <= i32::MAX,
    ensures
        final(store).wf(),
        messages_frame(*old(store), *final(store)),
        payload.content@.len() == 0 ==> r == Err::<i32, ApiError>(ApiError::Validation) && *final(store) == *old(store),
        match target_type_of(payload.target_type@) {
            None => r == Err::<i32, ApiError>(ApiError::Validation) && *final(store) == *old(store),
            Some(tt) => payload.content@.len() > 0 ==> {
                let mid = old(store).next_id;
                &&& r == Ok::<i32, ApiError>(mid)
                &&& final(store).next_id == mid + 2
                &&& final(store).messages@ == old(store).messages@.push(
                    (MessageRow {
                        id: mid,
                        sender_id: user.user_id,
                        receiver_id: payload.receiver_id,
                        target_type: tt,
                        target_id: payload.target_id,
                        content: final(store).messages@.last().content,
                        created_at: now,
                        is_read: false,
                        read_at: None,
                    }),
                )
                &&& final(store).messages@.last().content@ == payload.content@
                &&& final(store).interactions@ == old(store).interactions@.push(
                    (InteractionRow {
                        id: (mid + 1) as i32,
                        user_id: user.user_id,
                        target_type: tt,
                        target_id: payload.target_id,
                        interaction_type: final(store).interactions@.last().interaction_type,
                        created_at: now,
                    }),
                )
                &&& final(store).interactions@.last().interaction_type@ == "message"@
            },
        },
{
    if payload.content.as_str().is_empty() {
        return Err(ApiError::Validation);
    }
    let tt = match parse_target_type(payload.target_type.as_str()) {
        Some(tt) => tt,
        None => {
            return Err(ApiError::Validation);
        },
    };
    let mid = store.next_id;
    store.messages.push(
        MessageRow {
            id: mid,
            sender_id: user.user_id,
            receiver_id: payload.receiver_id,
            target_type: tt,
            target_id: payload.target_id,
            content: payload.content,
            created_at: now,
            is_read: false,
            read_at: None,
        },
    );
    store.interactions.push(
        InteractionRow {
            id: mid + 1,
            user_id: user.user_id,
            target_type: tt,
            target_id: payload.target_id,
            interaction_type: "message".to_owned(),
            created_at: now,
        },
    );
    store.next_id = mid + 2;
    Ok(mid)
}

/// The conversation filter: messages in the
/// target's room between the resolved receiver and the chosen user, plus
/// any message from that user to the receiver.
pub open spec fn conversation_pred(tt: TargetType, tid: i32, receiver: i32, with_user: i32)
    -> spec_fn(MessageRow) -> bool {
    |m: MessageRow|
        (m.target_type == tt && m.target_id == tid && ((m.sender_id == receiver && m.receiver_id
            == with_user) || (m.sender_id == with_user && m.receiver_id == receiver))) || (
        m.sender_id == with_user && m.receiver_id == receiver)
}

/// A page of the conversation, newest first.
pub fn get_messages(store: &Store, params: &MessageQuery, user: CurrentUser) -> (r: Result<
    Vec<MessageRow>,
    ApiError,
>)
    requires
        store.wf(),
    ensures
        match target_type_of(params.target_type@) {
            None => r == Err::<Vec<MessageRow>, ApiError>(ApiError::Validation),
            Some(tt) => {
                if params.target_id <= 0 || params.with_user <= 0 {
                    r == Err::<Vec<MessageRow>, ApiError>(ApiError::Validation)
                } else if (forall|tid: i32| !store.owns_target(user.user_id, tt, tid)) {
                    r == Err::<Vec<MessageRow>, ApiError>(ApiError::Forbidden)
                } else {
                    match r {
                        Ok(v) => exists|receiver: i32|
                            {
                                &&& #[trigger] store.owns_target(user.user_id, tt, receiver)
                                &&& {
                                    let page = match params.page {
                                        Some(p) => p as int,
                                        None => 1,
                                    };
                                    let limit = match params.limit {
                                        Some(l) => l as int,
                                        None => 10,
                                    };
                                    let conv = store.messages@.filter(
                                        conversation_pred(
                                            tt,
                                            params.target_id,
                                            receiver,
                                            params.with_user,
                                        ),
                                    ).reverse();
                                    let off = (page - 1) * limit;
                                    limit >= 0 && off >= 0 && v@ == conv.subrange(
                                        if off > conv.len() {
                                            conv.len() as int
                                        } else {
                                            off
                                        },
                                        if off + limit > conv.len() {
                                            conv.len() as int
                                        } else {
                                            off + limit
                                        },
                                    )
                                }
                            },
                        Err(e) => e == ApiError::Store && ({
                            let page = match params.page {
                                Some(p) => p as int,
                                None => 1,
                            };
                            let limit = match params.limit {
                                Some(l) => l as int,
                                None => 10,
                            };
                            limit < 0 || (page - 1) * limit < 0
                        }),
                    }
                }
            },
        },
{
    let tt = match parse_target_type(params.target_type.as_str()) {
        Some(tt) => tt,
        None => {
            return Err(ApiError::Validation);
        },
    };
    if params.target_id <= 0 || params.with_user <= 0 {
        return Err(ApiError::Validation);
    }
    let receiver = match get_target_id(store, user.user_id, tt) {
        Some(id) => id,
        None => {
            return Err(ApiError::Forbidden);
        },
    };
    let page: i64 = match params.page {
        Some(p) => p as i64,
        None => 1,
    };
    let limit: i64 = match params.limit {
        Some(l) => l as i64,
        None => 10,
    };
    proof {
        assert((page - 1) * limit <= 0x4000000080000000 && (page - 1) * limit
            >= -0x4000000100000000) by (nonlinear_arith)
            requires
                -0x80000000 <= page <= 0x7fffffff,
                -0x80000000 <= limit <= 0x7fffffff,
        ;
    }
    let off: i64 = (page - 1) * limit;
    if limit < 0 || off < 0 {
        // The store refuses a negative LIMIT or OFFSET.
        return Err(ApiError::Store);
    }
    let ghost pred = conversation_pred(tt, params.target_id, receiver, params.with_user);
    let mut picked: Vec<MessageRow> = Vec::new();
    let n = store.messages.len();
    for i in 0..n
        invariant
            n == store.messages@.len(),
            picked@ == store.messages@.subrange(0, i as int).filter(pred),
    {
        proof {
            crate::store::lemma_filter_push(
                store.messages@.subrange(0, i as int),
                store.messages@[i as int],
                pred,
            );
            assert(store.messages@.subrange(0, i as int).push(store.messages@[i as int])
                =~= store.messages@.subrange(0, i + 1 as int));
        }
        let m = &store.messages[i];
        let tt_match = match (m.target_type, tt) {
            (TargetType::Provider, TargetType::Provider) => true,
            (TargetType::Business, TargetType::Business) => true,
            _ => false,
        };
        let in_room = tt_match && m.target_id == params.target_id && ((m.sender_id == receiver
            && m.receiver_id == params.with_user) || (m.sender_id == params.with_user
            && m.receiver_id == receiver));
        let from_user = m.sender_id == params.with_user && m.receiver_id == receiver;
        if in_room || from_user {
            picked.push(m.clone());
        }
    }
    proof {
        assert(store.messages@.subrange(0, store.messages@.len() as int) =~= store.messages@);
    }
    // Newest first, then the requested page.
    let total = picked.len();
    let mut out: Vec<MessageRow> = Vec::new();
    let offp: u64 = off as u64;
    let limp: u64 = limit as u64;
    let tot: u64 = total as u64;
    let start: u64 = if offp > tot {
        tot
    } else {
        offp
    };
    let stop: u64 = if offp + limp > tot {
        tot
    } else {
        offp + limp
    };
    let ghost conv = picked@.reverse();
    let mut k: u64 = start;
    while k < stop
        invariant
            0 <= start <= k <= stop <= tot,
            tot == picked@.len(),
            conv == picked@.reverse(),
            out@.len() == k - start,
            forall|j: int| 0 <= j < out@.len() ==> out@[j] == conv[start as int + j],
        decreases stop - k,
    {
        let idx: usize = (tot - 1 - k) as usize;
        out.push(picked[idx].clone());
        k = k + 1;
    }
    proof {
        assert(out@ =~= conv.subrange(start as int, stop as int));
    }
    Ok(out)
}

/// A message row after a bulk mark-as-read: flagged read exactly when it
/// is addressed to the receiver, still unread, and named in the id list.
pub open spec fn marked_row(m: MessageRow, ids: Seq<i32>, receiver: i32, now: i64) -> MessageRow {
    if m.receiver_id == receiver && !m.is_read && ids.contains(m.id) {
        MessageRow { is_read: true, read_at: Some(now), ..m }
    } else {
        m
    }
}

/// Whether this id list names the given id.
fn contains_id(ids: &Vec<i32>, id: i32) -> (r: bool)
    ensures
        r == ids@.contains(id),
{
    let n = ids.len();
    for i in 0..n
        invariant
            n == ids@.len(),
            forall|j: int| 0 <= j < i ==> ids@[j] != id,
    {
        if ids[i] == id {
            assert(ids@[i as int] == id);
            return true;
        }
    }
    false
}

/// Marks the named messages as read for the caller's resolved target
/// identity. Already-read messages, messages of other receivers and
/// unnamed messages are untouched, so re-marking is harmless.
pub fn mark_messages_as_read(store: &mut Store, user: CurrentUser, payload: &MarkReadPayload, now: i64)
    -> (r: Result<(), ApiError>)
    requires
        old(store).wf(),
    ensures
        final(store).wf(),
        messages_frame(*old(store), *final(store)),
        final(store).next_id == old(store).next_id,
        payload.message_ids@.len() == 0 ==> r == Err::<(), ApiError>(ApiError::Validation)
            && *final(store) == *old(store),
        match target_type_of(payload.target_type@) {
            None => r == Err::<(), ApiError>(ApiError::Validation) && *final(store) == *old(store),
            Some(tt) => payload.message_ids@.len() > 0 ==> {
                if payload.target_id <= 0 || payload.sender_id <= 0 {
                    r == Err::<(), ApiError>(ApiError::Validation) && *final(store) == *old(store)
                } else if (forall|tid: i32| !old(store).owns_target(user.user_id, tt, tid)) {
                    r == Err::<(), ApiError>(ApiError::Forbidden) && *final(store) == *old(store)
                } else {
                    exists|receiver: i32|
                        {
                            &&& #[trigger] old(store).owns_target(user.user_id, tt, receiver)
                            &&& r == Ok::<(), ApiError>(())
                            &&& final(store).messages@.len() == old(store).messages@.len()
                            &&& forall|i: int|
                                0 <= i < old(store).messages@.len() ==> final(store).messages@[i]
                                    == marked_row(
                                    #[trigger] old(store).messages@[i],
                                    payload.message_ids@,
                                    receiver,
                                    now,
                                )
                        }
                }
            },
        },
{
    if payload.message_ids.len() == 0 {
        return Err(ApiError::Validation);
    }
    let tt = match parse_target_type(payload.target_type.as_str()) {
        Some(tt) => tt,
        None => {
            return Err(ApiError::Validation);
        },
    };
    if payload.target_id <= 0 || payload.sender_id <= 0 {
        return Err(ApiError::Validation);
    }
    let receiver = match get_target_id(store, user.user_id, tt) {
        Some(id) => id,
        None => {
            return Err(ApiError::Forbidden);
        },
    };
    let n = store.messages.len();
    for i in 0..n
        invariant
            n == store.messages@.len(),
            store.messages@.len() == old(store).messages@.len(),
            messages_frame(*old(store), *store),
            store.next_id == old(store).next_id,
            store.wf(),
            forall|j: int|
                0 <= j < i ==> store.messages@[j] == marked_row(
                    #[trigger] old(store).messages@[j],
                    payload.message_ids@,
                    receiver,
                    now,
                ),
            forall|j: int| i <= j < n ==> store.messages@[j] == old(store).messages@[j],
    {
        if store.messages[i].receiver_id == receiver && !store.messages[i].is_read && contains_id(
            &payload.message_ids,
            store.messages[i].id,
        ) {
            let row = MessageRow {
                id: store.messages[i].id,
                sender_id: store.messages[i].sender_id,
                receiver_id: store.messages[i].receiver_id,
                target_type: store.messages[i].target_type,
                target_id: store.messages[i].target_id,
                content: store.messages[i].content.clone(),
                created_at: store.messages[i].created_at,
                is_read: true,
                read_at: Some(now),
            };
            store.messages[i] = row;
        }
    }
    Ok(())
}

/// How many unread messages are addressed to this receiver id.
pub open spec fn unread_count_of(messages: Seq<MessageRow>, receiver: i32) -> int {
    messages.filter(|m: MessageRow| m.receiver_id == receiver && !m.is_read).len() as int
}

/// The number of unread messages addressed to the caller's resolved
/// target identity.
pub fn get_unread_messages_count(store: &Store, user: CurrentUser, params: &UnreadMessagesCount)
    -> (r: Result<usize, ApiError>)
    requires
        store.wf(),
    ensures
        match target_type_of(params.target_type@) {
            None => r == Err::<usize, ApiError>(ApiError::Validation),
            Some(tt) => {
                if (forall|tid: i32| !store.owns_target(user.user_id, tt, tid)) {
                    r == Err::<usize, ApiError>(ApiError::Forbidden)
                } else {
                    match r {
                        Ok(c) => exists|receiver: i32|
                            #[trigger] store.owns_target(user.user_id, tt, receiver) && c
                                == unread_count_of(store.messages@, receiver),
                        Err(e) => false,
                    }
                }
            },
        },
{
    let tt = match parse_target_type(params.target_type.as_str()) {
        Some(tt) => tt,
        None => {
            return Err(ApiError::Validation);
        },
    };
    let receiver = match get_target_id(store, user.user_id, tt) {
        Some(id) => id,
        None => {
            return Err(ApiError::Forbidden);
        },
    };
    let ghost pred = |m: MessageRow| m.receiver_id == receiver && !m.is_read;
    let mut count: usize = 0;
    let n = store.messages.len();
    for i in 0..n
        invariant
            n == store.messages@.len(),
            count == store.messages@.subrange(0, i as int).filter(pred).len(),
            count <= i,
    {
        proof {
            crate::store::lemma_filter_push(
                store.messages@.subrange(0, i as int),
                store.messages@[i as int],
                pred,
            );
            assert(store.messages@.subrange(0, i as int).push(store.messages@[i as int])
                =~= store.messages@.subrange(0, i + 1 as int));
        }
        if store.messages[i].receiver_id == receiver && !store.messages[i].is_read {
            count = count + 1;
        }
    }
    proof {
        assert(store.messages@.subrange(0, store.messages@.len() as int) =~= store.messages@);
    }
    Ok(count)
}

} // verus!
