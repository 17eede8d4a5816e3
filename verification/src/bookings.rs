//! Bookings: creation with slot-conflict prevention, queries, status
//! updates gated by ownership and the booking state machine, rescheduling
//! and deletion.

use vstd::prelude::*;

use crate::auth::CurrentUser;
use crate::errors::ApiError;
use crate::store::{
    booking_ids_ok, booking_slots_ok, BookingRow, BookingStatus, ServiceRow, Store, TargetType,
};
use crate::validate::{
    parse_status, parse_target_type, status_name, status_name_spec, status_of, target_type_name,
    target_type_name_spec, target_type_of,
};

verus! {

/// The booking payload, as a client submits it. `id`, `client_id`,
/// `status` and the stamp fields are ignored on creation.
pub struct Booking {
    pub id: i32,
    pub client_id: i32,
    pub target_type: String,
    pub target_id: i32,
    pub branch_id: Option<i32>,
    pub service_id: Option<i32>,
    pub service_description: String,
    pub scheduled_time: i64,
    pub status: String,
    pub duration: Option<i32>,
    pub created_at: Option<i64>,
    pub updated_at: Option<i64>,
}

/// Optional filters for a client's own bookings.
pub struct BookingQuery {
    pub status: Option<String>,
    pub target_type: Option<String>,
}

/// The incoming-bookings query a provider or business makes.
pub struct BookingsQueryByReceiver {
    pub target_type: String,
    pub target_id: i32,
    pub status: String,
}

pub struct BookingByIdQuery {
    pub id: i32,
}

/// The status-update payload.
pub struct BookingUpdate {
    pub status: String,
}

/// The target whose booking is updated.
pub struct UpdateQuery {
    pub target_id: i32,
    pub target_type: String,
}

pub struct ReschedulePayload {
    pub scheduled_time: i64,
}

/// An incoming booking joined with the client's identity and the service
/// title, for display.
pub struct BookingResponse {
    pub id: i32,
    pub client_id: i32,
    pub target_type: String,
    pub target_id: i32,
    pub branch_id: Option<i32>,
    pub service_id: Option<i32>,
    pub service_description: String,
    pub scheduled_time: i64,
    pub status: String,
    pub duration: i32,
    pub created_at: Option<i64>,
    pub client_name: String,
    pub client_email: String,
    /// The schema stores no client phone; kept for the response shape.
    pub client_phone: Option<String>,
    pub service_name: String,
}

impl Clone for BookingRow {
    fn clone(&self) -> (r: Self)
        ensures
            r == *self,
    {
        BookingRow {
            id: self.id,
            client_id: self.client_id,
            target_type: self.target_type,
            target_id: self.target_id,
            branch_id: self.branch_id,
            service_id: self.service_id,
            service_description: self.service_description.clone(),
            scheduled_time: self.scheduled_time,
            duration: self.duration,
            status: self.status,
            created_at: self.created_at,
            updated_at: self.updated_at,
        }
    }
}

/// The booking state machine: `pending` may be confirmed, rejected or
/// cancelled; `confirmed` may be completed or cancelled; `completed`,
/// `rejected` and `cancelled` are terminal.
pub open spec fn transition_ok(from: BookingStatus, to: BookingStatus) -> bool {
    match from {
        BookingStatus::Pending => to == BookingStatus::Confirmed || to == BookingStatus::Rejected
            || to == BookingStatus::Cancelled,
        BookingStatus::Confirmed => to == BookingStatus::Completed || to
            == BookingStatus::Cancelled,
        _ => false,
    }
}

/// Decides [`transition_ok`].
pub fn check_transition(from: BookingStatus, to: BookingStatus) -> (r: bool)
    ensures
        r == transition_ok(from, to),
{
    match from {
        BookingStatus::Pending => matches!(
            to,
            BookingStatus::Confirmed | BookingStatus::Rejected | BookingStatus::Cancelled
        ),
        BookingStatus::Confirmed => matches!(to, BookingStatus::Completed | BookingStatus::Cancelled),
        _ => false,
    }
}

/// Some booking already occupies this exact slot.
pub open spec fn slot_taken(s: Seq<BookingRow>, tt: TargetType, tid: i32, t: i64) -> bool {
    exists|i: int|
        0 <= i < s.len() && (#[trigger] s[i]).target_type == tt && s[i].target_id == tid
            && s[i].scheduled_time == t
}

/// A service row with this id belongs to this target.
pub open spec fn service_matches(s: Seq<ServiceRow>, sid: i32, tt: TargetType, tid: i32) -> bool {
    exists|i: int|
        0 <= i < s.len() && (#[trigger] s[i]).id == sid && s[i].target_type == tt && s[i].target_id
            == tid
}

/// Everything a booking endpoint does not touch stays as it was.
pub open spec fn booking_frame(pre: Store, post: Store) -> bool {
    &&& post.users == pre.users
    &&& post.clients == pre.clients
    &&& post.providers == pre.providers
    &&& post.businesses == pre.businesses
    &&& post.admins == pre.admins
    &&& post.password_resets == pre.password_resets
    &&& post.categories == pre.categories
    &&& post.services == pre.services
    &&& post.messages == pre.messages
    &&& post.interactions == pre.interactions
    &&& post.favorites == pre.favorites
    &&& post.reviews == pre.reviews
    &&& post.availability == pre.availability
    &&& post.posts == pre.posts
    &&& post.attachments == pre.attachments
    &&& post.counties == pre.counties
    &&& post.constituencies == pre.constituencies
    &&& post.wards == pre.wards
    &&& post.provider_categories == pre.provider_categories
    &&& post.business_categories == pre.business_categories
    &&& post.branch_locations == pre.branch_locations
    &&& post.provider_locations == pre.provider_locations
}

/// Every check a booking creation makes after its target type parses:
/// a positive, existing target, a time not in the past, a free slot, and
/// a service (when one is named) that belongs to the target.
pub open spec fn create_checks_pass(pre: Store, tt: TargetType, payload: Booking, now: i64) -> bool {
    &&& payload.target_id > 0
    &&& pre.target_exists(tt, payload.target_id)
    &&& payload.scheduled_time >= now
    &&& !slot_taken(pre.bookings@, tt, payload.target_id, payload.scheduled_time)
    &&& match payload.service_id {
        Some(sid) => service_matches(pre.services@, sid, tt, payload.target_id),
        None => true,
    }
}

/// Index of the first booking occupying this slot.
fn find_slot(bookings: &Vec<BookingRow>, tt: TargetType, tid: i32, t: i64) -> (r: Option<usize>)
    ensures
        r is Some <==> slot_taken(bookings@, tt, tid, t),
{
    let n = bookings.len();
    for i in 0..n
        invariant
            n == bookings@.len(),
            forall|j: int|
                0 <= j < i ==> !((#[trigger] bookings@[j]).target_type == tt
                    && bookings@[j].target_id == tid && bookings@[j].scheduled_time == t),
    {
        if bookings[i].target_id == tid && bookings[i].scheduled_time == t {
            let row_tt = bookings[i].target_type;
            if (matches!(row_tt, TargetType::Provider) && matches!(tt, TargetType::Provider))
                || (matches!(row_tt, TargetType::Business) && matches!(tt, TargetType::Business)) {
                assert(bookings@[i as int].target_type == tt && bookings@[i as int].target_id == tid
                    && bookings@[i as int].scheduled_time == t);
                return Some(i);
            }
        }
    }
    None
}

/// Index of the first service row with this id that belongs to this target.
fn find_service_for_target(services: &Vec<ServiceRow>, sid: i32, tt: TargetType, tid: i32) -> (r:
    Option<usize>)
    ensures
        match r {
            Some(i) => 0 <= i < services@.len() && services@[i as int].id == sid
                && services@[i as int].target_type == tt && services@[i as int].target_id == tid,
            None => !service_matches(services@, sid, tt, tid),
        },
{
    let n = services.len();
    for i in 0..n
        invariant
            n == services@.len(),
            forall|j: int|
                0 <= j < i ==> !((#[trigger] services@[j]).id == sid && services@[j].target_type
                    == tt && services@[j].target_id == tid),
    {
        if services[i].id == sid && services[i].target_id == tid {
            let row_tt = services[i].target_type;
            if (matches!(row_tt, TargetType::Provider) && matches!(tt, TargetType::Provider))
                || (matches!(row_tt, TargetType::Business) && matches!(tt, TargetType::Business)) {
                assert(services@[i as int].id == sid && services@[i as int].target_type == tt
                    && services@[i as int].target_id == tid);
                return Some(i);
            }
        }
    }
    None
}

/// Creates a booking with status `pending`: validates the target, refuses
/// a time before `now`, refuses a taken slot, resolves the duration from
/// the named service (60 minutes when none is named), and appends the row.
pub fn create_booking(store: &mut Store, user: CurrentUser, payload: Booking, now: i64) -> (r:
    Result<i32, ApiError>)
    requires
        old(store).wf(),
        old(store).next_id < i32::MAX,
    ensures
        final(store).wf(),
        booking_frame(*old(store), *final(store)),
        final(store).next_id >= old(store).next_id,
        match target_type_of(payload.target_type@) {
            None => r == Err::<i32, ApiError>(ApiError::Validation) && *final(store) == *old(store),
            Some(tt) => if !create_checks_pass(*old(store), tt, payload, now) {
                r == Err::<i32, ApiError>(ApiError::Validation) && *final(store) == *old(store)
            } else {
                let b = final(store).bookings@.last();
                &&& r == Ok::<i32, ApiError>(old(store).next_id)
                &&& final(store).next_id == old(store).next_id + 1
                &&& final(store).bookings@ == old(store).bookings@.push(b)
                &&& b.id == old(store).next_id
                &&& b.client_id == user.user_id
                &&& b.target_type == tt
                &&& b.target_id == payload.target_id
                &&& b.branch_id == payload.branch_id
                &&& b.service_id == payload.service_id
                &&& b.service_description@ == payload.service_description@
                &&& b.scheduled_time == payload.scheduled_time
                &&& b.status == BookingStatus::Pending
                &&& b.created_at == now
                &&& b.updated_at == now
                &&& match payload.service_id {
                    None => b.duration == 60,
                    Some(sid) => forall|k: int|
                        0 <= k < old(store).services@.len() && (#[trigger] old(store).services@[k]).id == sid && old(store).services@[k].target_type == tt
                            && old(store).services@[k].target_id == payload.target_id
                            ==> b.duration == old(store).services@[k].duration,
                }
            },
        },
{
    let tt = match parse_target_type(payload.target_type.as_str()) {
        Some(tt) => tt,
        None => {
            return Err(ApiError::Validation);
        },
    };
    if payload.target_id <= 0 {
        return Err(ApiError::Validation);
    }
    if !store.check_target_exists(tt, payload.target_id) {
        return Err(ApiError::Validation);
    }
    if payload.scheduled_time < now {
        return Err(ApiError::Validation);
    }
    if find_slot(&store.bookings, tt, payload.target_id, payload.scheduled_time).is_some() {
        return Err(ApiError::Validation);
    }
    let duration: i32 = match payload.service_id {
        Some(sid) => {
            match find_service_for_target(&store.services, sid, tt, payload.target_id) {
                Some(k) => store.services[k].duration,
                None => {
                    return Err(ApiError::Validation);
                },
            }
        },
        None => 60,
    };
    let id = store.next_id;
    let row = BookingRow {
        id,
        client_id: user.user_id,
        target_type: tt,
        target_id: payload.target_id,
        branch_id: payload.branch_id,
        service_id: payload.service_id,
        service_description: payload.service_description,
        scheduled_time: payload.scheduled_time,
        duration,
        status: BookingStatus::Pending,
        created_at: now,
        updated_at: now,
    };
    store.bookings.push(row);
    store.next_id = id + 1;
    Ok(id)
}

/// Bookings are sorted by their scheduled time, most recent first.
pub open spec fn sorted_by_time_desc(s: Seq<BookingRow>) -> bool {
    forall|i: int, j: int| #![trigger s[i], s[j]]
        0 <= i < j < s.len() ==> s[i].scheduled_time >= s[j].scheduled_time
}

/// Sorts bookings by scheduled time, most recent first, by repeatedly
/// extracting a latest remaining row.
fn sort_bookings_desc(input: Vec<BookingRow>) -> (r: Vec<BookingRow>)
    ensures
        r@.to_multiset() == input@.to_multiset(),
        sorted_by_time_desc(r@),
{
    broadcast use vstd::seq_lib::group_seq_properties;

    let mut rest = input;
    let mut out: Vec<BookingRow> = Vec::new();
    let ghost all = rest@.to_multiset();
    proof {
        rest@.to_multiset_ensures();
        assert(out@.to_multiset().add(rest@.to_multiset()) =~= all);
    }
    while rest.len() > 0
        invariant
            out@.to_multiset().add(rest@.to_multiset()) == all,
            sorted_by_time_desc(out@),
            forall|i: int, k: int| #![trigger out@[i], rest@[k]]
                0 <= i < out@.len() && 0 <= k < rest@.len() ==> out@[i].scheduled_time
                    >= rest@[k].scheduled_time,
        decreases rest@.len(),
    {
        let mut best: usize = 0;
        let n = rest.len();
        for c in 1..n
            invariant
                n == rest@.len(),
                0 <= best < n,
                forall|j: int|
                    0 <= j < c ==> rest@[best as int].scheduled_time >= (#[trigger] rest@[j]).scheduled_time,
        {
            if rest[c].scheduled_time > rest[best].scheduled_time {
                best = c;
            }
        }
        let ghost pre_rest = rest@;
        let ghost pre_out = out@;
        let row = rest.remove(best);
        out.push(row);
        proof {
            pre_rest.to_multiset_ensures();
            pre_out.to_multiset_ensures();
            assert(rest@.to_multiset() =~= pre_rest.to_multiset().remove(row));
            assert(out@ =~= pre_out.push(row));
            assert(out@.to_multiset() =~= pre_out.to_multiset().insert(row));
            assert(out@.to_multiset().add(rest@.to_multiset()) =~= all);
        }
    }
    out
}

/// The filter a client's own-bookings query applies: the caller's rows,
/// narrowed by the optional status and target-type names.
pub open spec fn client_booking_pred(user_id: i32, status: Option<String>, target_type: Option<String>)
    -> spec_fn(BookingRow) -> bool {
    |b: BookingRow|
        b.client_id == user_id && (match status {
            None => true,
            Some(s) => status_name_spec(b.status) == s@,
        }) && (match target_type {
            None => true,
            Some(t) => target_type_name_spec(b.target_type) == t@,
        })
}

/// A client's own bookings, optionally narrowed by status and target
/// type, sorted by scheduled time with the most recent first. The filter
/// values are matched as data, never interpolated into a query.
pub fn get_bookings_client(store: &Store, user: CurrentUser, params: &BookingQuery) -> (r: Vec<
    BookingRow,
>)
    requires
        store.wf(),
    ensures
        r@.to_multiset() == store.bookings@.filter(
            client_booking_pred(user.user_id, params.status, params.target_type),
        ).to_multiset(),
        sorted_by_time_desc(r@),
{
    let ghost pred = client_booking_pred(user.user_id, params.status, params.target_type);
    let mut picked: Vec<BookingRow> = Vec::new();
    let n = store.bookings.len();
    for i in 0..n
        invariant
            n == store.bookings@.len(),
            picked@ == store.bookings@.subrange(0, i as int).filter(pred),
    {
        let b = &store.bookings[i];
        let status_pass = match &params.status {
            None => true,
            Some(s) => status_name(b.status) == *s,
        };
        let type_pass = match &params.target_type {
            None => true,
            Some(t) => target_type_name(b.target_type) == *t,
        };
        proof {
            crate::store::lemma_filter_push(
                store.bookings@.subrange(0, i as int),
                store.bookings@[i as int],
                pred,
            );
            assert(store.bookings@.subrange(0, i as int).push(store.bookings@[i as int])
                =~= store.bookings@.subrange(0, i + 1 as int));
        }
        if b.client_id == user.user_id && status_pass && type_pass {
            picked.push(b.clone());
        }
    }
    proof {
        assert(store.bookings@.subrange(0, store.bookings@.len() as int) =~= store.bookings@);
    }
    sort_bookings_desc(picked)
}

/// Index of the first booking with this id.
fn find_booking_index(bookings: &Vec<BookingRow>, id: i32) -> (r: Option<usize>)
    ensures
        match r {
            Some(k) => 0 <= k < bookings@.len() && bookings@[k as int].id == id && forall|j: int|
                0 <= j < k ==> (#[trigger] bookings@[j]).id != id,
            None => forall|j: int| 0 <= j < bookings@.len() ==> (#[trigger] bookings@[j]).id != id,
        },
{
    let n = bookings.len();
    for i in 0..n
        invariant
            n == bookings@.len(),
            forall|j: int| 0 <= j < i ==> (#[trigger] bookings@[j]).id != id,
    {
        if bookings[i].id == id {
            assert(bookings@[i as int].id == id);
            return Some(i);
        }
    }
    None
}

/// A booking of the caller, fetched by id.
pub fn get_booking_by_id(store: &Store, user: CurrentUser, id: i32) -> (r: Result<
    BookingRow,
    ApiError,
>)
    requires
        store.wf(),
    ensures
        id <= 0 ==> r == Err::<BookingRow, ApiError>(ApiError::Validation),
        match r {
            Ok(b) => exists|k: int|
                0 <= k < store.bookings@.len() && (#[trigger] store.bookings@[k]).id == id
                    && store.bookings@[k].client_id == user.user_id && b == store.bookings@[k],
            Err(e) => e == ApiError::Validation || (e == ApiError::NotFound && forall|k: int|
                0 <= k < store.bookings@.len() ==> !((#[trigger] store.bookings@[k]).id == id
                    && store.bookings@[k].client_id == user.user_id)),
        },
        id > 0 && (exists|k: int|
            0 <= k < store.bookings@.len() && (#[trigger] store.bookings@[k]).id == id
                && store.bookings@[k].client_id == user.user_id) ==> r is Ok,
{
    if id <= 0 {
        return Err(ApiError::Validation);
    }
    let n = store.bookings.len();
    for i in 0..n
        invariant
            n == store.bookings@.len(),
            forall|j: int|
                0 <= j < i ==> !((#[trigger] store.bookings@[j]).id == id
                    && store.bookings@[j].client_id == user.user_id),
    {
        if store.bookings[i].id == id && store.bookings[i].client_id == user.user_id {
            assert(store.bookings@[i as int].id == id);
            return Ok(store.bookings[i].clone());
        }
    }
    Err(ApiError::NotFound)
}

/// Updates a booking's status. The caller must own the target; the booking
/// must exist for that target; and the change must follow the booking
/// state machine, else it is refused with `Conflict`. Only the status
/// column changes; the update stamp is left as it was, matching the
/// store's single-column update.
pub fn update_booking(
    store: &mut Store,
    id: i32,
    params: &UpdateQuery,
    user: CurrentUser,
    payload: &BookingUpdate,
) -> (r: Result<(), ApiError>)
    requires
        old(store).wf(),
    ensures
        final(store).wf(),
        booking_frame(*old(store), *final(store)),
        final(store).next_id == old(store).next_id,
        r is Err ==> *final(store) == *old(store),
        match target_type_of(params.target_type@) {
            None => r == Err::<(), ApiError>(ApiError::Validation),
            Some(tt) => {
                if params.target_id <= 0 || id <= 0 {
                    r == Err::<(), ApiError>(ApiError::Validation)
                } else if !old(store).owns_target(user.user_id, tt, params.target_id) {
                    r == Err::<(), ApiError>(ApiError::Forbidden)
                } else {
                    match status_of(payload.status@) {
                        None => r == Err::<(), ApiError>(ApiError::Validation),
                        Some(st) => {
                            if !booking_for_target_present(
                                old(store).bookings@,
                                id,
                                tt,
                                params.target_id,
                            ) {
                                r == Err::<(), ApiError>(ApiError::NotFound)
                            } else {
                                exists|k: int|
                                    {
                                        &&& 0 <= k < old(store).bookings@.len()
                                        &&& (#[trigger] old(store).bookings@[k]).id == id
                                        &&& old(store).bookings@[k].target_type == tt
                                        &&& old(store).bookings@[k].target_id == params.target_id
                                        &&& if transition_ok(old(store).bookings@[k].status, st) {
                                            r == Ok::<(), ApiError>(()) && final(store).bookings@
                                                == old(store).bookings@.update(
                                                k,
                                                (BookingRow {
                                                    status: st,
                                                    service_description: final(store).bookings@[k].service_description,
                                                    ..old(store).bookings@[k]
                                                }),
                                            ) && final(store).bookings@[k].service_description@
                                                == old(store).bookings@[k].service_description@
                                        } else {
                                            r == Err::<(), ApiError>(ApiError::Conflict)
                                        }
                                    }
                            }
                        },
                    }
                }
            },
        },
{
    let tt = match parse_target_type(params.target_type.as_str()) {
        Some(tt) => tt,
        None => {
            return Err(ApiError::Validation);
        },
    };
    if params.target_id <= 0 || id <= 0 {
        return Err(ApiError::Validation);
    }
    if !store.check_owns_target(user.user_id, tt, params.target_id) {
        return Err(ApiError::Forbidden);
    }
    let st = match parse_status(payload.status.as_str()) {
        Some(st) => st,
        None => {
            return Err(ApiError::Validation);
        },
    };
    let n = store.bookings.len();
    for k in 0..n
        invariant
            n == store.bookings@.len(),
            *store == *old(store),
            forall|j: int|
                0 <= j < k ==> !((#[trigger] store.bookings@[j]).id == id
                    && store.bookings@[j].target_type == tt && store.bookings@[j].target_id
                    == params.target_id),
    {
        if store.bookings[k].id == id && store.bookings[k].target_id == params.target_id {
            let row_tt = store.bookings[k].target_type;
            let tt_match = (matches!(row_tt, TargetType::Provider) && matches!(
                tt,
                TargetType::Provider,
            )) || (matches!(row_tt, TargetType::Business) && matches!(tt, TargetType::Business));
            if tt_match {
                assert(store.bookings@[k as int].id == id && store.bookings@[k as int].target_type
                    == tt && store.bookings@[k as int].target_id == params.target_id);
                if !check_transition(store.bookings[k].status, st) {
                    return Err(ApiError::Conflict);
                }
                let row = BookingRow {
                    id: store.bookings[k].id,
                    client_id: store.bookings[k].client_id,
                    target_type: store.bookings[k].target_type,
                    target_id: store.bookings[k].target_id,
                    branch_id: store.bookings[k].branch_id,
                    service_id: store.bookings[k].service_id,
                    service_description: store.bookings[k].service_description.clone(),
                    scheduled_time: store.bookings[k].scheduled_time,
                    duration: store.bookings[k].duration,
                    status: st,
                    created_at: store.bookings[k].created_at,
                    updated_at: store.bookings[k].updated_at,
                };
                store.bookings[k] = row;
                return Ok(());
            }
        }
    }
    Err(ApiError::NotFound)
}

/// A booking with this id exists for this target.
pub open spec fn booking_for_target_present(
    s: Seq<BookingRow>,
    id: i32,
    tt: TargetType,
    tid: i32,
) -> bool {
    exists|k: int|
        0 <= k < s.len() && (#[trigger] s[k]).id == id && s[k].target_type == tt && s[k].target_id
            == tid
}

/// Removing a row keeps the bookings table's invariants.
proof fn lemma_booking_remove_ok(s: Seq<BookingRow>, k: int, n: i32)
    requires
        booking_ids_ok(s, n),
        booking_slots_ok(s),
        0 <= k < s.len(),
    ensures
        booking_ids_ok(s.remove(k), n),
        booking_slots_ok(s.remove(k)),
{
    let s2 = s.remove(k);
    assert forall|i: int| 0 <= i < s2.len() implies 1 <= (#[trigger] s2[i]).id < n by {
        if i < k {
            assert(s2[i] == s[i]);
        } else {
            assert(s2[i] == s[i + 1]);
        }
    }
    assert forall|i: int, j: int| #![trigger s2[i], s2[j]] 0 <= i < j < s2.len() implies s2[i].id
        != s2[j].id && !(s2[i].target_type == s2[j].target_type && s2[i].target_id
        == s2[j].target_id && s2[i].scheduled_time == s2[j].scheduled_time) by {
        let a = if i < k { i } else { i + 1 };
        let b = if j < k { j } else { j + 1 };
        assert(s2[i] == s[a]);
        assert(s2[j] == s[b]);
    }
}

/// Replacing a row keeps the bookings table's invariants, provided the id
/// is kept and the new slot is not occupied by another row.
proof fn lemma_booking_update_ok(s: Seq<BookingRow>, k: int, row: BookingRow, n: i32)
    requires
        booking_ids_ok(s, n),
        booking_slots_ok(s),
        0 <= k < s.len(),
        row.id == s[k].id,
        !slot_taken_by_other(s, k, row.target_type, row.target_id, row.scheduled_time),
    ensures
        booking_ids_ok(s.update(k, row), n),
        booking_slots_ok(s.update(k, row)),
{
    let s2 = s.update(k, row);
    assert forall|i: int| 0 <= i < s2.len() implies 1 <= (#[trigger] s2[i]).id < n by {
        if i != k {
            assert(s2[i] == s[i]);
        }
    }
    assert forall|i: int, j: int| #![trigger s2[i], s2[j]] 0 <= i < j < s2.len() implies s2[i].id
        != s2[j].id && !(s2[i].target_type == s2[j].target_type && s2[i].target_id
        == s2[j].target_id && s2[i].scheduled_time == s2[j].scheduled_time) by {
        if i != k {
            assert(s2[i] == s[i]);
        }
        if j != k {
            assert(s2[j] == s[j]);
        }
    }
}

/// Removes the row at `k`, keeping the table's invariants.
fn remove_booking_row(bookings: &mut Vec<BookingRow>, k: usize, Ghost(n): Ghost<i32>)
    requires
        booking_ids_ok(old(bookings)@, n),
        booking_slots_ok(old(bookings)@),
        k < old(bookings)@.len(),
    ensures
        final(bookings)@ == old(bookings)@.remove(k as int),
        booking_ids_ok(final(bookings)@, n),
        booking_slots_ok(final(bookings)@),
{
    proof {
        lemma_booking_remove_ok(bookings@, k as int, n);
    }
    bookings.remove(k);
}

/// Replaces the row at `k`, keeping the table's invariants.
fn replace_booking_row(bookings: &mut Vec<BookingRow>, k: usize, row: BookingRow, Ghost(n): Ghost<i32>)
    requires
        booking_ids_ok(old(bookings)@, n),
        booking_slots_ok(old(bookings)@),
        k < old(bookings)@.len(),
        row.id == old(bookings)@[k as int].id,
        !slot_taken_by_other(
            old(bookings)@,
            k as int,
            row.target_type,
            row.target_id,
            row.scheduled_time,
        ),
    ensures
        final(bookings)@ == old(bookings)@.update(k as int, row),
        booking_ids_ok(final(bookings)@, n),
        booking_slots_ok(final(bookings)@),
{
    proof {
        lemma_booking_update_ok(bookings@, k as int, row, n);
    }
    bookings[k] = row;
}

/// Deletes a booking. Only the owning client may; a missing booking is
/// reported as absent.
pub fn delete_booking(store: &mut Store, id: i32, user: CurrentUser) -> (r: Result<(), ApiError>)
    requires
        old(store).wf(),
    ensures
        final(store).wf(),
        booking_frame(*old(store), *final(store)),
        final(store).next_id == old(store).next_id,
        r is Err ==> *final(store) == *old(store),
        id <= 0 ==> r == Err::<(), ApiError>(ApiError::Validation),
        id > 0 ==> match r {
            Ok(u) => exists|k: int|
                {
                    &&& 0 <= k < old(store).bookings@.len()
                    &&& (#[trigger] old(store).bookings@[k]).id == id
                    &&& old(store).bookings@[k].client_id == user.user_id
                    &&& final(store).bookings@ == old(store).bookings@.remove(k)
                },
            Err(e) => {
                ||| (e == ApiError::NotFound && forall|k: int|
                    0 <= k < old(store).bookings@.len() ==> (#[trigger] old(store).bookings@[k]).id
                        != id)
                ||| (e == ApiError::Forbidden && exists|k: int|
                    0 <= k < old(store).bookings@.len() && (#[trigger] old(store).bookings@[k]).id
                        == id && old(store).bookings@[k].client_id != user.user_id)
            },
        },
{
    if id <= 0 {
        return Err(ApiError::Validation);
    }
    let k = match find_booking_index(&store.bookings, id) {
        Some(k) => k,
        None => {
            return Err(ApiError::NotFound);
        },
    };
    if store.bookings[k].client_id != user.user_id {
        assert(store.bookings@[k as int].id == id);
        return Err(ApiError::Forbidden);
    }
    remove_booking_row(&mut store.bookings, k, Ghost(store.next_id));
    Ok(())
}

/// The slot is occupied by a booking other than the one at index `k`.
pub open spec fn slot_taken_by_other(
    s: Seq<BookingRow>,
    k: int,
    tt: TargetType,
    tid: i32,
    t: i64,
) -> bool {
    exists|j: int|
        0 <= j < s.len() && j != k && (#[trigger] s[j]).target_type == tt && s[j].target_id == tid
            && s[j].scheduled_time == t
}

/// Moves a booking to a new time. Only the owning client may, and the new
/// time must not be in the past. The slot-uniqueness constraint of the
/// store still holds: a move onto an occupied slot fails as a store error.
pub fn reschedule_booking(
    store: &mut Store,
    id: i32,
    user: CurrentUser,
    payload: &ReschedulePayload,
    now: i64,
) -> (r: Result<(), ApiError>)
    requires
        old(store).wf(),
    ensures
        final(store).wf(),
        booking_frame(*old(store), *final(store)),
        final(store).next_id == old(store).next_id,
        r is Err ==> *final(store) == *old(store),
        id <= 0 ==> r == Err::<(), ApiError>(ApiError::Validation),
        id > 0 && payload.scheduled_time < now ==> r == Err::<(), ApiError>(ApiError::Validation),
        id > 0 && payload.scheduled_time >= now ==> match r {
            Ok(u) => exists|k: int|
                {
                    &&& 0 <= k < old(store).bookings@.len()
                    &&& (#[trigger] old(store).bookings@[k]).id == id
                    &&& old(store).bookings@[k].client_id == user.user_id
                    &&& final(store).bookings@ == old(store).bookings@.update(
                        k,
                        (BookingRow {
                            scheduled_time: payload.scheduled_time,
                            service_description: final(store).bookings@[k].service_description,
                            ..old(store).bookings@[k]
                        }),
                    )
                    &&& final(store).bookings@[k].service_description@ == old(store).bookings@[k].service_description@
                },
            Err(e) => {
                ||| (e == ApiError::NotFound && forall|k: int|
                    0 <= k < old(store).bookings@.len() ==> (#[trigger] old(store).bookings@[k]).id
                        != id)
                ||| (e == ApiError::Forbidden && exists|k: int|
                    0 <= k < old(store).bookings@.len() && (#[trigger] old(store).bookings@[k]).id
                        == id && old(store).bookings@[k].client_id != user.user_id)
                ||| (e == ApiError::Store && exists|k: int|
                    0 <= k < old(store).bookings@.len() && (#[trigger] old(store).bookings@[k]).id
                        == id && slot_taken_by_other(
                        old(store).bookings@,
                        k,
                        old(store).bookings@[k].target_type,
                        old(store).bookings@[k].target_id,
                        payload.scheduled_time,
                    ))
            },
        },
{
    if id <= 0 {
        return Err(ApiError::Validation);
    }
    if payload.scheduled_time < now {
        return Err(ApiError::Validation);
    }
    let k = match find_booking_index(&store.bookings, id) {
        Some(k) => k,
        None => {
            return Err(ApiError::NotFound);
        },
    };
    if store.bookings[k].client_id != user.user_id {
        assert(store.bookings@[k as int].id == id);
        return Err(ApiError::Forbidden);
    }
    // The store's uniqueness constraint on (target, time) rejects a move
    // onto an occupied slot.
    let tt = store.bookings[k].target_type;
    let tid = store.bookings[k].target_id;
    let n = store.bookings.len();
    for j in 0..n
        invariant
            forall|jj: int|
                0 <= jj < j && jj != k ==> !((#[trigger] store.bookings@[jj]).target_type == tt
                    && store.bookings@[jj].target_id == tid && store.bookings@[jj].scheduled_time
                    == payload.scheduled_time),
    {
        if j != k && store.bookings[j].target_id == tid && store.bookings[j].scheduled_time
            == payload.scheduled_time {
            let row_tt = store.bookings[j].target_type;
            let tt_match = (matches!(row_tt, TargetType::Provider) && matches!(
                tt,
                TargetType::Provider,
            )) || (matches!(row_tt, TargetType::Business) && matches!(tt, TargetType::Business));
            if tt_match {
                assert(store.bookings@[j as int].target_type == tt && store.bookings@[j as int].target_id
                    == tid);
                return Err(ApiError::Store);
            }
        }
    }
    let row = BookingRow {
        id: store.bookings[k].id,
        client_id: store.bookings[k].client_id,
        target_type: store.bookings[k].target_type,
        target_id: store.bookings[k].target_id,
        branch_id: store.bookings[k].branch_id,
        service_id: store.bookings[k].service_id,
        service_description: store.bookings[k].service_description.clone(),
        scheduled_time: payload.scheduled_time,
        duration: store.bookings[k].duration,
        status: store.bookings[k].status,
        created_at: store.bookings[k].created_at,
        updated_at: store.bookings[k].updated_at,
    };
    replace_booking_row(&mut store.bookings, k, row, Ghost(store.next_id));
    Ok(())
}

/// The filter an incoming-bookings query applies: the target's rows with
/// the named status.
pub open spec fn received_pred(tt: TargetType, tid: i32, status: String) -> spec_fn(
    BookingRow,
) -> bool {
    |b: BookingRow| b.target_type == tt && b.target_id == tid && status_name_spec(b.status)
        == status@
}

/// The display row for a booking: the row's own fields, the client's name
/// and email where the client still exists (empty otherwise), and the
/// service title where a catalog service is attached (the free-form
/// description otherwise).
pub open spec fn response_matches(pre: Store, b: BookingRow, resp: BookingResponse) -> bool {
    &&& resp.id == b.id
    &&& resp.client_id == b.client_id
    &&& resp.target_type@ == target_type_name_spec(b.target_type)
    &&& resp.target_id == b.target_id
    &&& resp.branch_id == b.branch_id
    &&& resp.service_id == b.service_id
    &&& resp.service_description@ == b.service_description@
    &&& resp.scheduled_time == b.scheduled_time
    &&& resp.status@ == status_name_spec(b.status)
    &&& resp.duration == b.duration
    &&& resp.created_at == Some(b.created_at)
    &&& resp.client_phone is None
    &&& forall|k: int|
        0 <= k < pre.users@.len() && (#[trigger] pre.users@[k]).id == b.client_id
            ==> resp.client_name@ == pre.users@[k].username@ && resp.client_email@
            == pre.users@[k].email@
    &&& !crate::store::user_exists(pre.users@, b.client_id) ==> resp.client_name@.len() == 0
        && resp.client_email@.len() == 0
    &&& match b.service_id {
        Some(sid) => (forall|k: int|
            0 <= k < pre.services@.len() && (#[trigger] pre.services@[k]).id == sid
                ==> resp.service_name@ == pre.services@[k].title@) && ((forall|k: int|
            0 <= k < pre.services@.len() ==> (#[trigger] pre.services@[k]).id != sid)
            ==> resp.service_name@.len() == 0),
        None => resp.service_name@ == b.service_description@,
    }
}

/// Index of the first service row with this id.
fn find_service_index(services: &Vec<ServiceRow>, sid: i32) -> (r: Option<usize>)
    ensures
        match r {
            Some(k) => 0 <= k < services@.len() && services@[k as int].id == sid,
            None => forall|k: int| 0 <= k < services@.len() ==> (#[trigger] services@[k]).id != sid,
        },
{
    let n = services.len();
    for i in 0..n
        invariant
            n == services@.len(),
            forall|j: int| 0 <= j < i ==> (#[trigger] services@[j]).id != sid,
    {
        if services[i].id == sid {
            assert(services@[i as int].id == sid);
            return Some(i);
        }
    }
    None
}

/// Builds the display row for one booking.
fn booking_response(store: &Store, b: &BookingRow) -> (resp: BookingResponse)
    requires
        store.wf(),
    ensures
        response_matches(*store, *b, resp),
{
    let (client_name, client_email) = match crate::store::user_index_by_id(
        &store.users,
        b.client_id,
    ) {
        Some(k) => (store.users[k].username.clone(), store.users[k].email.clone()),
        None => (String::new(), String::new()),
    };
    let service_name = match b.service_id {
        Some(sid) => match find_service_index(&store.services, sid) {
            Some(k) => store.services[k].title.clone(),
            None => String::new(),
        },
        None => b.service_description.clone(),
    };
    BookingResponse {
        id: b.id,
        client_id: b.client_id,
        target_type: target_type_name(b.target_type),
        target_id: b.target_id,
        branch_id: b.branch_id,
        service_id: b.service_id,
        service_description: b.service_description.clone(),
        scheduled_time: b.scheduled_time,
        status: status_name(b.status),
        duration: b.duration,
        created_at: Some(b.created_at),
        client_name,
        client_email,
        client_phone: None,
        service_name,
    }
}

/// The bookings a provider or business received, narrowed to one status,
/// each joined with the client's identity and the service title.
/// Display rows are sorted by their scheduled time, most recent first.
pub open spec fn responses_sorted_by_time(s: Seq<BookingResponse>) -> bool {
    forall|i: int, j: int| #![trigger s[i], s[j]]
        0 <= i < j < s.len() ==> s[i].scheduled_time >= s[j].scheduled_time
}

/// The display rows are exactly the picked bookings, re-ordered: some
/// arrangement of the picked rows is sorted by scheduled time descending,
/// and the display rows join it pointwise.
pub open spec fn received_view_ok(
    pre: Store,
    picked: Seq<BookingRow>,
    v: Seq<BookingResponse>,
) -> bool {
    &&& responses_sorted_by_time(v)
    &&& exists|rows: Seq<BookingRow>| #![trigger rows.to_multiset()]
        {
            &&& rows.to_multiset() == picked.to_multiset()
            &&& sorted_by_time_desc(rows)
            &&& v.len() == rows.len()
            &&& forall|i: int|
                0 <= i < v.len() ==> response_matches(pre, rows[i], #[trigger] v[i])
        }
}

pub fn get_bookings_received(
    store: &Store,
    user: CurrentUser,
    params: &BookingsQueryByReceiver,
) -> (r: Result<Vec<BookingResponse>, ApiError>)
    requires
        store.wf(),
    ensures
        match target_type_of(params.target_type@) {
            None => r == Err::<Vec<BookingResponse>, ApiError>(ApiError::Validation),
            Some(tt) => {
                if params.target_id <= 0 {
                    r == Err::<Vec<BookingResponse>, ApiError>(ApiError::Validation)
                } else {
                    match r {
                        Ok(v) => received_view_ok(
                            *store,
                            store.bookings@.filter(
                                received_pred(tt, params.target_id, params.status),
                            ),
                            v@,
                        ),
                        Err(e) => false,
                    }
                }
            },
        },
{
    let tt = match parse_target_type(params.target_type.as_str()) {
        Some(tt) => tt,
        None => {
            return Err(ApiError::Validation);
        },
    };
    if params.target_id <= 0 {
        return Err(ApiError::Validation);
    }
    let ghost pred = received_pred(tt, params.target_id, params.status);
    let mut rows: Vec<BookingRow> = Vec::new();
    let n = store.bookings.len();
    for i in 0..n
        invariant
            n == store.bookings@.len(),
            rows@ == store.bookings@.subrange(0, i as int).filter(pred),
    {
        let b = &store.bookings[i];
        let ghost prefix = store.bookings@.subrange(0, i as int);
        proof {
            crate::store::lemma_filter_push(prefix, store.bookings@[i as int], pred);
            assert(prefix.push(store.bookings@[i as int]) =~= store.bookings@.subrange(
                0,
                i + 1 as int,
            ));
        }
        let status_pass = status_name(b.status) == params.status;
        let type_pass = match (b.target_type, tt) {
            (TargetType::Provider, TargetType::Provider) => true,
            (TargetType::Business, TargetType::Business) => true,
            _ => false,
        };
        if type_pass && b.target_id == params.target_id && status_pass {
            rows.push(b.clone());
        }
    }
    proof {
        assert(store.bookings@.subrange(0, store.bookings@.len() as int) =~= store.bookings@);
    }
    let ghost picked = store.bookings@.filter(pred);
    let sorted = sort_bookings_desc(rows);
    let mut out: Vec<BookingResponse> = Vec::new();
    let m = sorted.len();
    for i in 0..m
        invariant
            m == sorted@.len(),
            out@.len() == i,
            forall|j: int|
                0 <= j < i ==> response_matches(*store, sorted@[j], #[trigger] out@[j]),
    {
        let resp = booking_response(store, &sorted[i]);
        out.push(resp);
    }
    proof {
        picked.to_multiset_ensures();
        sorted@.to_multiset_ensures();
        assert(sorted@.to_multiset() == picked.to_multiset());
        assert(sorted@.to_multiset().len() == picked.to_multiset().len());
        assert forall|i: int, j: int| #![trigger out@[i], out@[j]] 0 <= i < j < out@.len()
            implies out@[i].scheduled_time >= out@[j].scheduled_time by {
            assert(response_matches(*store, sorted@[i], out@[i]));
            assert(response_matches(*store, sorted@[j], out@[j]));
        }
        assert(received_view_ok(*store, picked, out@));
    }
    Ok(out)
}

} // verus!
