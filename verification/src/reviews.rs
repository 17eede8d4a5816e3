//! Reviews: at most one per user and target, gated on a prior interaction,
//! with exact-arithmetic aggregate ratings and target rankings.

use vstd::prelude::*;

use crate::auth::CurrentUser;
use crate::errors::ApiError;
use crate::store::{InteractionRow, ReviewRow, Store, TargetType};
use crate::validate::{parse_review_target_type, parse_target_type, review_target_type_of, target_type_of};
use vstd::arithmetic::div_mod::{lemma_div_by_multiple, lemma_div_is_ordered, lemma_div_pos_is_pos};
use vstd::arithmetic::mul::lemma_mul_inequality;

verus! {

/// A review payload.
pub struct Review {
    pub comment: String,
    pub rating: i32,
}

/// The target a review query addresses.
pub struct ReviewQuery {
    pub target_type: String,
    pub target_id: i32,
}

/// A stored review, as listed.
pub struct ReviewResponse {
    pub id: i32,
    pub reviewer_id: i32,
    pub rating: i32,
    pub comment: String,
    pub created_at: i64,
}

/// A target's aggregate rating. The average is held in hundredths, an
/// exact integer in place of a rounded decimal.
#[derive(Clone, Copy, Debug, PartialEq, Eq, Structural)]
pub struct AggregatedRating {
    pub target_id: i32,
    /// Average rating rounded half-up, in hundredths.
    pub average_rating: i64,
    pub review_count: u64,
}

/// This user has already rated this target.
pub open spec fn has_review(s: Seq<ReviewRow>, reviewer: i32, tt: TargetType, tid: i32) -> bool {
    exists|i: int|
        0 <= i < s.len() && (#[trigger] s[i]).reviewer_id == reviewer && s[i].target_type == tt
            && s[i].target_id == tid
}

/// The user has a logged interaction with this target.
pub open spec fn has_interaction(s: Seq<InteractionRow>, user: i32, tt: TargetType, tid: i32) -> bool {
    exists|i: int|
        0 <= i < s.len() && (#[trigger] s[i]).user_id == user && s[i].target_type == tt
            && s[i].target_id == tid
}

/// The reviews of one target.
pub open spec fn target_reviews(s: Seq<ReviewRow>, tt: TargetType, tid: i32) -> Seq<ReviewRow> {
    s.filter(|r: ReviewRow| r.target_type == tt && r.target_id == tid)
}

/// The sum of the ratings in a sequence of reviews.
pub open spec fn rating_sum(s: Seq<ReviewRow>) -> int
    decreases s.len(),
{
    if s.len() == 0 {
        0
    } else {
        rating_sum(s.drop_last()) + s.last().rating
    }
}

/// The average in hundredths, rounded half away from zero:
/// `round(100 * sum / count)` for a sum of either sign.
pub open spec fn avg_hundredths(sum: int, count: int) -> int {
    if sum >= 0 {
        (200 * sum + count) / (2 * count)
    } else {
        -((200 * (-sum) + count) / (2 * count))
    }
}

/// Everything a review endpoint does not touch stays as it was.
pub open spec fn reviews_frame(pre: Store, post: Store) -> bool {
    &&& post.users == pre.users
    &&& post.clients == pre.clients
    &&& post.providers == pre.providers
    &&& post.businesses == pre.businesses
    &&& post.admins == pre.admins
    &&& post.password_resets == pre.password_resets
    &&& post.categories == pre.categories
    &&& post.services == pre.services
    &&& post.bookings == pre.bookings
    &&& post.messages == pre.messages
    &&& post.interactions == pre.interactions
    &&& post.favorites == pre.favorites
    &&& post.availability == pre.availability
    &&& post.posts == pre.posts
    &&& post.attachments == pre.attachments
    &&& post.counties == pre.counties
    &&& post.constituencies == pre.constituencies
    &&& post.wards == pre.wards
    &&& post.provider_categories == pre.provider_categories
    &&& post.business_categories == pre.business_categories
    &&& post.branch_locations == pre.branch_locations
    &&& post.provider_locations == pre.provider_locations
}

/// A review payload passes validation: a non-empty comment. The rating
/// is stored as given, any integer, as the schema's column holds it.
pub open spec fn review_valid(p: Review) -> bool {
    p.comment@.len() > 0
}

/// Creates a review: the comment must be non-empty; the target must
/// exist; a second rating of the same target by the same user is refused
/// with `Conflict`; a caller without a logged interaction with the
/// target is refused with `Forbidden`. The rating is stored as given.
pub fn create_reviews(
    store: &mut Store,
    params: &ReviewQuery,
    user: CurrentUser,
    payload: Review,
    now: i64,
) -> (r: Result<i32, ApiError>)
    requires
        old(store).wf(),
        old(store).next_id < i32::MAX,
    ensures
        final(store).wf(),
        reviews_frame(*old(store), *final(store)),
        r is Err ==> *final(store) == *old(store),
        !review_valid(payload) ==> r == Err::<i32, ApiError>(ApiError::Validation),
        review_valid(payload) ==> match review_target_type_of(params.target_type@) {
            None => r == Err::<i32, ApiError>(ApiError::Validation),
            Some(tt) => {
                if params.target_id <= 0 {
                    r == Err::<i32, ApiError>(ApiError::Validation)
                } else if !old(store).target_exists(tt, params.target_id) {
                    r == Err::<i32, ApiError>(ApiError::NotFound)
                } else if has_review(old(store).reviews@, user.user_id, tt, params.target_id) {
                    r == Err::<i32, ApiError>(ApiError::Conflict)
                } else if !has_interaction(
                    old(store).interactions@,
                    user.user_id,
                    tt,
                    params.target_id,
                ) {
                    r == Err::<i32, ApiError>(ApiError::Forbidden)
                } else {
                    &&& r == Ok::<i32, ApiError>(old(store).next_id)
                    &&& final(store).next_id == old(store).next_id + 1
                    &&& final(store).reviews@ == old(store).reviews@.push(
                        (ReviewRow {
                            id: old(store).next_id,
                            reviewer_id: user.user_id,
                            target_type: tt,
                            target_id: params.target_id,
                            rating: payload.rating,
                            comment: final(store).reviews@.last().comment,
                            created_at: now,
                        }),
                    )
                    &&& final(store).reviews@.last().comment@ == payload.comment@
                }
            },
        },
{
    if payload.comment.as_str().is_empty() {
        return Err(ApiError::Validation);
    }
    let tt = match parse_review_target_type(params.target_type.as_str()) {
        Some(tt) => tt,
        None => {
            return Err(ApiError::Validation);
        },
    };
    if params.target_id <= 0 {
        return Err(ApiError::Validation);
    }
    if !store.check_target_exists(tt, params.target_id) {
        return Err(ApiError::NotFound);
    }
    let n = store.reviews.len();
    for i in 0..n
        invariant
            n == store.reviews@.len(),
            *store == *old(store),
            forall|j: int|
                0 <= j < i ==> !((#[trigger] store.reviews@[j]).reviewer_id == user.user_id
                    && store.reviews@[j].target_type == tt && store.reviews@[j].target_id
                    == params.target_id),
    {
        if store.reviews[i].reviewer_id == user.user_id && store.reviews[i].target_id
            == params.target_id {
            let row_tt = store.reviews[i].target_type;
            let tt_match = match (row_tt, tt) {
                (TargetType::Provider, TargetType::Provider) => true,
                (TargetType::Business, TargetType::Business) => true,
                _ => false,
            };
            if tt_match {
                assert(store.reviews@[i as int].reviewer_id == user.user_id
                    && store.reviews@[i as int].target_type == tt
                    && store.reviews@[i as int].target_id == params.target_id);
                return Err(ApiError::Conflict);
            }
        }
    }
    let mut interacted = false;
    let m = store.interactions.len();
    for i in 0..m
        invariant
            m == store.interactions@.len(),
            *store == *old(store),
            interacted ==> has_interaction(
                store.interactions@,
                user.user_id,
                tt,
                params.target_id,
            ),
            !interacted ==> forall|j: int|
                0 <= j < i ==> !((#[trigger] store.interactions@[j]).user_id == user.user_id
                    && store.interactions@[j].target_type == tt && store.interactions@[j].target_id
                    == params.target_id),
    {
        if !interacted && store.interactions[i].user_id == user.user_id
            && store.interactions[i].target_id == params.target_id {
            let row_tt = store.interactions[i].target_type;
            let tt_match = match (row_tt, tt) {
                (TargetType::Provider, TargetType::Provider) => true,
                (TargetType::Business, TargetType::Business) => true,
                _ => false,
            };
            if tt_match {
                assert(store.interactions@[i as int].user_id == user.user_id
                    && store.interactions@[i as int].target_type == tt
                    && store.interactions@[i as int].target_id == params.target_id);
                interacted = true;
            }
        }
    }
    if !interacted {
        return Err(ApiError::Forbidden);
    }
    let id = store.next_id;
    store.reviews.push(
        ReviewRow {
            id,
            reviewer_id: user.user_id,
            target_type: tt,
            target_id: params.target_id,
            rating: payload.rating,
            comment: payload.comment,
            created_at: now,
        },
    );
    store.next_id = id + 1;
    Ok(id)
}

/// The reviews of a target, newest first.
pub fn get_reviews(store: &Store, params: &ReviewQuery) -> (r: Result<Vec<ReviewResponse>, ApiError>)
    requires
        store.wf(),
    ensures
        match target_type_of(params.target_type@) {
            None => r == Err::<Vec<ReviewResponse>, ApiError>(ApiError::Validation),
            Some(tt) => {
                if params.target_id <= 0 {
                    r == Err::<Vec<ReviewResponse>, ApiError>(ApiError::Validation)
                } else {
                    match r {
                        Ok(v) => {
                            let picked = target_reviews(store.reviews@, tt, params.target_id);
                            v@.len() == picked.len() && forall|i: int|
                                0 <= i < picked.len() ==> {
                                    let src = picked[picked.len() - 1 - i];
                                    &&& (#[trigger] v@[i]).id == src.id
                                    &&& v@[i].reviewer_id == src.reviewer_id
                                    &&& v@[i].rating == src.rating
                                    &&& v@[i].comment@ == src.comment@
                                    &&& v@[i].created_at == src.created_at
                                }
                        },
                        Err(e) => false,
                    }
                }
            },
        },
{
    let tt = match parse_target_type(params.target_type.as_str()) {
        Some(tt) => tt,
        None => {
            return Err(ApiError::Validation);
        },
    };
    if params.target_id <= 0 {
        return Err(ApiError::Validation);
    }
    let ghost pred = |r: ReviewRow| r.target_type == tt && r.target_id == params.target_id;
    let mut picked: Vec<usize> = Vec::new();
    let n = store.reviews.len();
    for i in 0..n
        invariant
            n == store.reviews@.len(),
            picked@.len() == store.reviews@.subrange(0, i as int).filter(pred).len(),
            forall|j: int|
                0 <= j < picked@.len() ==> (#[trigger] picked@[j]) < n && store.reviews@[picked@[j] as int]
                    == store.reviews@.subrange(0, i as int).filter(pred)[j],
    {
        proof {
            crate::store::lemma_filter_push(
                store.reviews@.subrange(0, i as int),
                store.reviews@[i as int],
                pred,
            );
            assert(store.reviews@.subrange(0, i as int).push(store.reviews@[i as int])
                =~= store.reviews@.subrange(0, i + 1 as int));
        }
        let row = &store.reviews[i];
        let tt_match = match (row.target_type, tt) {
            (TargetType::Provider, TargetType::Provider) => true,
            (TargetType::Business, TargetType::Business) => true,
            _ => false,
        };
        if tt_match && row.target_id == params.target_id {
            picked.push(i);
        }
    }
    proof {
        assert(store.reviews@.subrange(0, store.reviews@.len() as int) =~= store.reviews@);
    }
    let mut out: Vec<ReviewResponse> = Vec::new();
    let m = picked.len();
    for i in 0..m
        invariant
            m == picked@.len(),
            out@.len() == i,
            forall|j: int| 0 <= j < m ==> (#[trigger] picked@[j]) < store.reviews@.len(),
            forall|j: int|
                0 <= j < m ==> store.reviews@[picked@[j] as int] == target_reviews(
                    store.reviews@,
                    tt,
                    params.target_id,
                )[j],
            forall|j: int|
                0 <= j < i ==> {
                    let src = store.reviews@[picked@[m - 1 - j] as int];
                    &&& (#[trigger] out@[j]).id == src.id
                    &&& out@[j].reviewer_id == src.reviewer_id
                    &&& out@[j].rating == src.rating
                    &&& out@[j].comment@ == src.comment@
                    &&& out@[j].created_at == src.created_at
                },
    {
        let idx = picked[m - 1 - i];
        let row = &store.reviews[idx];
        out.push(
            ReviewResponse {
                id: row.id,
                reviewer_id: row.reviewer_id,
                rating: row.rating,
                comment: row.comment.clone(),
                created_at: row.created_at,
            },
        );
    }
    Ok(out)
}

/// Sums the ratings and counts the rows of one target's reviews.
fn tally_target(reviews: &Vec<ReviewRow>, tt: TargetType, tid: i32) -> (r: (i128, usize))
    ensures
        r.0 == rating_sum(target_reviews(reviews@, tt, tid)),
        r.1 == target_reviews(reviews@, tt, tid).len(),
        -0x80000000 * (r.1 as int) <= r.0 <= 0x80000000 * (r.1 as int),
{
    let ghost pred = |r: ReviewRow| r.target_type == tt && r.target_id == tid;
    let mut sum: i128 = 0;
    let mut count: usize = 0;
    let n = reviews.len();
    for i in 0..n
        invariant
            n == reviews@.len(),
            count == reviews@.subrange(0, i as int).filter(pred).len(),
            sum == rating_sum(reviews@.subrange(0, i as int).filter(pred)),
            -0x80000000 * (count as int) <= sum <= 0x80000000 * (count as int),
    {
        let ghost prefix = reviews@.subrange(0, i as int);
        proof {
            crate::store::lemma_filter_push(prefix, reviews@[i as int], pred);
            assert(prefix.push(reviews@[i as int]) =~= reviews@.subrange(0, i + 1 as int));
            if pred(reviews@[i as int]) {
                assert(prefix.filter(pred).push(reviews@[i as int]).drop_last() =~= prefix.filter(
                    pred,
                ));
            }
        }
        let row = &reviews[i];
        let tt_match = match (row.target_type, tt) {
            (TargetType::Provider, TargetType::Provider) => true,
            (TargetType::Business, TargetType::Business) => true,
            _ => false,
        };
        if tt_match && row.target_id == tid {
            sum = sum + row.rating as i128;
            count = count + 1;
        }
    }
    proof {
        assert(reviews@.subrange(0, reviews@.len() as int) =~= reviews@);
    }
    (sum, count)
}

/// The quotient of a non-negative tally's rounding formula is bounded by
/// the ratings' own i32 range.
proof fn lemma_rounding_bounds(sum: int, count: int)
    requires
        count >= 1,
        0 <= sum <= 0x80000000 * count,
    ensures
        0 <= (200 * sum + count) / (2 * count) <= 0x6400000001,
{
    lemma_mul_inequality(sum, 0x80000000 * count, 200);
    assert(200 * (0x80000000 * count) == 0x6400000000 * count) by (nonlinear_arith);
    assert(0x6400000000 * count + count <= 0x6400000001 * (2 * count)) by (nonlinear_arith)
        requires
            count >= 1,
    ;
    lemma_div_is_ordered(200 * sum + count, 0x6400000001 * (2 * count), 2 * count);
    lemma_div_by_multiple(0x6400000001, 2 * count);
    lemma_div_pos_is_pos(200 * sum + count, 2 * count);
    assert(200 * sum == sum * 200) by (nonlinear_arith);
}

/// Rounded average of a tally, in hundredths, half away from zero; the
/// tally of any i32 ratings is admitted.
fn rounded_average(sum: i128, count: usize) -> (r: i64)
    requires
        count >= 1,
        -0x80000000 * (count as int) <= sum <= 0x80000000 * (count as int),
    ensures
        r == avg_hundredths(sum as int, count as int),
{
    let c: i128 = count as i128;
    if sum >= 0 {
        proof {
            lemma_rounding_bounds(sum as int, count as int);
        }
        let q: i128 = (200 * sum + c) / (2 * c);
        q as i64
    } else {
        let t: i128 = -sum;
        proof {
            lemma_rounding_bounds(t as int, count as int);
        }
        let q: i128 = (200 * t + c) / (2 * c);
        (-q) as i64
    }
}

/// A target's aggregate: the review count, and the average rating in
/// hundredths, zero-valued when the target has no reviews.
pub fn get_review_agg_by_id(store: &Store, params: &ReviewQuery) -> (r: Result<
    AggregatedRating,
    ApiError,
>)
    requires
        store.wf(),
    ensures
        match target_type_of(params.target_type@) {
            None => r == Err::<AggregatedRating, ApiError>(ApiError::Validation),
            Some(tt) => {
                if params.target_id <= 0 {
                    r == Err::<AggregatedRating, ApiError>(ApiError::Validation)
                } else {
                    let picked = target_reviews(store.reviews@, tt, params.target_id);
                    match r {
                        Ok(a) => {
                            &&& a.target_id == params.target_id
                            &&& a.review_count == picked.len()
                            &&& picked.len() == 0 ==> a.average_rating == 0
                            &&& picked.len() > 0 ==> a.average_rating == avg_hundredths(
                                rating_sum(picked),
                                picked.len() as int,
                            )
                        },
                        Err(e) => false,
                    }
                }
            },
        },
{
    let tt = match parse_target_type(params.target_type.as_str()) {
        Some(tt) => tt,
        None => {
            return Err(ApiError::Validation);
        },
    };
    if params.target_id <= 0 {
        return Err(ApiError::Validation);
    }
    Ok(aggregate_target(store, tt, params.target_id))
}

/// Builds one target's aggregate from its reviews.
fn aggregate_target(store: &Store, tt: TargetType, tid: i32) -> (a: AggregatedRating)
    requires
        store.wf(),
    ensures
        agg_matches(store.reviews@, tt, a),
        a.target_id == tid,
{
    let (sum, count) = tally_target(&store.reviews, tt, tid);
    if count == 0 {
        AggregatedRating { target_id: tid, average_rating: 0, review_count: 0 }
    } else {
        let avg = rounded_average(sum, count);
        AggregatedRating { target_id: tid, average_rating: avg, review_count: count as u64 }
    }
}

/// The aggregate row is the correct tally of its target's reviews.
pub open spec fn agg_matches(reviews: Seq<ReviewRow>, tt: TargetType, a: AggregatedRating) -> bool {
    let picked = target_reviews(reviews, tt, a.target_id);
    &&& a.review_count == picked.len()
    &&& picked.len() == 0 ==> a.average_rating == 0
    &&& picked.len() > 0 ==> a.average_rating == avg_hundredths(
        rating_sum(picked),
        picked.len() as int,
    )
}

/// Ranking order: higher average first, ties broken by review count.
pub open spec fn rank_sorted(s: Seq<AggregatedRating>) -> bool {
    forall|i: int, j: int| #![trigger s[i], s[j]]
        0 <= i < j < s.len() ==> (s[i].average_rating > s[j].average_rating || (s[i].average_rating
            == s[j].average_rating && s[i].review_count >= s[j].review_count))
}

/// The ranking has an entry for this target.
pub open spec fn has_entry(s: Seq<AggregatedRating>, tid: i32) -> bool {
    exists|i: int| 0 <= i < s.len() && (#[trigger] s[i]).target_id == tid
}

/// Sorts aggregates by rank order, highest first.
fn sort_aggs(input: Vec<AggregatedRating>) -> (r: Vec<AggregatedRating>)
    ensures
        r@.to_multiset() == input@.to_multiset(),
        rank_sorted(r@),
{
    broadcast use vstd::seq_lib::group_seq_properties;

    let mut rest = input;
    let mut out: Vec<AggregatedRating> = Vec::new();
    let ghost all = rest@.to_multiset();
    proof {
        rest@.to_multiset_ensures();
        assert(out@.to_multiset().add(rest@.to_multiset()) =~= all);
    }
    while rest.len() > 0
        invariant
            out@.to_multiset().add(rest@.to_multiset()) == all,
            rank_sorted(out@),
            forall|i: int, k: int| #![trigger out@[i], rest@[k]]
                0 <= i < out@.len() && 0 <= k < rest@.len() ==> (out@[i].average_rating
                    > rest@[k].average_rating || (out@[i].average_rating == rest@[k].average_rating
                    && out@[i].review_count >= rest@[k].review_count)),
        decreases rest@.len(),
    {
        let mut best: usize = 0;
        let n = rest.len();
        for c in 1..n
            invariant
                n == rest@.len(),
                0 <= best < n,
                forall|j: int|
                    0 <= j < c ==> (rest@[best as int].average_rating > (#[trigger] rest@[j]).average_rating
                        || (rest@[best as int].average_rating == rest@[j].average_rating
                        && rest@[best as int].review_count >= rest@[j].review_count)),
        {
            if rest[c].average_rating > rest[best].average_rating || (rest[c].average_rating
                == rest[best].average_rating && rest[c].review_count > rest[best].review_count) {
                best = c;
            }
        }
        let ghost pre_rest = rest@;
        let ghost pre_out = out@;
        let row = rest.remove(best);
        out.push(row);
        proof {
            pre_rest.to_multiset_ensures();
            pre_out.to_multiset_ensures();
            assert(rest@.to_multiset() =~= pre_rest.to_multiset().remove(row));
            assert(out@ =~= pre_out.push(row));
            assert(out@.to_multiset() =~= pre_out.to_multiset().insert(row));
            assert(out@.to_multiset().add(rest@.to_multiset()) =~= all);
        }
    }
    out
}

/// All targets of one type that have reviews, each with its aggregate,
/// ordered by average rating and then review count, highest first.
fn rank_targets(store: &Store, tt: TargetType) -> (r: Vec<AggregatedRating>)
    requires
        store.wf(),
    ensures
        rank_sorted(r@),
        forall|i: int| 0 <= i < r@.len() ==> agg_matches(store.reviews@, tt, #[trigger] r@[i]),
        forall|i: int| 0 <= i < r@.len() ==> (#[trigger] r@[i]).review_count > 0,
        forall|i: int, j: int| #![trigger r@[i], r@[j]]
            0 <= i < j < r@.len() ==> r@[i].target_id != r@[j].target_id,
        forall|k: int|
            0 <= k < store.reviews@.len() && (#[trigger] store.reviews@[k]).target_type == tt
                ==> has_entry(r@, store.reviews@[k].target_id),
{
    let mut aggs: Vec<AggregatedRating> = Vec::new();
    let n = store.reviews.len();
    for k in 0..n
        invariant
            n == store.reviews@.len(),
            forall|i: int| 0 <= i < aggs@.len() ==> agg_matches(store.reviews@, tt, #[trigger] aggs@[i]),
            forall|i: int| 0 <= i < aggs@.len() ==> (#[trigger] aggs@[i]).review_count > 0,
            forall|i: int, j: int| #![trigger aggs@[i], aggs@[j]]
                0 <= i < j < aggs@.len() ==> aggs@[i].target_id != aggs@[j].target_id,
            forall|j: int|
                0 <= j < k && (#[trigger] store.reviews@[j]).target_type == tt ==> has_entry(
                    aggs@,
                    store.reviews@[j].target_id,
                ),
    {
        let row_tt = store.reviews[k].target_type;
        let tt_match = match (row_tt, tt) {
            (TargetType::Provider, TargetType::Provider) => true,
            (TargetType::Business, TargetType::Business) => true,
            _ => false,
        };
        if tt_match {
            let tid = store.reviews[k].target_id;
            let mut present = false;
            let m = aggs.len();
            for i in 0..m
                invariant
                    m == aggs@.len(),
                    present ==> has_entry(aggs@, tid),
                    !present ==> forall|j: int|
                        0 <= j < i ==> (#[trigger] aggs@[j]).target_id != tid,
            {
                if aggs[i].target_id == tid {
                    assert(aggs@[i as int].target_id == tid);
                    present = true;
                }
            }
            if !present {
                let a = aggregate_target(store, tt, tid);
                proof {
                    let picked = target_reviews(store.reviews@, tt, tid);
                    assert(store.reviews@[k as int].target_type == tt
                        && store.reviews@[k as int].target_id == tid);
                    store.reviews@.lemma_filter_contains(
                        |r: ReviewRow| r.target_type == tt && r.target_id == tid,
                        k as int,
                    );
                    assert(picked.contains(store.reviews@[k as int]));
                    assert(picked.len() > 0);
                }
                let ghost pre_aggs = aggs@;
                aggs.push(a);
                proof {
                    assert(aggs@[aggs@.len() - 1] == a);
                    assert forall|j0: int|
                        0 <= j0 < k + 1 && (#[trigger] store.reviews@[j0]).target_type == tt
                            implies has_entry(aggs@, store.reviews@[j0].target_id) by {
                        if j0 < k {
                            let w = choose|w: int|
                                0 <= w < pre_aggs.len() && (#[trigger] pre_aggs[w]).target_id
                                    == store.reviews@[j0].target_id;
                            assert(aggs@[w] == pre_aggs[w]);
                        } else {
                            assert(aggs@[aggs@.len() - 1].target_id == tid);
                        }
                    }
                }
            } else {
                proof {
                    assert(store.reviews@[k as int].target_id == tid);
                }
            }
        }
    }
    let ghost pre = aggs@;
    let out = sort_aggs(aggs);
    proof {
        pre.to_multiset_ensures();
        out@.to_multiset_ensures();
        assert forall|i: int| 0 <= i < out@.len() implies agg_matches(
            store.reviews@,
            tt,
            #[trigger] out@[i],
        ) && out@[i].review_count > 0 by {
            assert(out@.to_multiset().count(out@[i]) > 0);
            assert(pre.to_multiset().count(out@[i]) > 0);
            assert(pre.contains(out@[i]));
            let a = choose|a: int| 0 <= a < pre.len() && pre[a] == out@[i];
        }
        assert forall|i: int, j: int| #![trigger out@[i], out@[j]] 0 <= i < j < out@.len() implies
            out@[i].target_id != out@[j].target_id by {
            assert(forall|a: int, b: int| #![trigger pre[a], pre[b]]
                0 <= a < b < pre.len() ==> pre[a] != pre[b]);
            assert(pre.no_duplicates());
            pre.lemma_multiset_has_no_duplicates();
            assert(forall|x: AggregatedRating|
                out@.to_multiset().contains(x) ==> #[trigger] out@.to_multiset().count(x) == 1);
            out@.lemma_multiset_has_no_duplicates_conv();
            if out@[i].target_id == out@[j].target_id {
                assert(out@[i] != out@[j]);
                assert(out@.to_multiset().count(out@[i]) > 0);
                assert(pre.contains(out@[i]));
                assert(out@.to_multiset().count(out@[j]) > 0);
                assert(pre.contains(out@[j]));
                let a = choose|a: int| 0 <= a < pre.len() && pre[a] == out@[i];
                let b = choose|b: int| 0 <= b < pre.len() && pre[b] == out@[j];
                assert(a != b);
                assert(false);
            }
        }
        assert forall|k: int|
            0 <= k < store.reviews@.len() && (#[trigger] store.reviews@[k]).target_type == tt
                implies has_entry(out@, store.reviews@[k].target_id) by {
            let tid = store.reviews@[k].target_id;
            assert(has_entry(pre, tid));
            let a = choose|a: int| 0 <= a < pre.len() && (#[trigger] pre[a]).target_id == tid;
            assert(pre.to_multiset().count(pre[a]) > 0);
            assert(out@.to_multiset().count(pre[a]) > 0);
            assert(out@.contains(pre[a]));
            let b = choose|b: int| 0 <= b < out@.len() && out@[b] == pre[a];
            assert(out@[b].target_id == tid);
        }
    }
    out
}

/// Providers ranked by average rating, then review count, highest first.
pub fn rank_providers(store: &Store) -> (r: Vec<AggregatedRating>)
    requires
        store.wf(),
    ensures
        rank_sorted(r@),
        forall|i: int|
            0 <= i < r@.len() ==> agg_matches(store.reviews@, TargetType::Provider, #[trigger] r@[i])
                && r@[i].review_count > 0,
        forall|i: int, j: int| #![trigger r@[i], r@[j]]
            0 <= i < j < r@.len() ==> r@[i].target_id != r@[j].target_id,
        forall|k: int|
            0 <= k < store.reviews@.len() && (#[trigger] store.reviews@[k]).target_type
                == TargetType::Provider ==> has_entry(r@, store.reviews@[k].target_id),
{
    rank_targets(store, TargetType::Provider)
}

/// Businesses ranked by average rating, then review count, highest first.
pub fn rank_businesses(store: &Store) -> (r: Vec<AggregatedRating>)
    requires
        store.wf(),
    ensures
        rank_sorted(r@),
        forall|i: int|
            0 <= i < r@.len() ==> agg_matches(store.reviews@, TargetType::Business, #[trigger] r@[i])
                && r@[i].review_count > 0,
        forall|i: int, j: int| #![trigger r@[i], r@[j]]
            0 <= i < j < r@.len() ==> r@[i].target_id != r@[j].target_id,
        forall|k: int|
            0 <= k < store.reviews@.len() && (#[trigger] store.reviews@[k]).target_type
                == TargetType::Business ==> has_entry(r@, store.reviews@[k].target_id),
{
    rank_targets(store, TargetType::Business)
}

} // verus!
