//! The relational store, modelled in memory.
//!
//! Every entity of the service lives in one of the tables below. The store's
//! well-formedness predicate [`Store::wf`] captures the schema's invariants:
//! surrogate ids are positive, below the allocation counter and unique per
//! table, usernames and emails are unique, a profile row exists at most once
//! per user, a booking slot is taken at most once, no user rates the same
//! target twice, and favorites are a set.

use vstd::prelude::*;

verus! {

/// The role a user picks at registration; immutable afterwards.
#[derive(Clone, Copy, Debug, PartialEq, Eq, Structural)]
pub enum Role {
    Client,
    Provider,
    Business,
}

/// A polymorphic reference to either a provider or a business row.
#[derive(Clone, Copy, Debug, PartialEq, Eq, Structural)]
pub enum TargetType {
    Provider,
    Business,
}

/// The life cycle of a booking.
#[derive(Clone, Copy, Debug, PartialEq, Eq, Structural)]
pub enum BookingStatus {
    Pending,
    Confirmed,
    Rejected,
    Completed,
    Cancelled,
}

pub struct UserRow {
    pub id: i32,
    pub username: String,
    pub email: String,
    /// The password digest, never the password itself.
    pub password: String,
    pub role: Role,
}

pub struct ClientRow {
    pub id: i32,
    pub user_id: i32,
    pub profile_picture: Option<String>,
}

pub struct ProviderRow {
    pub id: i32,
    pub user_id: i32,
    pub service_name: Option<String>,
    pub service_description: Option<String>,
    pub category: Option<String>,
    pub location: Option<String>,
    pub phone_number: Option<String>,
    pub email: Option<String>,
    pub website: Option<String>,
    pub whatsapp: Option<String>,
    pub profile_photo: Option<String>,
    pub cover_photo: Option<String>,
}

pub struct BusinessRow {
    pub id: i32,
    pub user_id: i32,
    pub business_name: Option<String>,
    pub description: Option<String>,
    pub category: Option<String>,
    pub location: Option<String>,
    pub license_number: Option<String>,
    pub krapin: Option<String>,
    pub phone_number: Option<String>,
    pub email: Option<String>,
    pub website: Option<String>,
    pub whatsapp: Option<String>,
    pub logo: Option<String>,
    pub profile_photo: Option<String>,
    pub cover_photo: Option<String>,
}

/// The administrator flag of a user; rows are keyed by the user's id.
#[derive(Clone, Copy, Debug, PartialEq, Eq, Structural)]
pub struct AdminRow {
    pub id: i32,
    pub is_super_admin: bool,
}

pub struct ResetRow {
    pub user_id: i32,
    pub token: String,
    pub expires_at: i64,
}

pub struct CategoryRow {
    pub id: i32,
    pub name: String,
    pub parent_id: Option<i32>,
}

pub struct ServiceRow {
    pub id: i32,
    pub target_type: TargetType,
    pub target_id: i32,
    pub title: String,
    pub description: String,
    /// An exact decimal amount, held in hundredths of the currency unit.
    pub price_cents: i64,
    pub duration: i32,
    pub category_id: Option<i32>,
    pub is_active: bool,
    pub created_at: i64,
}

pub struct BookingRow {
    pub id: i32,
    pub client_id: i32,
    pub target_type: TargetType,
    pub target_id: i32,
    pub branch_id: Option<i32>,
    pub service_id: Option<i32>,
    pub service_description: String,
    pub scheduled_time: i64,
    pub duration: i32,
    pub status: BookingStatus,
    pub created_at: i64,
    pub updated_at: i64,
}

pub struct MessageRow {
    pub id: i32,
    pub sender_id: i32,
    pub receiver_id: i32,
    pub target_type: TargetType,
    pub target_id: i32,
    pub content: String,
    pub created_at: i64,
    pub is_read: bool,
    pub read_at: Option<i64>,
}

pub struct InteractionRow {
    pub id: i32,
    pub user_id: i32,
    pub target_type: TargetType,
    pub target_id: i32,
    pub interaction_type: String,
    pub created_at: i64,
}

#[derive(Clone, Copy, Debug, PartialEq, Eq, Structural)]
pub struct FavoriteRow {
    pub user_id: i32,
    pub target_type: TargetType,
    pub target_id: i32,
    pub created_at: i64,
}

pub struct ReviewRow {
    pub id: i32,
    pub reviewer_id: i32,
    pub target_type: TargetType,
    pub target_id: i32,
    pub rating: i32,
    pub comment: String,
    pub created_at: i64,
}

pub struct AvailabilityRow {
    pub id: i32,
    pub provider_id: i32,
    pub day: String,
    pub start_time: String,
    pub end_time: String,
    pub is_available: bool,
}

pub struct PostRow {
    pub id: i32,
    pub title: String,
    pub content: String,
    pub business_id: Option<i32>,
    pub provider_id: Option<i32>,
    pub created_at: i64,
    pub updated_at: i64,
}

pub struct AttachmentRow {
    pub id: i32,
    pub file_name: String,
    pub file_path: String,
    pub file_type: String,
    pub target_type: String,
    pub target_id: i32,
    pub post_id: Option<i32>,
    pub uploaded_by: i32,
    pub created_at: i64,
}

pub struct CountyRow {
    pub id: i32,
    pub name: String,
}

pub struct ConstituencyRow {
    pub id: i32,
    pub county_id: i32,
    pub name: String,
}

pub struct WardRow {
    pub id: i32,
    pub constituency_id: i32,
    pub name: String,
}

#[derive(Clone, Copy, Debug, PartialEq, Eq, Structural)]
pub struct ProviderCategoryRow {
    pub provider_id: i32,
    pub category_id: i32,
}

#[derive(Clone, Copy, Debug, PartialEq, Eq, Structural)]
pub struct BusinessCategoryRow {
    pub business_id: i32,
    pub category_id: i32,
}

pub struct BranchLocationRow {
    pub id: i32,
    pub business_id: i32,
    pub name: String,
    /// Degrees of latitude, in millionths.
    pub latitude_micro: i64,
    /// Degrees of longitude, in millionths.
    pub longitude_micro: i64,
    pub ward_id: i32,
    pub phone: String,
    pub address: String,
    pub created_by: i32,
    pub created_at: i64,
    pub updated_at: i64,
}

pub struct ProviderLocationRow {
    pub id: i32,
    pub provider_id: i32,
    pub latitude_micro: i64,
    pub longitude_micro: i64,
    pub ward_id: i32,
    pub phone: String,
    pub address: String,
    pub created_by: i32,
    pub created_at: i64,
    pub updated_at: i64,
}

/// All tables of the service, plus the surrogate-id allocator.
pub struct Store {
    /// The next id to hand out; every id in every table is below it.
    pub next_id: i32,
    pub users: Vec<UserRow>,
    pub clients: Vec<ClientRow>,
    pub providers: Vec<ProviderRow>,
    pub businesses: Vec<BusinessRow>,
    pub admins: Vec<AdminRow>,
    pub password_resets: Vec<ResetRow>,
    pub categories: Vec<CategoryRow>,
    pub services: Vec<ServiceRow>,
    pub bookings: Vec<BookingRow>,
    pub messages: Vec<MessageRow>,
    pub interactions: Vec<InteractionRow>,
    pub favorites: Vec<FavoriteRow>,
    pub reviews: Vec<ReviewRow>,
    pub availability: Vec<AvailabilityRow>,
    pub posts: Vec<PostRow>,
    pub attachments: Vec<AttachmentRow>,
    pub counties: Vec<CountyRow>,
    pub constituencies: Vec<ConstituencyRow>,
    pub wards: Vec<WardRow>,
    pub provider_categories: Vec<ProviderCategoryRow>,
    pub business_categories: Vec<BusinessCategoryRow>,
    pub branch_locations: Vec<BranchLocationRow>,
    pub provider_locations: Vec<ProviderLocationRow>,
}

// ---------------------------------------------------------------------------
// Per-table invariants
// ---------------------------------------------------------------------------

pub open spec fn user_ids_ok(s: Seq<UserRow>, n: i32) -> bool {
    &&& forall|i: int| 0 <= i < s.len() ==> 1 <= (#[trigger] s[i]).id < n
    &&& forall|i: int, j: int| #![trigger s[i], s[j]] 0 <= i < j < s.len() ==> s[i].id != s[j].id
}

/// No two users share a username, and no two share an email.
pub open spec fn users_unique(s: Seq<UserRow>) -> bool {
    forall|i: int, j: int| #![trigger s[i], s[j]]
        0 <= i < j < s.len() ==> s[i].username@ != s[j].username@ && s[i].email@ != s[j].email@
}

pub open spec fn client_ids_ok(s: Seq<ClientRow>, n: i32) -> bool {
    &&& forall|i: int| 0 <= i < s.len() ==> 1 <= (#[trigger] s[i]).id < n && 1 <= s[i].user_id < n
    &&& forall|i: int, j: int| #![trigger s[i], s[j]]
        0 <= i < j < s.len() ==> s[i].id != s[j].id && s[i].user_id != s[j].user_id
}

pub open spec fn provider_ids_ok(s: Seq<ProviderRow>, n: i32) -> bool {
    &&& forall|i: int| 0 <= i < s.len() ==> 1 <= (#[trigger] s[i]).id < n && 1 <= s[i].user_id < n
    &&& forall|i: int, j: int| #![trigger s[i], s[j]]
        0 <= i < j < s.len() ==> s[i].id != s[j].id && s[i].user_id != s[j].user_id
}

pub open spec fn business_ids_ok(s: Seq<BusinessRow>, n: i32) -> bool {
    &&& forall|i: int| 0 <= i < s.len() ==> 1 <= (#[trigger] s[i]).id < n && 1 <= s[i].user_id < n
    &&& forall|i: int, j: int| #![trigger s[i], s[j]]
        0 <= i < j < s.len() ==> s[i].id != s[j].id && s[i].user_id != s[j].user_id
}

pub open spec fn admin_ids_ok(s: Seq<AdminRow>) -> bool {
    forall|i: int, j: int| #![trigger s[i], s[j]] 0 <= i < j < s.len() ==> s[i].id != s[j].id
}

pub open spec fn category_ids_ok(s: Seq<CategoryRow>, n: i32) -> bool {
    &&& forall|i: int| 0 <= i < s.len() ==> 1 <= (#[trigger] s[i]).id < n
    &&& forall|i: int, j: int| #![trigger s[i], s[j]] 0 <= i < j < s.len() ==> s[i].id != s[j].id
}

pub open spec fn service_ids_ok(s: Seq<ServiceRow>, n: i32) -> bool {
    &&& forall|i: int| 0 <= i < s.len() ==> 1 <= (#[trigger] s[i]).id < n
    &&& forall|i: int, j: int| #![trigger s[i], s[j]] 0 <= i < j < s.len() ==> s[i].id != s[j].id
}

pub open spec fn booking_ids_ok(s: Seq<BookingRow>, n: i32) -> bool {
    &&& forall|i: int| 0 <= i < s.len() ==> 1 <= (#[trigger] s[i]).id < n
    &&& forall|i: int, j: int| #![trigger s[i], s[j]] 0 <= i < j < s.len() ==> s[i].id != s[j].id
}

/// Slot exclusivity: no two bookings share a target and an exact start time.
pub open spec fn booking_slots_ok(s: Seq<BookingRow>) -> bool {
    forall|i: int, j: int| #![trigger s[i], s[j]]
        0 <= i < j < s.len() ==> !(s[i].target_type == s[j].target_type && s[i].target_id
            == s[j].target_id && s[i].scheduled_time == s[j].scheduled_time)
}

pub open spec fn message_ids_ok(s: Seq<MessageRow>, n: i32) -> bool {
    &&& forall|i: int| 0 <= i < s.len() ==> 1 <= (#[trigger] s[i]).id < n
    &&& forall|i: int, j: int| #![trigger s[i], s[j]] 0 <= i < j < s.len() ==> s[i].id != s[j].id
}

pub open spec fn interaction_ids_ok(s: Seq<InteractionRow>, n: i32) -> bool {
    &&& forall|i: int| 0 <= i < s.len() ==> 1 <= (#[trigger] s[i]).id < n
    &&& forall|i: int, j: int| #![trigger s[i], s[j]] 0 <= i < j < s.len() ==> s[i].id != s[j].id
}

/// Favorites form a set over `(user_id, target_type, target_id)`.
pub open spec fn favorites_unique(s: Seq<FavoriteRow>) -> bool {
    forall|i: int, j: int| #![trigger s[i], s[j]]
        0 <= i < j < s.len() ==> !(s[i].user_id == s[j].user_id && s[i].target_type
            == s[j].target_type && s[i].target_id == s[j].target_id)
}

pub open spec fn review_ids_ok(s: Seq<ReviewRow>, n: i32) -> bool {
    &&& forall|i: int| 0 <= i < s.len() ==> 1 <= (#[trigger] s[i]).id < n
    &&& forall|i: int, j: int| #![trigger s[i], s[j]] 0 <= i < j < s.len() ==> s[i].id != s[j].id
}

/// At most one review per `(reviewer_id, target_type, target_id)`.
pub open spec fn reviews_unique(s: Seq<ReviewRow>) -> bool {
    forall|i: int, j: int| #![trigger s[i], s[j]]
        0 <= i < j < s.len() ==> !(s[i].reviewer_id == s[j].reviewer_id && s[i].target_type
            == s[j].target_type && s[i].target_id == s[j].target_id)
}

pub open spec fn availability_ids_ok(s: Seq<AvailabilityRow>, n: i32) -> bool {
    &&& forall|i: int| 0 <= i < s.len() ==> 1 <= (#[trigger] s[i]).id < n
    &&& forall|i: int, j: int| #![trigger s[i], s[j]] 0 <= i < j < s.len() ==> s[i].id != s[j].id
}

/// One availability row per `(provider_id, day)`.
pub open spec fn availability_unique(s: Seq<AvailabilityRow>) -> bool {
    forall|i: int, j: int| #![trigger s[i], s[j]]
        0 <= i < j < s.len() ==> !(s[i].provider_id == s[j].provider_id && s[i].day@ == s[j].day@)
}

pub open spec fn post_ids_ok(s: Seq<PostRow>, n: i32) -> bool {
    &&& forall|i: int| 0 <= i < s.len() ==> 1 <= (#[trigger] s[i]).id < n
    &&& forall|i: int, j: int| #![trigger s[i], s[j]] 0 <= i < j < s.len() ==> s[i].id != s[j].id
}

pub open spec fn attachment_ids_ok(s: Seq<AttachmentRow>, n: i32) -> bool {
    &&& forall|i: int| 0 <= i < s.len() ==> 1 <= (#[trigger] s[i]).id < n
    &&& forall|i: int, j: int| #![trigger s[i], s[j]] 0 <= i < j < s.len() ==> s[i].id != s[j].id
}

pub open spec fn county_ids_ok(s: Seq<CountyRow>, n: i32) -> bool {
    &&& forall|i: int| 0 <= i < s.len() ==> 1 <= (#[trigger] s[i]).id < n
    &&& forall|i: int, j: int| #![trigger s[i], s[j]] 0 <= i < j < s.len() ==> s[i].id != s[j].id
}

pub open spec fn constituency_ids_ok(s: Seq<ConstituencyRow>, n: i32) -> bool {
    &&& forall|i: int| 0 <= i < s.len() ==> 1 <= (#[trigger] s[i]).id < n
    &&& forall|i: int, j: int| #![trigger s[i], s[j]] 0 <= i < j < s.len() ==> s[i].id != s[j].id
}

pub open spec fn ward_ids_ok(s: Seq<WardRow>, n: i32) -> bool {
    &&& forall|i: int| 0 <= i < s.len() ==> 1 <= (#[trigger] s[i]).id < n
    &&& forall|i: int, j: int| #![trigger s[i], s[j]] 0 <= i < j < s.len() ==> s[i].id != s[j].id
}

pub open spec fn branch_location_ids_ok(s: Seq<BranchLocationRow>, n: i32) -> bool {
    &&& forall|i: int| 0 <= i < s.len() ==> 1 <= (#[trigger] s[i]).id < n
    &&& forall|i: int, j: int| #![trigger s[i], s[j]] 0 <= i < j < s.len() ==> s[i].id != s[j].id
}

pub open spec fn provider_location_ids_ok(s: Seq<ProviderLocationRow>, n: i32) -> bool {
    &&& forall|i: int| 0 <= i < s.len() ==> 1 <= (#[trigger] s[i]).id < n
    &&& forall|i: int, j: int| #![trigger s[i], s[j]] 0 <= i < j < s.len() ==> s[i].id != s[j].id
}

// ---------------------------------------------------------------------------
// Shared existence predicates
// ---------------------------------------------------------------------------

/// A provider row with this id exists.
pub open spec fn provider_exists(s: Seq<ProviderRow>, id: i32) -> bool {
    exists|i: int| 0 <= i < s.len() && (#[trigger] s[i]).id == id
}

/// A business row with this id exists.
pub open spec fn business_exists(s: Seq<BusinessRow>, id: i32) -> bool {
    exists|i: int| 0 <= i < s.len() && (#[trigger] s[i]).id == id
}

/// A user row with this id exists.
pub open spec fn user_exists(s: Seq<UserRow>, id: i32) -> bool {
    exists|i: int| 0 <= i < s.len() && (#[trigger] s[i]).id == id
}

impl Store {
    /// The referenced provider or business row exists.
    pub open spec fn target_exists(self, target_type: TargetType, target_id: i32) -> bool {
        match target_type {
            TargetType::Provider => provider_exists(self.providers@, target_id),
            TargetType::Business => business_exists(self.businesses@, target_id),
        }
    }

    /// The caller owns the referenced target: the provider or business row
    /// with id `target_id` carries the caller's `user_id`.
    pub open spec fn owns_target(self, user_id: i32, target_type: TargetType, target_id: i32) -> bool {
        match target_type {
            TargetType::Provider => exists|i: int|
                0 <= i < self.providers@.len() && (#[trigger] self.providers@[i]).id == target_id
                    && self.providers@[i].user_id == user_id,
            TargetType::Business => exists|i: int|
                0 <= i < self.businesses@.len() && (#[trigger] self.businesses@[i]).id == target_id
                    && self.businesses@[i].user_id == user_id,
        }
    }

    /// The store's schema invariants.
    pub open spec fn wf(self) -> bool {
        &&& 1 <= self.next_id
        &&& user_ids_ok(self.users@, self.next_id)
        &&& users_unique(self.users@)
        &&& client_ids_ok(self.clients@, self.next_id)
        &&& provider_ids_ok(self.providers@, self.next_id)
        &&& business_ids_ok(self.businesses@, self.next_id)
        &&& admin_ids_ok(self.admins@)
        &&& category_ids_ok(self.categories@, self.next_id)
        &&& service_ids_ok(self.services@, self.next_id)
        &&& booking_ids_ok(self.bookings@, self.next_id)
        &&& booking_slots_ok(self.bookings@)
        &&& message_ids_ok(self.messages@, self.next_id)
        &&& interaction_ids_ok(self.interactions@, self.next_id)
        &&& favorites_unique(self.favorites@)
        &&& review_ids_ok(self.reviews@, self.next_id)
        &&& reviews_unique(self.reviews@)
        &&& availability_ids_ok(self.availability@, self.next_id)
        &&& availability_unique(self.availability@)
        &&& post_ids_ok(self.posts@, self.next_id)
        &&& attachment_ids_ok(self.attachments@, self.next_id)
        &&& county_ids_ok(self.counties@, self.next_id)
        &&& constituency_ids_ok(self.constituencies@, self.next_id)
        &&& ward_ids_ok(self.wards@, self.next_id)
        &&& branch_location_ids_ok(self.branch_locations@, self.next_id)
        &&& provider_location_ids_ok(self.provider_locations@, self.next_id)
    }

    /// An empty store: no rows, ids start at 1.
    pub fn new() -> (s: Store)
        ensures
            s.wf(),
            s.next_id == 1,
            s.users@.len() == 0,
            s.clients@.len() == 0,
            s.providers@.len() == 0,
            s.businesses@.len() == 0,
            s.admins@.len() == 0,
            s.password_resets@.len() == 0,
            s.categories@.len() == 0,
            s.services@.len() == 0,
            s.bookings@.len() == 0,
            s.messages@.len() == 0,
            s.interactions@.len() == 0,
            s.favorites@.len() == 0,
            s.reviews@.len() == 0,
            s.availability@.len() == 0,
            s.posts@.len() == 0,
            s.attachments@.len() == 0,
            s.counties@.len() == 0,
            s.constituencies@.len() == 0,
            s.wards@.len() == 0,
            s.provider_categories@.len() == 0,
            s.business_categories@.len() == 0,
            s.branch_locations@.len() == 0,
            s.provider_locations@.len() == 0,
    {
        Store {
            next_id: 1,
            users: Vec::new(),
            clients: Vec::new(),
            providers: Vec::new(),
            businesses: Vec::new(),
            admins: Vec::new(),
            password_resets: Vec::new(),
            categories: Vec::new(),
            services: Vec::new(),
            bookings: Vec::new(),
            messages: Vec::new(),
            interactions: Vec::new(),
            favorites: Vec::new(),
            reviews: Vec::new(),
            availability: Vec::new(),
            posts: Vec::new(),
            attachments: Vec::new(),
            counties: Vec::new(),
            constituencies: Vec::new(),
            wards: Vec::new(),
            provider_categories: Vec::new(),
            business_categories: Vec::new(),
            branch_locations: Vec::new(),
            provider_locations: Vec::new(),
        }
    }
}

// ---------------------------------------------------------------------------
// Shared lookups
// ---------------------------------------------------------------------------

/// Index of the provider row with the given id, scanning from the front.
pub fn provider_index_by_id(providers: &Vec<ProviderRow>, id: i32) -> (r: Option<usize>)
    ensures
        match r {
            Some(i) => 0 <= i < providers@.len() && providers@[i as int].id == id,
            None => !provider_exists(providers@, id),
        },
{
    let n = providers.len();
    for i in 0..n
        invariant
            n == providers@.len(),
            forall|j: int| 0 <= j < i ==> (#[trigger] providers@[j]).id != id,
    {
        if providers[i].id == id {
            return Some(i);
        }
    }
    None
}

/// Index of the provider row owned by the given user.
pub fn provider_index_by_user(providers: &Vec<ProviderRow>, user_id: i32) -> (r: Option<usize>)
    ensures
        match r {
            Some(i) => 0 <= i < providers@.len() && providers@[i as int].user_id == user_id,
            None => forall|j: int|
                0 <= j < providers@.len() ==> (#[trigger] providers@[j]).user_id != user_id,
        },
{
    let n = providers.len();
    for i in 0..n
        invariant
            n == providers@.len(),
            forall|j: int| 0 <= j < i ==> (#[trigger] providers@[j]).user_id != user_id,
    {
        if providers[i].user_id == user_id {
            return Some(i);
        }
    }
    None
}

/// Index of the business row with the given id.
pub fn business_index_by_id(businesses: &Vec<BusinessRow>, id: i32) -> (r: Option<usize>)
    ensures
        match r {
            Some(i) => 0 <= i < businesses@.len() && businesses@[i as int].id == id,
            None => !business_exists(businesses@, id),
        },
{
    let n = businesses.len();
    for i in 0..n
        invariant
            n == businesses@.len(),
            forall|j: int| 0 <= j < i ==> (#[trigger] businesses@[j]).id != id,
    {
        if businesses[i].id == id {
            return Some(i);
        }
    }
    None
}

/// Index of the business row owned by the given user.
pub fn business_index_by_user(businesses: &Vec<BusinessRow>, user_id: i32) -> (r: Option<usize>)
    ensures
        match r {
            Some(i) => 0 <= i < businesses@.len() && businesses@[i as int].user_id == user_id,
            None => forall|j: int|
                0 <= j < businesses@.len() ==> (#[trigger] businesses@[j]).user_id != user_id,
        },
{
    let n = businesses.len();
    for i in 0..n
        invariant
            n == businesses@.len(),
            forall|j: int| 0 <= j < i ==> (#[trigger] businesses@[j]).user_id != user_id,
    {
        if businesses[i].user_id == user_id {
            return Some(i);
        }
    }
    None
}

/// Index of the user row with the given id.
pub fn user_index_by_id(users: &Vec<UserRow>, id: i32) -> (r: Option<usize>)
    ensures
        match r {
            Some(i) => 0 <= i < users@.len() && users@[i as int].id == id,
            None => !user_exists(users@, id),
        },
{
    let n = users.len();
    for i in 0..n
        invariant
            n == users@.len(),
            forall|j: int| 0 <= j < i ==> (#[trigger] users@[j]).id != id,
    {
        if users[i].id == id {
            return Some(i);
        }
    }
    None
}

impl Store {
    /// Whether the referenced target row exists, decided executably.
    pub fn check_target_exists(&self, target_type: TargetType, target_id: i32) -> (r: bool)
        ensures
            r == self.target_exists(target_type, target_id),
    {
        match target_type {
            TargetType::Provider => provider_index_by_id(&self.providers, target_id).is_some(),
            TargetType::Business => business_index_by_id(&self.businesses, target_id).is_some(),
        }
    }

    /// Whether the caller owns the referenced target, decided executably.
    pub fn check_owns_target(&self, user_id: i32, target_type: TargetType, target_id: i32) -> (r:
        bool)
        ensures
            r == self.owns_target(user_id, target_type, target_id),
    {
        match target_type {
            TargetType::Provider => {
                let n = self.providers.len();
                for i in 0..n
                    invariant
                        n == self.providers@.len(),
                        target_type == TargetType::Provider,
                        forall|j: int|
                            0 <= j < i ==> !((#[trigger] self.providers@[j]).id == target_id
                                && self.providers@[j].user_id == user_id),
                {
                    if self.providers[i].id == target_id && self.providers[i].user_id == user_id {
                        assert(self.providers@[i as int].id == target_id
                            && self.providers@[i as int].user_id == user_id);
                        assert(self.owns_target(user_id, target_type, target_id));
                        return true;
                    }
                }
                false
            },
            TargetType::Business => {
                let n = self.businesses.len();
                for i in 0..n
                    invariant
                        n == self.businesses@.len(),
                        target_type == TargetType::Business,
                        forall|j: int|
                            0 <= j < i ==> !((#[trigger] self.businesses@[j]).id == target_id
                                && self.businesses@[j].user_id == user_id),
                {
                    if self.businesses[i].id == target_id && self.businesses[i].user_id == user_id {
                        assert(self.businesses@[i as int].id == target_id
                            && self.businesses@[i as int].user_id == user_id);
                        assert(self.owns_target(user_id, target_type, target_id));
                        return true;
                    }
                }
                false
            },
        }
    }
}

/// Filtering after a push keeps the filtered prefix and appends the new
/// element exactly when it satisfies the predicate.
pub proof fn lemma_filter_push<A>(s: Seq<A>, e: A, pred: spec_fn(A) -> bool)
    ensures
        s.push(e).filter(pred) == if pred(e) {
            s.filter(pred).push(e)
        } else {
            s.filter(pred)
        },
{
    reveal(Seq::filter);
    assert(s.push(e).drop_last() =~= s);
    assert(s.push(e).last() == e);
}

} // verus!
