//! Input validation: string equality, email shape, and parsing of the
//! closed enumerations (roles, target types, booking statuses) from the
//! strings that request payloads carry.

use vstd::prelude::*;

use crate::store::{BookingStatus, Role, TargetType};

verus! {

/// String-slice equality by contents.
pub fn str_eq(a: &str, b: &str) -> (r: bool)
    ensures
        r == (a@ == b@),
{
    let owned_a: String = a.to_owned();
    let owned_b: String = b.to_owned();
    owned_a == owned_b
}

/// The two strings agree up to ASCII case: equal length, and at each
/// position the characters are equal or are the same letter in the two
/// ASCII cases.
pub open spec fn eq_ignore_ascii_case(a: Seq<char>, b: Seq<char>) -> bool {
    a.len() == b.len() && forall|i: int|
        0 <= i < a.len() ==> ((#[trigger] a[i]) == b[i] || ('A' <= a[i] <= 'Z' && b[i] as int
            == a[i] as int + 32) || ('A' <= b[i] <= 'Z' && a[i] as int == b[i] as int + 32))
}

/// Decides [`eq_ignore_ascii_case`].
pub fn str_eq_ignore_ascii_case(a: &str, b: &str) -> (r: bool)
    ensures
        r == eq_ignore_ascii_case(a@, b@),
{
    let n = a.unicode_len();
    let m = b.unicode_len();
    if n != m {
        return false;
    }
    for i in 0..n
        invariant
            n == a@.len(),
            n == b@.len(),
            forall|j: int|
                0 <= j < i ==> ((#[trigger] a@[j]) == b@[j] || ('A' <= a@[j] <= 'Z' && b@[j] as int
                    == a@[j] as int + 32) || ('A' <= b@[j] <= 'Z' && a@[j] as int == b@[j] as int
                    + 32)),
    {
        let ca = a.get_char(i) as u32;
        let cb = b.get_char(i) as u32;
        let pair_ok = ca == cb || (65 <= ca && ca <= 90 && cb == ca + 32) || (65 <= cb && cb <= 90
            && ca == cb + 32);
        if !pair_ok {
            assert(a@[i as int] as int == ca && b@[i as int] as int == cb);
            return false;
        }
    }
    true
}

/// A minimal email shape: a `'@'` with a non-empty local part, and a `'.'`
/// inside the domain with at least one character on each side of it.
pub open spec fn email_ok(s: Seq<char>) -> bool {
    exists|i: int, j: int| #![trigger s[i], s[j]]
        0 < i && i + 1 < j && j + 1 < s.len() && s[i] == '@' && s[j] == '.'
}

/// Decides [`email_ok`] on the characters of `s`.
pub fn is_valid_email(s: &str) -> (r: bool)
    ensures
        r == email_ok(s@),
{
    let n = s.unicode_len();
    if n < 2 {
        assert(!email_ok(s@));
        return false;
    }
    for i in 1..n
        invariant
            n == s@.len(),
            forall|ii: int, jj: int| #![trigger s@[ii], s@[jj]]
                0 < ii < i && ii + 1 < jj && jj + 1 < s@.len() ==> !(s@[ii] == '@' && s@[jj]
                    == '.'),
    {
        if s.get_char(i) == '@' {
            for j in 0..n
                invariant
                    n == s@.len(),
                    0 < i < n,
                    s@[i as int] == '@',
                    forall|jj: int| #![trigger s@[jj]]
                        i + 1 < jj < j && jj + 1 < s@.len() ==> s@[jj] != '.',
            {
                if j > i + 1 && j + 1 < n && s.get_char(j) == '.' {
                    assert(s@[i as int] == '@' && s@[j as int] == '.');
                    return true;
                }
            }
        }
    }
    false
}

/// The role names accepted at registration.
pub open spec fn role_of(s: Seq<char>) -> Option<Role> {
    if s == "client"@ {
        Some(Role::Client)
    } else if s == "provider"@ {
        Some(Role::Provider)
    } else if s == "business"@ {
        Some(Role::Business)
    } else {
        None
    }
}

/// Parses a role name; any other string is refused.
pub fn parse_role(s: &str) -> (r: Option<Role>)
    ensures
        r == role_of(s@),
{
    if str_eq(s, "client") {
        Some(Role::Client)
    } else if str_eq(s, "provider") {
        Some(Role::Provider)
    } else if str_eq(s, "business") {
        Some(Role::Business)
    } else {
        None
    }
}

/// The target-type names accepted by bookings, services, messages,
/// favorites and category assignment, in any ASCII case.
pub open spec fn target_type_of(s: Seq<char>) -> Option<TargetType> {
    if eq_ignore_ascii_case(s, "provider"@) {
        Some(TargetType::Provider)
    } else if eq_ignore_ascii_case(s, "business"@) {
        Some(TargetType::Business)
    } else {
        None
    }
}

/// Parses a target-type name, ignoring ASCII case; any other string is
/// refused.
pub fn parse_target_type(s: &str) -> (r: Option<TargetType>)
    ensures
        r == target_type_of(s@),
{
    if str_eq_ignore_ascii_case(s, "provider") {
        Some(TargetType::Provider)
    } else if str_eq_ignore_ascii_case(s, "business") {
        Some(TargetType::Business)
    } else {
        None
    }
}

/// The target-type names accepted by reviews, where `"service_provider"`
/// is an accepted alias for a provider, in any ASCII case.
pub open spec fn review_target_type_of(s: Seq<char>) -> Option<TargetType> {
    if eq_ignore_ascii_case(s, "service_provider"@) {
        Some(TargetType::Provider)
    } else {
        target_type_of(s)
    }
}

/// Parses a review target-type name, accepting the provider alias and
/// ignoring ASCII case.
pub fn parse_review_target_type(s: &str) -> (r: Option<TargetType>)
    ensures
        r == review_target_type_of(s@),
{
    if str_eq_ignore_ascii_case(s, "service_provider") {
        Some(TargetType::Provider)
    } else {
        parse_target_type(s)
    }
}

/// The status names accepted by the booking-status update endpoint, in
/// any ASCII case.
pub open spec fn status_of(s: Seq<char>) -> Option<BookingStatus> {
    if eq_ignore_ascii_case(s, "pending"@) {
        Some(BookingStatus::Pending)
    } else if eq_ignore_ascii_case(s, "confirmed"@) {
        Some(BookingStatus::Confirmed)
    } else if eq_ignore_ascii_case(s, "rejected"@) {
        Some(BookingStatus::Rejected)
    } else if eq_ignore_ascii_case(s, "completed"@) {
        Some(BookingStatus::Completed)
    } else if eq_ignore_ascii_case(s, "cancelled"@) {
        Some(BookingStatus::Cancelled)
    } else {
        None
    }
}

/// Parses a booking-status name, ignoring ASCII case; any other string
/// is refused.
pub fn parse_status(s: &str) -> (r: Option<BookingStatus>)
    ensures
        r == status_of(s@),
{
    if str_eq_ignore_ascii_case(s, "pending") {
        Some(BookingStatus::Pending)
    } else if str_eq_ignore_ascii_case(s, "confirmed") {
        Some(BookingStatus::Confirmed)
    } else if str_eq_ignore_ascii_case(s, "rejected") {
        Some(BookingStatus::Rejected)
    } else if str_eq_ignore_ascii_case(s, "completed") {
        Some(BookingStatus::Completed)
    } else if str_eq_ignore_ascii_case(s, "cancelled") {
        Some(BookingStatus::Cancelled)
    } else {
        None
    }
}

/// The display name of a target type, as the schema stores it.
pub open spec fn target_type_name_spec(t: TargetType) -> Seq<char> {
    match t {
        TargetType::Provider => "provider"@,
        TargetType::Business => "business"@,
    }
}

/// The display name of a target type.
pub fn target_type_name(t: TargetType) -> (r: String)
    ensures
        r@ == target_type_name_spec(t),
{
    match t {
        TargetType::Provider => "provider".to_owned(),
        TargetType::Business => "business".to_owned(),
    }
}

/// The display name of a booking status.
pub open spec fn status_name_spec(s: BookingStatus) -> Seq<char> {
    match s {
        BookingStatus::Pending => "pending"@,
        BookingStatus::Confirmed => "confirmed"@,
        BookingStatus::Rejected => "rejected"@,
        BookingStatus::Completed => "completed"@,
        BookingStatus::Cancelled => "cancelled"@,
    }
}

/// The display name of a booking status.
pub fn status_name(s: BookingStatus) -> (r: String)
    ensures
        r@ == status_name_spec(s),
{
    match s {
        BookingStatus::Pending => "pending".to_owned(),
        BookingStatus::Confirmed => "confirmed".to_owned(),
        BookingStatus::Rejected => "rejected".to_owned(),
        BookingStatus::Completed => "completed".to_owned(),
        BookingStatus::Cancelled => "cancelled".to_owned(),
    }
}

/// The number of characters in `s`.
pub fn char_len(s: &str) -> (r: usize)
    ensures
        r == s@.len(),
{
    s.unicode_len()
}

/// `needle` occurs contiguously inside `hay`.
pub open spec fn contains_seq(hay: Seq<char>, needle: Seq<char>) -> bool {
    exists|o: int|
        0 <= o && o + needle.len() <= hay.len() && #[trigger] hay.subrange(o, o + needle.len())
            == needle
}

/// Decides [`contains_seq`]: substring search by characters.
pub fn str_contains(hay: &str, needle: &str) -> (r: bool)
    ensures
        r == contains_seq(hay@, needle@),
{
    let n = hay.unicode_len();
    let m = needle.unicode_len();
    if m > n {
        return false;
    }
    if m == 0 {
        assert(hay@.subrange(0, 0 + needle@.len() as int) =~= needle@);
        return true;
    }
    for o in 0..(n - m) + 1
        invariant
            n == hay@.len(),
            m == needle@.len(),
            m <= n,
            forall|oo: int|
                0 <= oo < o ==> #[trigger] hay@.subrange(oo, oo + needle@.len()) != needle@,
    {
        let mut all_eq = true;
        for j in 0..m
            invariant
                n == hay@.len(),
                m == needle@.len(),
                o + m <= n,
                all_eq ==> forall|jj: int|
                    0 <= jj < j ==> hay@[o + jj] == needle@[jj],
                !all_eq ==> hay@.subrange(o as int, o + m as int) != needle@,
        {
            if hay.get_char(o + j) != needle.get_char(j) {
                proof {
                    if hay@.subrange(o as int, o + m as int) == needle@ {
                        assert(hay@.subrange(o as int, o + m as int)[j as int] == hay@[o + j]);
                    }
                }
                all_eq = false;
            }
        }
        if all_eq {
            assert(hay@.subrange(o as int, o + needle@.len()) =~= needle@);
            return true;
        }
    }
    false
}

/// The two optional strings hold the same text, or are both absent.
pub open spec fn opt_str_like(a: Option<String>, b: Option<String>) -> bool {
    match (a, b) {
        (Some(x), Some(y)) => x@ == y@,
        (None, None) => true,
        _ => false,
    }
}

/// A sparse patch applied to one optional field: a given value replaces
/// the stored one; an omitted value keeps it.
pub open spec fn patched(post: Option<String>, patch: Option<String>, pre: Option<String>) -> bool {
    match patch {
        Some(v) => match post {
            Some(pv) => pv@ == v@,
            None => false,
        },
        None => opt_str_like(post, pre),
    }
}

} // verus!
