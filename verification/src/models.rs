//! The record types of the registry and their field predicates.
//!
//! An [`Identification`] is a posted, found ID card; a
//! [`ClaimableIdentification`] is a user's description of a card they
//! lost; a [`MatchedIDt`] links one claim to one identification the
//! engine judged similar enough.  Alongside the types live the field
//! validation rules and the strict field-list equality predicates of the
//! duplicate guard — strict equality is deliberately a named function
//! comparing a fixed list of fields, so which fields count stays visible
//! at the call site.

use vstd::prelude::*;

verus! {

use crate::comparator::spec_fields_match;
use crate::comparator::spec_time_bonus;
use crate::comparator::fields_match;
use crate::dates::Date;

/// A geographic point, held in microdegrees so that comparisons are
/// exact.
#[derive(Clone, Copy, PartialEq, Eq, Structural, Debug)]
pub struct GeoPoint {
    /// Latitude in millionths of a degree.
    pub lat_micro: i64,
    /// Longitude in millionths of a degree.
    pub lng_micro: i64,
}

/// A posted, found identification card.
#[derive(Debug)]
pub struct Identification {
    pub id: i32,
    /// Full name on Identification
    pub name: String,
    /// Major undertaken by holder or the Department
    pub course: String,
    /// Holder's starting date
    pub valid_from: Option<Date>,
    /// Validity end date
    pub valid_till: Option<Date>,
    /// The name of the institution the Identification belongs to
    pub institution: String,
    /// Location/subtitle defining the exact location of the institution
    pub campus: String,
    /// Location from which the ID should be picked
    pub location_name: String,
    /// Geocoordinate of the pickup location
    pub location_point: Option<GeoPoint>,
    /// Reference to a picture of the card
    pub picture: Option<String>,
    /// The user who posted (found) the card
    pub posted_by: Option<i32>,
    /// Whether the card has been resolved (collected by its owner);
    /// a resolved card is retired from candidate selection
    pub is_found: bool,
    pub created_at: u64,
    pub updated_at: u64,
    /// Any more relevant description of the card
    pub about: Option<String>,
    /// The user the Identification belongs to, set once by a confirmed
    /// claim
    pub owner: Option<i32>,
}

/// The fields of a new identification submission.
#[derive(Debug)]
pub struct NewIdentification {
    pub name: String,
    pub course: String,
    pub valid_from: Option<Date>,
    pub valid_till: Option<Date>,
    pub institution: String,
    pub campus: String,
    pub location_name: String,
    pub location_point: Option<GeoPoint>,
    pub posted_by: Option<i32>,
    pub about: Option<String>,
}

/// A patch for an existing identification; absent fields are left
/// unchanged.
#[derive(Debug)]
pub struct UpdatableIdentification {
    pub name: Option<String>,
    pub course: Option<String>,
    pub valid_from: Option<Date>,
    pub valid_till: Option<Date>,
    pub institution: Option<String>,
    pub campus: Option<String>,
    pub location_name: Option<String>,
    pub location_point: Option<GeoPoint>,
    pub about: Option<String>,
}

/// A user's claim describing an identification card they lost.
#[derive(Debug)]
pub struct ClaimableIdentification {
    pub id: i32,
    pub user_id: i32,
    pub name: String,
    /// Course given on the claim; empty when the claimant gave none
    pub course: String,
    pub entry_year: Option<Date>,
    pub graduation_year: Option<Date>,
    pub institution: String,
    /// Campus given on the claim; empty means "any campus of the
    /// institution"
    pub campus_location: String,
    pub created_at: u64,
    pub updated_at: u64,
}

/// The fields of a new claim submission.
#[derive(Debug)]
pub struct NewClaimableIdt {
    pub name: String,
    pub course: Option<String>,
    pub entry_year: Option<Date>,
    pub graduation_year: Option<Date>,
    pub institution: String,
    pub campus_location: Option<String>,
}

/// A patch for an existing claim; absent fields are left unchanged.
#[derive(Debug)]
pub struct UpdatableClaimableIdt {
    pub name: Option<String>,
    pub course: Option<String>,
    pub entry_year: Option<Date>,
    pub graduation_year: Option<Date>,
    pub institution: Option<String>,
    pub campus_location: Option<String>,
}

/// A persisted match: one claim paired with one identification.
#[derive(Clone, Copy, PartialEq, Eq, Structural, Debug)]
pub struct MatchedIDt {
    pub id: i64,
    pub claim_id: i32,
    pub identification_id: i32,
    pub created_at: u64,
}

/// A claim-confirmation request: the identification a user wants and the
/// claim of theirs said to match it.
#[derive(Clone, Copy, PartialEq, Eq, Structural, Debug)]
pub struct MatchedIdtJson {
    /// The identification ID a user wants to claim
    pub idt: i32,
    /// A (possibly) matching claim ID
    pub claim: i32,
}

/// Whether `c` is acceptable in a name-like field: an ASCII letter or a
/// space.
pub open spec fn is_alpha_space_char(c: char) -> bool {
    let u = c as u32;
    (97 <= u && u <= 122) || (65 <= u && u <= 90) || u == 32
}

/// Whether `c` is acceptable in a location-like field: an ASCII lower
/// case letter, or any character from space (0x20) through backtick
/// (0x60) — a range that covers upper case letters, digits and common
/// punctuation including `-` and `_`.
pub open spec fn is_location_char(c: char) -> bool {
    let u = c as u32;
    (97 <= u && u <= 122) || (32 <= u && u <= 96)
}

/// A name-like field: non-empty, at most 255 characters, letters and
/// spaces only.
pub open spec fn valid_alpha_field(s: Seq<char>) -> bool {
    &&& 1 <= s.len() <= 255
    &&& forall|i: int| 0 <= i < s.len() ==> is_alpha_space_char(#[trigger] s[i])
}

/// A location-like field: non-empty, at most 255 characters, location
/// characters only.
pub open spec fn valid_location_field(s: Seq<char>) -> bool {
    &&& 1 <= s.len() <= 255
    &&& forall|i: int| 0 <= i < s.len() ==> is_location_char(#[trigger] s[i])
}

/// Validates a name-like field (letters and spaces).
pub fn validate_alpha_regex(name: &str) -> (r: bool)
    ensures
        r == valid_alpha_field(name@),
{
    let n: usize = name.unicode_len();
    if n < 1 || n > 255 {
        return false;
    }
    let mut i: usize = 0;
    while i < n
        invariant
            i <= n,
            n == name@.len(),
            forall|j: int| 0 <= j < i ==> is_alpha_space_char(#[trigger] name@[j]),
        decreases n - i,
    {
        let c = name.get_char(i);
        let u = c as u32;
        if !((97 <= u && u <= 122) || (65 <= u && u <= 90) || u == 32) {
            return false;
        }
        i = i + 1;
    }
    true
}

/// Validates a location-like field.
pub fn validate_location_name(name: &str) -> (r: bool)
    ensures
        r == valid_location_field(name@),
{
    let n: usize = name.unicode_len();
    if n < 1 || n > 255 {
        return false;
    }
    let mut i: usize = 0;
    while i < n
        invariant
            i <= n,
            n == name@.len(),
            forall|j: int| 0 <= j < i ==> is_location_char(#[trigger] name@[j]),
        decreases n - i,
    {
        let c = name.get_char(i);
        let u = c as u32;
        if !((97 <= u && u <= 122) || (32 <= u && u <= 96)) {
            return false;
        }
        i = i + 1;
    }
    true
}

/// Validates a string length: between 3 and 255 characters.
pub fn validate_str_len(name: &str) -> (r: bool)
    ensures
        r == (3 <= name@.len() <= 255),
{
    let n: usize = name.unicode_len();
    3 <= n && n <= 255
}

/// Equality of two optional dates.
pub fn opt_date_eq(a: &Option<Date>, b: &Option<Date>) -> (r: bool)
    ensures
        r == (a == b),
{
    match (a, b) {
        (Some(x), Some(y)) => x == y,
        (None, None) => true,
        _ => false,
    }
}

/// Equality of two optional geographic points.
pub fn opt_point_eq(a: &Option<GeoPoint>, b: &Option<GeoPoint>) -> (r: bool)
    ensures
        r == (a == b),
{
    match (a, b) {
        (Some(x), Some(y)) => x == y,
        (None, None) => true,
        _ => false,
    }
}

/// Equality of two optional user ids.
pub fn opt_i32_eq(a: &Option<i32>, b: &Option<i32>) -> (r: bool)
    ensures
        r == (a == b),
{
    match (a, b) {
        (Some(x), Some(y)) => x == y,
        (None, None) => true,
        _ => false,
    }
}

/// A new identification submission with every validated field in order.
pub open spec fn spec_new_idt_valid(n: NewIdentification) -> bool {
    &&& valid_alpha_field(n.name@)
    &&& valid_alpha_field(n.course@)
    &&& valid_alpha_field(n.institution@)
    &&& valid_location_field(n.campus@)
    &&& valid_location_field(n.location_name@)
}

/// A new claim submission with every validated field in order.
pub open spec fn spec_new_claim_valid(n: NewClaimableIdt) -> bool {
    &&& valid_alpha_field(n.name@)
    &&& valid_alpha_field(n.institution@)
    &&& match n.course {
        Some(c) => valid_alpha_field(c@),
        None => true,
    }
    &&& match n.campus_location {
        Some(c) => valid_location_field(c@),
        None => true,
    }
}

/// Validates a new identification submission.
pub fn new_idt_valid(n: &NewIdentification) -> (r: bool)
    ensures
        r == spec_new_idt_valid(*n),
{
    validate_alpha_regex(n.name.as_str()) && validate_alpha_regex(n.course.as_str())
        && validate_alpha_regex(n.institution.as_str()) && validate_location_name(
        n.campus.as_str(),
    ) && validate_location_name(n.location_name.as_str())
}

/// Validates a new claim submission.
pub fn new_claim_valid(n: &NewClaimableIdt) -> (r: bool)
    ensures
        r == spec_new_claim_valid(*n),
{
    let course_ok = match &n.course {
        Some(c) => validate_alpha_regex(c.as_str()),
        None => true,
    };
    let campus_ok = match &n.campus_location {
        Some(c) => validate_location_name(c.as_str()),
        None => true,
    };
    validate_alpha_regex(n.name.as_str()) && validate_alpha_regex(n.institution.as_str())
        && course_ok && campus_ok
}

/// Strict field-list equality between a new identification submission and
/// a stored identification, as the duplicate guard sees it: name, course,
/// validity dates, institution, campus, pickup location, geocoordinate
/// and poster must all be equal, and the stored record must still be
/// unresolved — a resolved identical record does not block a new report,
/// since the same card can be lost and found again.
pub open spec fn spec_idt_strict_eq(n: NewIdentification, idt: Identification) -> bool {
    &&& n.name@ == idt.name@
    &&& n.course@ == idt.course@
    &&& n.valid_from == idt.valid_from
    &&& n.valid_till == idt.valid_till
    &&& n.institution@ == idt.institution@
    &&& n.campus@ == idt.campus@
    &&& n.location_name@ == idt.location_name@
    &&& n.location_point == idt.location_point
    &&& n.posted_by == idt.posted_by
    &&& !idt.is_found
}

/// Decides [`spec_idt_strict_eq`].
pub fn idt_strict_eq(n: &NewIdentification, idt: &Identification) -> (r: bool)
    ensures
        r == spec_idt_strict_eq(*n, *idt),
{
    n.name == idt.name && n.course == idt.course && opt_date_eq(&n.valid_from, &idt.valid_from)
        && opt_date_eq(&n.valid_till, &idt.valid_till) && n.institution == idt.institution
        && n.campus == idt.campus && n.location_name == idt.location_name && opt_point_eq(
        &n.location_point,
        &idt.location_point,
    ) && opt_i32_eq(&n.posted_by, &idt.posted_by) && !idt.is_found
}

/// Strict field-list equality between a new claim submission and a stored
/// claim, as the duplicate guard sees it: entry and graduation years,
/// institution and name must be equal, and the optional course and campus
/// must be present and equal — an absent optional field never matches, it
/// is not a wildcard.
pub open spec fn spec_claim_strict_eq(n: NewClaimableIdt, cl: ClaimableIdentification) -> bool {
    &&& n.entry_year == cl.entry_year
    &&& n.graduation_year == cl.graduation_year
    &&& match n.course {
        Some(c) => c@ == cl.course@,
        None => false,
    }
    &&& match n.campus_location {
        Some(c) => c@ == cl.campus_location@,
        None => false,
    }
    &&& n.institution@ == cl.institution@
    &&& n.name@ == cl.name@
}

/// Decides [`spec_claim_strict_eq`].
pub fn claim_strict_eq(n: &NewClaimableIdt, cl: &ClaimableIdentification) -> (r: bool)
    ensures
        r == spec_claim_strict_eq(*n, *cl),
{
    let course_eq = match &n.course {
        Some(c) => *c == cl.course,
        None => false,
    };
    let campus_eq = match &n.campus_location {
        Some(c) => *c == cl.campus_location,
        None => false,
    };
    opt_date_eq(&n.entry_year, &cl.entry_year) && opt_date_eq(
        &n.graduation_year,
        &cl.graduation_year,
    ) && course_eq && campus_eq && n.institution == cl.institution && n.name == cl.name
}

/// A stored identification with well-formed fields.
pub open spec fn spec_idt_wf(idt: Identification) -> bool {
    &&& valid_alpha_field(idt.name@)
    &&& valid_alpha_field(idt.course@)
    &&& valid_alpha_field(idt.institution@)
    &&& valid_location_field(idt.campus@)
    &&& valid_location_field(idt.location_name@)
}

/// A stored claim with well-formed fields; the optional course and
/// campus are empty when the claimant gave none.
pub open spec fn spec_claim_wf(cl: ClaimableIdentification) -> bool {
    &&& valid_alpha_field(cl.name@)
    &&& valid_alpha_field(cl.institution@)
    &&& (cl.course@.len() == 0 || valid_alpha_field(cl.course@))
    &&& (cl.campus_location@.len() == 0 || valid_location_field(cl.campus_location@))
}

/// Whether the engine judges a stored claim and a stored identification
/// similar enough to match: the weighted comparator over (name, course)
/// with the date bonus over (entry year, validity start) or else
/// (graduation year, validity end).
pub open spec fn spec_is_matching(cl: ClaimableIdentification, idt: Identification) -> bool {
    spec_fields_match(
        cl.name@,
        idt.name@,
        cl.course@,
        idt.course@,
        spec_time_bonus(cl.entry_year, cl.graduation_year, idt.valid_from, idt.valid_till),
    )
}

/// Finds the similarity between a claim and an identification, returning
/// true if they match (acceptance threshold 0.540).
pub fn is_matching_idt(claim: &ClaimableIdentification, idt: &Identification) -> (r: bool)
    requires
        claim.name@.len() <= 255,
        claim.course@.len() <= 255,
        idt.name@.len() <= 255,
        idt.course@.len() <= 255,
    ensures
        r == spec_is_matching(*claim, *idt),
{
    let bonus: bool = if idt.valid_from.is_some() && claim.entry_year.is_some() {
        opt_date_eq(&claim.entry_year, &idt.valid_from)
    } else if idt.valid_till.is_some() && claim.graduation_year.is_some() {
        opt_date_eq(&claim.graduation_year, &idt.valid_till)
    } else {
        false
    };
    fields_match(
        claim.name.as_str(),
        idt.name.as_str(),
        claim.course.as_str(),
        idt.course.as_str(),
        bonus,
    )
}

/// An explicit deep copy of an optional string; the copy equals the
/// original.
pub fn clone_opt_string(s: &Option<String>) -> (r: Option<String>)
    ensures
        r == *s,
{
    match s {
        Some(x) => Some(x.clone()),
        None => None,
    }
}

/// An explicit deep copy of a stored identification; the copy equals the
/// original.
pub fn clone_identification(idt: &Identification) -> (r: Identification)
    ensures
        r == *idt,
{
    Identification {
        id: idt.id,
        name: idt.name.clone(),
        course: idt.course.clone(),
        valid_from: idt.valid_from,
        valid_till: idt.valid_till,
        institution: idt.institution.clone(),
        campus: idt.campus.clone(),
        location_name: idt.location_name.clone(),
        location_point: idt.location_point,
        picture: clone_opt_string(&idt.picture),
        posted_by: idt.posted_by,
        is_found: idt.is_found,
        created_at: idt.created_at,
        updated_at: idt.updated_at,
        about: clone_opt_string(&idt.about),
        owner: idt.owner,
    }
}

/// An explicit deep copy of a stored claim; the copy equals the
/// original.
pub fn clone_claim(cl: &ClaimableIdentification) -> (r: ClaimableIdentification)
    ensures
        r == *cl,
{
    ClaimableIdentification {
        id: cl.id,
        user_id: cl.user_id,
        name: cl.name.clone(),
        course: cl.course.clone(),
        entry_year: cl.entry_year,
        graduation_year: cl.graduation_year,
        institution: cl.institution.clone(),
        campus_location: cl.campus_location.clone(),
        created_at: cl.created_at,
        updated_at: cl.updated_at,
    }
}

/// Finds the similarity between a claim and a new identification
/// submission, returning true if the claim is a possible match; the
/// analogue of [`is_matching_idt`] before the submission is stored.
pub fn is_possible_match(n: &NewIdentification, claim: &ClaimableIdentification) -> (r: bool)
    requires
        n.name@.len() <= 255,
        n.course@.len() <= 255,
        claim.name@.len() <= 255,
        claim.course@.len() <= 255,
    ensures
        r == spec_fields_match(
            claim.name@,
            n.name@,
            claim.course@,
            n.course@,
            spec_time_bonus(claim.entry_year, claim.graduation_year, n.valid_from, n.valid_till),
        ),
{
    let bonus: bool = if n.valid_from.is_some() && claim.entry_year.is_some() {
        opt_date_eq(&claim.entry_year, &n.valid_from)
    } else if n.valid_till.is_some() && claim.graduation_year.is_some() {
        opt_date_eq(&claim.graduation_year, &n.valid_till)
    } else {
        false
    };
    fields_match(
        claim.name.as_str(),
        n.name.as_str(),
        claim.course.as_str(),
        n.course.as_str(),
        bonus,
    )
}

/// The candidate rule for a claim against an identification: same
/// institution; a claim naming a campus only matches identifications of
/// that campus, a claim with no campus matches any campus.
pub open spec fn spec_claim_scope_matches(
    cl: ClaimableIdentification,
    institution: Seq<char>,
    campus: Seq<char>,
) -> bool {
    &&& cl.institution@ == institution
    &&& (cl.campus_location@.len() == 0 || cl.campus_location@ == campus)
}

/// Decides [`spec_claim_scope_matches`] for a stored identification.
pub fn claim_scope_matches(cl: &ClaimableIdentification, institution: &String, campus: &String) -> (r:
    bool)
    ensures
        r == spec_claim_scope_matches(*cl, institution@, campus@),
{
    cl.institution == *institution && (cl.campus_location.unicode_len() == 0
        || cl.campus_location == *campus)
}

/// The identification with its resolution flag set to `found`.
pub open spec fn spec_with_found(idt: Identification, found: bool) -> Identification {
    Identification { is_found: found, ..idt }
}

/// The identification with its owner set.
pub open spec fn spec_with_owner(idt: Identification, owner: i32) -> Identification {
    Identification { owner: Some(owner), ..idt }
}

/// The identification as a patch leaves it: every present patch field
/// replaces the stored one, absent fields are kept, and the update
/// instant is stamped.
pub open spec fn spec_apply_idt_patch(
    idt: Identification,
    p: UpdatableIdentification,
    now: u64,
) -> Identification {
    Identification {
        name: match p.name {
            Some(v) => v,
            None => idt.name,
        },
        course: match p.course {
            Some(v) => v,
            None => idt.course,
        },
        valid_from: match p.valid_from {
            Some(v) => Some(v),
            None => idt.valid_from,
        },
        valid_till: match p.valid_till {
            Some(v) => Some(v),
            None => idt.valid_till,
        },
        institution: match p.institution {
            Some(v) => v,
            None => idt.institution,
        },
        campus: match p.campus {
            Some(v) => v,
            None => idt.campus,
        },
        location_name: match p.location_name {
            Some(v) => v,
            None => idt.location_name,
        },
        location_point: match p.location_point {
            Some(v) => Some(v),
            None => idt.location_point,
        },
        about: match p.about {
            Some(v) => Some(v),
            None => idt.about,
        },
        updated_at: now,
        ..idt
    }
}

/// The claim as a patch leaves it.
pub open spec fn spec_apply_claim_patch(
    cl: ClaimableIdentification,
    p: UpdatableClaimableIdt,
    now: u64,
) -> ClaimableIdentification {
    ClaimableIdentification {
        name: match p.name {
            Some(v) => v,
            None => cl.name,
        },
        course: match p.course {
            Some(v) => v,
            None => cl.course,
        },
        entry_year: match p.entry_year {
            Some(v) => Some(v),
            None => cl.entry_year,
        },
        graduation_year: match p.graduation_year {
            Some(v) => Some(v),
            None => cl.graduation_year,
        },
        institution: match p.institution {
            Some(v) => v,
            None => cl.institution,
        },
        campus_location: match p.campus_location {
            Some(v) => v,
            None => cl.campus_location,
        },
        updated_at: now,
        ..cl
    }
}

/// Every present text field of an identification patch obeys its
/// validation rule.
pub open spec fn spec_idt_patch_valid(p: UpdatableIdentification) -> bool {
    &&& match p.name {
        Some(v) => valid_alpha_field(v@),
        None => true,
    }
    &&& match p.course {
        Some(v) => valid_alpha_field(v@),
        None => true,
    }
    &&& match p.institution {
        Some(v) => valid_alpha_field(v@),
        None => true,
    }
    &&& match p.campus {
        Some(v) => valid_location_field(v@),
        None => true,
    }
    &&& match p.location_name {
        Some(v) => valid_location_field(v@),
        None => true,
    }
}

/// Every present text field of a claim patch obeys its validation rule.
pub open spec fn spec_claim_patch_valid(p: UpdatableClaimableIdt) -> bool {
    &&& match p.name {
        Some(v) => valid_alpha_field(v@),
        None => true,
    }
    &&& match p.course {
        Some(v) => valid_alpha_field(v@),
        None => true,
    }
    &&& match p.institution {
        Some(v) => valid_alpha_field(v@),
        None => true,
    }
    &&& match p.campus_location {
        Some(v) => valid_location_field(v@),
        None => true,
    }
}

/// Validates an identification patch.
pub fn idt_patch_valid(p: &UpdatableIdentification) -> (r: bool)
    ensures
        r == spec_idt_patch_valid(*p),
{
    let name_ok = match &p.name {
        Some(v) => validate_alpha_regex(v.as_str()),
        None => true,
    };
    let course_ok = match &p.course {
        Some(v) => validate_alpha_regex(v.as_str()),
        None => true,
    };
    let inst_ok = match &p.institution {
        Some(v) => validate_alpha_regex(v.as_str()),
        None => true,
    };
    let campus_ok = match &p.campus {
        Some(v) => validate_location_name(v.as_str()),
        None => true,
    };
    let loc_ok = match &p.location_name {
        Some(v) => validate_location_name(v.as_str()),
        None => true,
    };
    name_ok && course_ok && inst_ok && campus_ok && loc_ok
}

/// Validates a claim patch.
pub fn claim_patch_valid(p: &UpdatableClaimableIdt) -> (r: bool)
    ensures
        r == spec_claim_patch_valid(*p),
{
    let name_ok = match &p.name {
        Some(v) => validate_alpha_regex(v.as_str()),
        None => true,
    };
    let course_ok = match &p.course {
        Some(v) => validate_alpha_regex(v.as_str()),
        None => true,
    };
    let inst_ok = match &p.institution {
        Some(v) => validate_alpha_regex(v.as_str()),
        None => true,
    };
    let campus_ok = match &p.campus_location {
        Some(v) => validate_location_name(v.as_str()),
        None => true,
    };
    name_ok && course_ok && inst_ok && campus_ok
}

/// Applies an identification patch, leaving absent fields unchanged.
pub fn apply_idt_patch(idt: &Identification, p: &UpdatableIdentification, now: u64) -> (r:
    Identification)
    ensures
        r == spec_apply_idt_patch(*idt, *p, now),
{
    Identification {
        id: idt.id,
        name: match &p.name {
            Some(v) => v.clone(),
            None => idt.name.clone(),
        },
        course: match &p.course {
            Some(v) => v.clone(),
            None => idt.course.clone(),
        },
        valid_from: match p.valid_from {
            Some(v) => Some(v),
            None => idt.valid_from,
        },
        valid_till: match p.valid_till {
            Some(v) => Some(v),
            None => idt.valid_till,
        },
        institution: match &p.institution {
            Some(v) => v.clone(),
            None => idt.institution.clone(),
        },
        campus: match &p.campus {
            Some(v) => v.clone(),
            None => idt.campus.clone(),
        },
        location_name: match &p.location_name {
            Some(v) => v.clone(),
            None => idt.location_name.clone(),
        },
        location_point: match p.location_point {
            Some(v) => Some(v),
            None => idt.location_point,
        },
        picture: clone_opt_string(&idt.picture),
        posted_by: idt.posted_by,
        is_found: idt.is_found,
        created_at: idt.created_at,
        updated_at: now,
        about: match &p.about {
            Some(v) => Some(v.clone()),
            None => clone_opt_string(&idt.about),
        },
        owner: idt.owner,
    }
}

/// Applies a claim patch, leaving absent fields unchanged.
pub fn apply_claim_patch(cl: &ClaimableIdentification, p: &UpdatableClaimableIdt, now: u64) -> (r:
    ClaimableIdentification)
    ensures
        r == spec_apply_claim_patch(*cl, *p, now),
{
    ClaimableIdentification {
        id: cl.id,
        user_id: cl.user_id,
        name: match &p.name {
            Some(v) => v.clone(),
            None => cl.name.clone(),
        },
        course: match &p.course {
            Some(v) => v.clone(),
            None => cl.course.clone(),
        },
        entry_year: match p.entry_year {
            Some(v) => Some(v),
            None => cl.entry_year,
        },
        graduation_year: match p.graduation_year {
            Some(v) => Some(v),
            None => cl.graduation_year,
        },
        institution: match &p.institution {
            Some(v) => v.clone(),
            None => cl.institution.clone(),
        },
        campus_location: match &p.campus_location {
            Some(v) => v.clone(),
            None => cl.campus_location.clone(),
        },
        created_at: cl.created_at,
        updated_at: now,
    }
}

/// A stored claim that the engine pairs with the identification: inside
/// the candidate scope and over the acceptance threshold.
pub open spec fn spec_claim_match_for_idt(cl: ClaimableIdentification, idt: Identification) -> bool {
    spec_claim_scope_matches(cl, idt.institution@, idt.campus@) && spec_is_matching(cl, idt)
}

/// A stored identification that the engine pairs with the claim: inside
/// the candidate scope, not yet resolved, and over the acceptance
/// threshold.
pub open spec fn spec_idt_match_for_claim(idt: Identification, cl: ClaimableIdentification) -> bool {
    spec_claim_scope_matches(cl, idt.institution@, idt.campus@) && !idt.is_found
        && spec_is_matching(cl, idt)
}

} // verus!
