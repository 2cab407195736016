//! The matching engine end to end: creation, the duplicate guards, the
//! matching passes, match persistence and the lifecycle transitions.

use got_ya_id::comparator::fields_match;
use got_ya_id::dates::Date;
use got_ya_id::models::{
    is_matching_idt, ClaimableIdentification, MatchedIdtJson, NewClaimableIdt, NewIdentification,
};
use got_ya_id::registry::Registry;

fn new_idt(
    name: &str,
    course: &str,
    inst: &str,
    campus: &str,
    valid_from: Option<Date>,
) -> NewIdentification {
    NewIdentification {
        name: name.into(),
        course: course.into(),
        valid_from,
        valid_till: None,
        institution: inst.into(),
        campus: campus.into(),
        location_name: "Gate A".into(),
        location_point: None,
        posted_by: None,
        about: None,
    }
}

fn new_claim(
    name: &str,
    course: Option<&str>,
    inst: &str,
    campus: Option<&str>,
    entry: Option<Date>,
) -> NewClaimableIdt {
    NewClaimableIdt {
        name: name.into(),
        course: course.map(|c| c.into()),
        entry_year: entry,
        graduation_year: None,
        institution: inst.into(),
        campus_location: campus.map(|c| c.into()),
    }
}

#[test]
fn p8_scenario_full_match_is_recorded() {
    let mut reg = Registry::new();
    let claim = reg
        .create_claim(
            new_claim("Jane Doe", Some("Physics"), "Acme University", None, Some(Date::from_year(2019))),
            1,
            100,
        )
        .unwrap();
    let idt = reg
        .create_identification(
            new_idt("Jane Doe", "Physics", "Acme University", "Main", Some(Date::new(2019, 1, 1))),
            2,
            101,
        )
        .unwrap();
    // name 1.0 * 0.60 + course 1.0 * 0.25 + date bonus 0.075 = 0.925 >= 0.54
    assert!(reg.pair_exists(claim.id, idt.id));
}

#[test]
fn p9_scenario_one_class_off_name_still_matches() {
    // name similarity drops to 7/9; the exact total is
    // 0.60 * 7/9 + 0.25 + 0.075 = 0.79166..., still over the threshold
    let total = 0.60 * (7.0 / 9.0) + 0.25 + 0.075;
    assert!(total >= 0.54);
    let mut reg = Registry::new();
    let claim = reg
        .create_claim(
            new_claim("Jane Doe", Some("Physics"), "Acme University", None, Some(Date::from_year(2019))),
            1,
            100,
        )
        .unwrap();
    let idt = reg
        .create_identification(
            new_idt("John Doe", "Physics", "Acme University", "Main", Some(Date::new(2019, 1, 1))),
            2,
            101,
        )
        .unwrap();
    assert!(reg.pair_exists(claim.id, idt.id));
}

#[test]
fn dissimilar_records_are_not_matched() {
    let mut reg = Registry::new();
    let claim = reg
        .create_claim(new_claim("Zzzz Qqqq", None, "Acme University", None, None), 1, 100)
        .unwrap();
    let idt = reg
        .create_identification(
            new_idt("Jane Doe", "Physics", "Acme University", "Main", None),
            2,
            101,
        )
        .unwrap();
    assert!(!reg.pair_exists(claim.id, idt.id));
}

#[test]
fn threshold_boundary_is_exact() {
    // "aaab" vs "aaac": dot 9, norms 10 and 10; 0.60 * 9/10 = 0.54 exactly
    assert!(fields_match("aaab", "aaac", "", "", false));
    let score = 0.60 * 9.0 / (10.0f64.sqrt() * 10.0f64.sqrt());
    assert!((score - 0.54).abs() < 1e-12);
    // "aaab" vs "aaacd": dot 9, norms 10 and 11; 0.60 * 9/sqrt(110) < 0.54
    assert!(!fields_match("aaab", "aaacd", "", "", false));
    let below = 0.60 * 9.0 / (10.0f64 * 11.0f64).sqrt();
    assert!(below < 0.54);
}

#[test]
fn date_bonus_can_decide_a_match() {
    // "aab" vs "aac": similarity 4/5; 0.60 * 0.8 = 0.48 alone, 0.555 with
    // the 0.075 date bonus
    let claim = ClaimableIdentification {
        id: 1,
        user_id: 1,
        name: "aab".into(),
        course: "".into(),
        entry_year: Some(Date::from_year(2020)),
        graduation_year: None,
        institution: "Acme".into(),
        campus_location: "".into(),
        created_at: 0,
        updated_at: 0,
    };
    let mut idt_fields = new_idt("aac", "", "Acme", "Main", Some(Date::new(2020, 1, 1)));
    let idt = got_ya_id::models::Identification {
        id: 1,
        name: idt_fields.name.clone(),
        course: idt_fields.course.clone(),
        valid_from: idt_fields.valid_from,
        valid_till: None,
        institution: idt_fields.institution.clone(),
        campus: idt_fields.campus.clone(),
        location_name: idt_fields.location_name.clone(),
        location_point: None,
        picture: None,
        posted_by: None,
        is_found: false,
        created_at: 0,
        updated_at: 0,
        about: None,
        owner: None,
    };
    assert!(is_matching_idt(&claim, &idt));
    // present but unequal first pair wins: no bonus, no second chance
    idt_fields.valid_from = Some(Date::new(2021, 1, 1));
    let idt2 = got_ya_id::models::Identification {
        valid_from: idt_fields.valid_from,
        valid_till: Some(Date::new(2024, 6, 30)),
        name: idt.name.clone(),
        course: idt.course.clone(),
        institution: idt.institution.clone(),
        campus: idt.campus.clone(),
        location_name: idt.location_name.clone(),
        ..idt
    };
    let claim2 = ClaimableIdentification {
        graduation_year: Some(Date::new(2024, 6, 30)),
        name: claim.name.clone(),
        course: claim.course.clone(),
        institution: claim.institution.clone(),
        campus_location: claim.campus_location.clone(),
        ..claim
    };
    assert!(!is_matching_idt(&claim2, &idt2));
}

#[test]
fn comparator_is_symmetric_in_the_two_sides() {
    let pairs = [
        ("Jane Doe", "John Doe", "Physics", "Chemistry"),
        ("aab", "aac", "", ""),
        ("Alpha Beta", "Gamma Delta", "Math", "Math"),
    ];
    for (n1, n2, c1, c2) in pairs {
        assert_eq!(fields_match(n1, n2, c1, c2, false), fields_match(n2, n1, c2, c1, false));
        assert_eq!(fields_match(n1, n2, c1, c2, true), fields_match(n2, n1, c2, c1, true));
    }
}

#[test]
fn recording_a_pair_twice_leaves_one_row() {
    let mut reg = Registry::new();
    let claim = reg
        .create_claim(
            new_claim("Jane Doe", Some("Physics"), "Acme University", None, None),
            1,
            100,
        )
        .unwrap();
    let idt = reg
        .create_identification(
            new_idt("Jane Doe", "Physics", "Acme University", "Main", None),
            2,
            101,
        )
        .unwrap();
    assert!(reg.pair_exists(claim.id, idt.id));
    let rows = reg.matches.len();
    // the engine already recorded the pair; recording it again is a no-op
    let inserted = reg.record_match(claim.id, idt.id, 102);
    assert!(!inserted);
    assert_eq!(reg.matches.len(), rows);
    let held: Vec<_> = reg
        .matches
        .iter()
        .filter(|m| m.claim_id == claim.id && m.identification_id == idt.id)
        .collect();
    assert_eq!(held.len(), 1);
}

#[test]
fn resolving_removes_matches_and_double_resolving_conflicts() {
    let mut reg = Registry::new();
    let claim = reg
        .create_claim(
            new_claim("Jane Doe", Some("Physics"), "Acme University", None, None),
            1,
            100,
        )
        .unwrap();
    let idt = reg
        .create_identification(
            new_idt("Jane Doe", "Physics", "Acme University", "Main", None),
            2,
            101,
        )
        .unwrap();
    assert!(reg.pair_exists(claim.id, idt.id));
    let resolved = reg.mark_resolved(idt.id).unwrap();
    assert!(resolved.is_found);
    assert!(!reg.pair_exists(claim.id, idt.id));
    // double-resolving is an explicit conflict, both times after the first
    assert_eq!(reg.mark_resolved(idt.id).unwrap_err().status, 409);
    assert_eq!(reg.mark_resolved(idt.id).unwrap_err().status, 409);
    // reopening works once, then conflicts symmetrically
    assert!(!reg.is_lost(idt.id).unwrap().is_found);
    assert_eq!(reg.is_lost(idt.id).unwrap_err().status, 409);
}

#[test]
fn duplicate_unresolved_identification_is_rejected() {
    let mut reg = Registry::new();
    let fields = || new_idt("Jane Doe", "Physics", "Acme University", "Main", None);
    let first = reg.create_identification(fields(), 2, 100).unwrap();
    // identical fields from the same poster, still unresolved: conflict
    assert_eq!(reg.create_identification(fields(), 2, 101).unwrap_err().status, 409);
    // a different poster is no strict duplicate
    assert!(reg.create_identification(fields(), 3, 102).is_ok());
    // once the first is resolved, the same report may be made again
    reg.mark_resolved(first.id).unwrap();
    let third = reg.create_identification(fields(), 2, 103);
    assert!(third.is_ok());
}

#[test]
fn second_claim_per_user_is_rejected_whatever_its_fields() {
    let mut reg = Registry::new();
    reg.create_claim(new_claim("Jane Doe", None, "Acme University", None, None), 7, 100).unwrap();
    let other_fields = new_claim("Someone Else", Some("History"), "Other College", None, None);
    assert_eq!(reg.create_claim(other_fields, 7, 101).unwrap_err().status, 409);
}

#[test]
fn duplicate_claim_fields_are_rejected_and_absent_options_never_match() {
    let mut reg = Registry::new();
    let full = || new_claim("Jane Doe", Some("Physics"), "Acme University", Some("Main"), None);
    reg.create_claim(full(), 8, 100).unwrap();
    // a strictly field-equal claim by another user is a conflict
    assert_eq!(reg.create_claim(full(), 9, 101).unwrap_err().status, 409);
    // an absent optional field does not match, so this is no duplicate
    let partial = new_claim("Jane Doe", None, "Acme University", Some("Main"), None);
    assert!(reg.create_claim(partial, 10, 102).is_ok());
}

#[test]
fn campus_scoping_of_candidates() {
    let mut reg = Registry::new();
    // a claim naming campus North must not match a Main-campus card
    let scoped = reg
        .create_claim(
            new_claim("Jane Doe", Some("Physics"), "Acme University", Some("North"), None),
            1,
            100,
        )
        .unwrap();
    // a claim without a campus matches any campus of the institution
    let open = reg
        .create_claim(new_claim("Jane Doe", Some("Physics"), "Acme University", None, None), 2, 101)
        .unwrap();
    // a claim at another institution is out of scope entirely
    let elsewhere = reg
        .create_claim(new_claim("Jane Doe", Some("Physics"), "Far College", None, None), 3, 102)
        .unwrap();
    let idt = reg
        .create_identification(
            new_idt("Jane Doe", "Physics", "Acme University", "Main", None),
            4,
            103,
        )
        .unwrap();
    assert!(!reg.pair_exists(scoped.id, idt.id));
    assert!(reg.pair_exists(open.id, idt.id));
    assert!(!reg.pair_exists(elsewhere.id, idt.id));
}

#[test]
fn resolved_identifications_are_not_candidates() {
    let mut reg = Registry::new();
    let idt = reg
        .create_identification(
            new_idt("Jane Doe", "Physics", "Acme University", "Main", None),
            4,
            100,
        )
        .unwrap();
    reg.mark_resolved(idt.id).unwrap();
    let claim = reg
        .create_claim(new_claim("Jane Doe", Some("Physics"), "Acme University", None, None), 1, 101)
        .unwrap();
    assert!(!reg.pair_exists(claim.id, idt.id));
}

#[test]
fn confirm_claim_checks_pair_ownership_and_single_assignment() {
    let mut reg = Registry::new();
    let claim = reg
        .create_claim(new_claim("Jane Doe", Some("Physics"), "Acme University", None, None), 1, 100)
        .unwrap();
    let idt = reg
        .create_identification(
            new_idt("Jane Doe", "Physics", "Acme University", "Main", None),
            2,
            101,
        )
        .unwrap();
    assert!(reg.pair_exists(claim.id, idt.id));
    // an unknown pair is not found
    let bad = MatchedIdtJson { idt: idt.id + 100, claim: claim.id };
    assert_eq!(reg.confirm_claim(&bad, 1).unwrap_err().status, 404);
    // a caller who does not own the claim is unauthorized
    let pair = MatchedIdtJson { idt: idt.id, claim: claim.id };
    assert_eq!(reg.confirm_claim(&pair, 2).unwrap_err().status, 401);
    // the claim owner gets the card, once
    let owned = reg.confirm_claim(&pair, 1).unwrap();
    assert_eq!(owned.owner, Some(1));
    assert_eq!(reg.confirm_claim(&pair, 1).unwrap_err().status, 409);
    // ownership shows up in the user's cards
    assert_eq!(reg.show_mine(1).len(), 1);
    assert_eq!(reg.show_posted_by_me(2).len(), 1);
}

#[test]
fn updating_a_claim_triggers_rematching() {
    let mut reg = Registry::new();
    let claim = reg
        .create_claim(new_claim("Zzzz Qqqq", Some("Physics"), "Acme University", None, None), 1, 100)
        .unwrap();
    let idt = reg
        .create_identification(
            new_idt("Jane Doe", "Physics", "Acme University", "Main", None),
            2,
            101,
        )
        .unwrap();
    assert!(!reg.pair_exists(claim.id, idt.id));
    let patch = got_ya_id::models::UpdatableClaimableIdt {
        name: Some("Jane Doe".into()),
        course: None,
        entry_year: None,
        graduation_year: None,
        institution: None,
        campus_location: None,
    };
    // only the owner may update
    assert_eq!(reg.update_claim(claim.id, &patch, 99, 102).unwrap_err().status, 401);
    let updated = reg.update_claim(claim.id, &patch, 1, 102).unwrap();
    assert_eq!(updated.name, "Jane Doe");
    assert!(reg.pair_exists(claim.id, idt.id));
}

#[test]
fn updating_an_identification_checks_poster_and_fields() {
    let mut reg = Registry::new();
    let idt = reg
        .create_identification(
            new_idt("Jane Doe", "Physics", "Acme University", "Main", None),
            2,
            100,
        )
        .unwrap();
    let patch = got_ya_id::models::UpdatableIdentification {
        name: Some("Jane A Doe".into()),
        course: None,
        valid_from: None,
        valid_till: None,
        institution: None,
        campus: None,
        location_name: None,
        location_point: None,
        about: None,
    };
    assert_eq!(reg.update_identification(idt.id, &patch, 5, 101).unwrap_err().status, 401);
    let bad_patch = got_ya_id::models::UpdatableIdentification {
        name: Some("N4me".into()),
        course: None,
        valid_from: None,
        valid_till: None,
        institution: None,
        campus: None,
        location_name: None,
        location_point: None,
        about: None,
    };
    assert_eq!(reg.update_identification(idt.id, &bad_patch, 2, 101).unwrap_err().status, 400);
    let updated = reg.update_identification(idt.id, &patch, 2, 102).unwrap();
    assert_eq!(updated.name, "Jane A Doe");
    assert_eq!(reg.update_identification(idt.id + 9, &patch, 2, 103).unwrap_err().status, 404);
}

#[test]
fn invalid_fields_are_rejected_with_bad_request() {
    let mut reg = Registry::new();
    let mut bad = new_idt("Jane Doe", "Physics", "Acme University", "Main", None);
    bad.name = "J4ne".into();
    assert_eq!(reg.create_identification(bad, 1, 100).unwrap_err().status, 400);
    let mut bad_claim = new_claim("Jane Doe", None, "Acme University", None, None);
    bad_claim.institution = "".into();
    assert_eq!(reg.create_claim(bad_claim, 1, 101).unwrap_err().status, 400);
}

#[test]
fn retrieval_filters() {
    let mut reg = Registry::new();
    let a = reg
        .create_identification(new_idt("Jane Doe", "Physics", "Acme University", "Main", None), 1, 100)
        .unwrap();
    let _b = reg
        .create_identification(new_idt("John Roe", "History", "Far College", "West", None), 1, 101)
        .unwrap();
    reg.mark_resolved(a.id).unwrap();
    assert_eq!(reg.retrieve_all("all").len(), 2);
    assert_eq!(reg.retrieve_all("found").len(), 1);
    assert_eq!(reg.retrieve_all("missing").len(), 1);
    assert_eq!(reg.retrieve_by_institution_name("Acme University").len(), 1);
    assert_eq!(reg.find_by_id(a.id).unwrap().id, a.id);
    assert_eq!(reg.find_by_id(a.id + 50).unwrap_err().status, 404);
    let cl = reg
        .create_claim(new_claim("Jane Doe", None, "Acme University", None, None), 6, 102)
        .unwrap();
    assert_eq!(reg.find_claim_by_id(cl.id).unwrap().user_id, 6);
    assert_eq!(reg.belonging_to_me(6).unwrap().id, cl.id);
    assert_eq!(reg.belonging_to_me(7).unwrap_err().status, 404);
    assert!(reg.has_claim(6));
    assert!(!reg.has_claim(7));
}
