//! The institution-affiliation heuristic.

use got_ya_id::institution::{email_institution_sim, ChangeableInst};

#[test]
fn p10_initials_against_domain_label() {
    // For "State College of Arts" against "scarts" the containment check
    // already succeeds: the word "arts" is a literal substring of
    // "scarts".  The email is accepted with or without filler stripping
    // before the initials are ever compared.
    assert!(email_institution_sim("State College of Arts", "joe@scarts.edu", true));
    assert!(email_institution_sim("State College of Arts", "joe@scarts.edu", false));
    // The 0.75 boundary of the initials fallback, on names none of whose
    // words occur in "scarts".  Initials "sca": dot 4, norms 3 and 8;
    // cosine = 4/sqrt(24) ~= 0.8165 > 0.75 — accepted.
    assert!(email_institution_sim("Somewhere Central Academy", "joe@scarts.edu", false));
    let above = 4.0 / (3.0f64 * 8.0).sqrt();
    assert!(above > 0.75);
    // Initials "scoa": dot 4, norms 4 and 8; cosine = 4/sqrt(32)
    // ~= 0.7071 < 0.75 — rejected.
    assert!(!email_institution_sim("Somewhere Central Office Academy", "joe@scarts.edu", false));
    let below = 4.0 / (4.0f64 * 8.0).sqrt();
    assert!(below < 0.75);
}

#[test]
fn word_containment_in_domain() {
    assert!(email_institution_sim("Planty Planty", "poofy@planty.du", false));
    assert!(email_institution_sim("Great Uncookers Dozen", "poofy@uncookers.doom", false));
    assert!(!email_institution_sim("Great Uncookers Dozen", "poofy@unrs.doom", false));
}

#[test]
fn containment_is_case_folded() {
    assert!(email_institution_sim("PLANTY House", "poofy@planty.du", false));
    assert!(email_institution_sim("planty house", "poofy@PLANTY.du", false));
}

#[test]
fn domain_without_dot_never_passes_similarity() {
    // the top-level label is dropped, so nothing remains to compare
    assert!(!email_institution_sim("State College of Arts", "joe@scarts", true));
    // containment still works against the trimmed domain only when a dot
    // is present; here the trimmed domain is empty
    assert!(!email_institution_sim("Planty", "poofy@planty", false));
}

#[test]
fn changeable_inst_reports_forbidden_on_mismatch() {
    let ok = ChangeableInst { name: "Planty Planty".into(), email: "poofy@planty.du".into() };
    assert!(ok.is_match().unwrap());
    let bad =
        ChangeableInst { name: "Great Uncookers Dozen".into(), email: "poofy@unrs.doom".into() };
    assert_eq!(bad.is_match().unwrap_err().status, 403);
}

#[test]
fn multi_label_domains_compare_each_label() {
    // initials "sca" against labels "mail" and "scarts": the second wins
    assert!(email_institution_sim("State College of Arts", "joe@mail.scarts.edu", true));
}
