//! The registry: an in-memory store of identifications, claims and
//! matches, together with the lifecycle operations of the engine.
//!
//! The store owns the records; the matching engine reads them and writes
//! match rows.  Match persistence is an explicit upsert-or-noop at this
//! boundary ([`Registry::record_match`]): re-detecting a pair that is
//! already recorded succeeds without creating a second row, which is the
//! sole mechanism keeping concurrent or repeated detection of the same
//! pair from duplicating rows.

use vstd::prelude::*;

verus! {

use crate::errors::ResError;
use crate::models::ClaimableIdentification;
use crate::models::Identification;
use crate::models::MatchedIDt;
use crate::models::NewClaimableIdt;
use crate::models::NewIdentification;
use crate::models::claim_scope_matches;
use crate::models::claim_strict_eq;
use crate::models::clone_claim;
use crate::models::clone_identification;
use crate::models::idt_strict_eq;
use crate::models::is_matching_idt;
use crate::models::new_claim_valid;
use crate::models::new_idt_valid;
use crate::models::spec_claim_match_for_idt;
use crate::models::spec_claim_strict_eq;
use crate::models::spec_claim_wf;
use crate::models::spec_idt_match_for_claim;
use crate::models::spec_idt_strict_eq;
use crate::models::spec_idt_wf;
use crate::models::spec_new_claim_valid;
use crate::models::spec_new_idt_valid;

/// Some stored identification carries the id.
pub open spec fn spec_has_idt(idts: Seq<Identification>, id: i32) -> bool {
    exists|k: int| 0 <= k < idts.len() && idts[k].id == id
}

/// Some stored claim carries the id.
pub open spec fn spec_has_claim(claims: Seq<ClaimableIdentification>, id: i32) -> bool {
    exists|k: int| 0 <= k < claims.len() && claims[k].id == id
}

/// Some stored claim belongs to the user.
pub open spec fn spec_user_has_claim(claims: Seq<ClaimableIdentification>, user_id: i32) -> bool {
    exists|k: int| 0 <= k < claims.len() && claims[k].user_id == user_id
}

/// Some match row links the claim and the identification.
pub open spec fn spec_has_pair(ms: Seq<MatchedIDt>, claim_id: i32, identification_id: i32) -> bool {
    exists|k: int|
        0 <= k < ms.len() && ms[k].claim_id == claim_id && ms[k].identification_id
            == identification_id
}

/// How many match rows link the claim and the identification.
pub open spec fn spec_pair_count(ms: Seq<MatchedIDt>, claim_id: i32, identification_id: i32) -> nat
    decreases ms.len(),
{
    if ms.len() == 0 {
        0
    } else {
        spec_pair_count(ms.drop_last(), claim_id, identification_id) + if ms.last().claim_id
            == claim_id && ms.last().identification_id == identification_id {
            1nat
        } else {
            0nat
        }
    }
}

/// No two match rows link the same (claim, identification) pair.
pub open spec fn spec_pairs_unique(ms: Seq<MatchedIDt>) -> bool {
    forall|i: int, j: int|
        0 <= i < j < ms.len() ==> !(#[trigger] ms[i].claim_id == #[trigger] ms[j].claim_id
            && ms[i].identification_id == ms[j].identification_id)
}

/// The persistence rule of the match recorder: append the row unless its
/// pair is already present, in which case the table stays as it is.
pub open spec fn spec_record(ms: Seq<MatchedIDt>, m: MatchedIDt) -> Seq<MatchedIDt> {
    if spec_has_pair(ms, m.claim_id, m.identification_id) {
        ms
    } else {
        ms.push(m)
    }
}

/// Some stored identification is strictly field-equal to the submission
/// (and still unresolved): the duplicate guard's rejection condition.
pub open spec fn spec_idt_dup_exists(idts: Seq<Identification>, n: NewIdentification) -> bool {
    exists|k: int| 0 <= k < idts.len() && spec_idt_strict_eq(n, #[trigger] idts[k])
}

/// Some stored claim is strictly field-equal to the submission.
pub open spec fn spec_claim_dup_exists(
    claims: Seq<ClaimableIdentification>,
    n: NewClaimableIdt,
) -> bool {
    exists|k: int| 0 <= k < claims.len() && spec_claim_strict_eq(n, #[trigger] claims[k])
}

/// The submission with the acting user stamped as its poster.
pub open spec fn spec_stamp_idt(n: NewIdentification, user: i32) -> NewIdentification {
    NewIdentification {
        name: n.name,
        course: n.course,
        valid_from: n.valid_from,
        valid_till: n.valid_till,
        institution: n.institution,
        campus: n.campus,
        location_name: n.location_name,
        location_point: n.location_point,
        posted_by: Some(user),
        about: n.about,
    }
}

/// The stored identification a submission becomes: a fresh id, the
/// submitted fields, no picture yet, unresolved, no owner, both
/// timestamps set to the creation instant.
pub open spec fn spec_created_idt(n: NewIdentification, id: i32, now: u64) -> Identification {
    Identification {
        id,
        name: n.name,
        course: n.course,
        valid_from: n.valid_from,
        valid_till: n.valid_till,
        institution: n.institution,
        campus: n.campus,
        location_name: n.location_name,
        location_point: n.location_point,
        picture: None,
        posted_by: n.posted_by,
        is_found: false,
        created_at: now,
        updated_at: now,
        about: n.about,
        owner: None,
    }
}

/// No match row can reference an id that no stored identification
/// carries — in particular a fresh id, larger than every stored one.
proof fn lemma_no_pair_for_fresh_idt(
    ms: Seq<MatchedIDt>,
    idts: Seq<Identification>,
    fresh: i32,
)
    requires
        forall|k: int| 0 <= k < ms.len() ==> spec_has_idt(idts, (#[trigger] ms[k]).identification_id),
        forall|i: int| 0 <= i < idts.len() ==> (#[trigger] idts[i]).id != fresh,
    ensures
        forall|c: i32| !spec_has_pair(ms, c, fresh),
{
    assert forall|c: i32| !spec_has_pair(ms, c, fresh) by {
        if spec_has_pair(ms, c, fresh) {
            let k = choose|k: int|
                0 <= k < ms.len() && ms[k].claim_id == c && ms[k].identification_id == fresh;
            assert(spec_has_idt(idts, fresh));
            let j = choose|j: int| 0 <= j < idts.len() && idts[j].id == fresh;
            assert(false);
        }
    }
}

/// No match row can reference a claim id that no stored claim carries.
proof fn lemma_no_pair_for_fresh_claim(
    ms: Seq<MatchedIDt>,
    claims: Seq<ClaimableIdentification>,
    fresh: i32,
)
    requires
        forall|k: int| 0 <= k < ms.len() ==> spec_has_claim(claims, (#[trigger] ms[k]).claim_id),
        forall|i: int| 0 <= i < claims.len() ==> (#[trigger] claims[i]).id != fresh,
    ensures
        forall|i: i32| !spec_has_pair(ms, fresh, i),
{
    assert forall|i: i32| !spec_has_pair(ms, fresh, i) by {
        if spec_has_pair(ms, fresh, i) {
            let k = choose|k: int|
                0 <= k < ms.len() && ms[k].claim_id == fresh && ms[k].identification_id == i;
            assert(spec_has_claim(claims, fresh));
            let j = choose|j: int| 0 <= j < claims.len() && claims[j].id == fresh;
            assert(false);
        }
    }
}

/// Appending a row makes exactly its own pair newly present.
pub proof fn lemma_has_pair_push(ms: Seq<MatchedIDt>, m: MatchedIDt, c: i32, i: i32)
    ensures
        spec_has_pair(ms.push(m), c, i) == (spec_has_pair(ms, c, i) || (m.claim_id == c
            && m.identification_id == i)),
{
    if spec_has_pair(ms, c, i) {
        let k = choose|k: int| 0 <= k < ms.len() && ms[k].claim_id == c && ms[k].identification_id == i;
        assert(ms.push(m)[k].claim_id == c && ms.push(m)[k].identification_id == i);
    }
    if m.claim_id == c && m.identification_id == i {
        assert(ms.push(m)[ms.len() as int].claim_id == c && ms.push(m)[ms.len() as int].identification_id == i);
    }
    if spec_has_pair(ms.push(m), c, i) {
        let k = choose|k: int|
            0 <= k < ms.push(m).len() && ms.push(m)[k].claim_id == c
                && ms.push(m)[k].identification_id == i;
        if k < ms.len() {
            assert(ms[k].claim_id == c && ms[k].identification_id == i);
        }
    }
}

/// A pair is present exactly when its row count is positive.
pub proof fn lemma_pair_count_pos(ms: Seq<MatchedIDt>, c: i32, i: i32)
    ensures
        spec_has_pair(ms, c, i) <==> spec_pair_count(ms, c, i) > 0,
    decreases ms.len(),
{
    if ms.len() > 0 {
        lemma_pair_count_pos(ms.drop_last(), c, i);
        lemma_has_pair_push(ms.drop_last(), ms.last(), c, i);
        assert(ms.drop_last().push(ms.last()) =~= ms);
    }
}

/// Under pair uniqueness no pair is held by more than one row.
pub proof fn lemma_pair_count_bound(ms: Seq<MatchedIDt>, c: i32, i: i32)
    requires
        spec_pairs_unique(ms),
    ensures
        spec_pair_count(ms, c, i) <= 1,
    decreases ms.len(),
{
    if ms.len() > 0 {
        let d = ms.drop_last();
        assert(spec_pairs_unique(d)) by {
            assert forall|x: int, y: int| 0 <= x < y < d.len() implies !(#[trigger] d[x].claim_id
                == #[trigger] d[y].claim_id && d[x].identification_id == d[y].identification_id) by {
                assert(d[x] == ms[x] && d[y] == ms[y]);
            }
        }
        lemma_pair_count_bound(d, c, i);
        if ms.last().claim_id == c && ms.last().identification_id == i {
            lemma_pair_count_pos(d, c, i);
            if spec_has_pair(d, c, i) {
                let k = choose|k: int|
                    0 <= k < d.len() && d[k].claim_id == c && d[k].identification_id == i;
                assert(ms[k].claim_id == ms[ms.len() - 1].claim_id && ms[k].identification_id
                    == ms[ms.len() - 1].identification_id);
                assert(false);
            }
        }
    }
}

/// Law: recording a pair is idempotent — recording the same
/// (claim, identification) pair a second time, whatever row id or
/// timestamp the second attempt carries, leaves the table exactly as the
/// first recording left it.
pub proof fn lemma_record_idempotent(ms: Seq<MatchedIDt>, m1: MatchedIDt, m2: MatchedIDt)
    requires
        m1.claim_id == m2.claim_id,
        m1.identification_id == m2.identification_id,
    ensures
        spec_record(spec_record(ms, m1), m2) == spec_record(ms, m1),
{
    lemma_has_pair_push(ms, m1, m2.claim_id, m2.identification_id);
}

/// Law: after recording a pair into a pair-unique table, exactly one row
/// holds that pair, and the table is pair-unique again.
pub proof fn lemma_record_leaves_one_row(ms: Seq<MatchedIDt>, m: MatchedIDt)
    requires
        spec_pairs_unique(ms),
    ensures
        spec_pair_count(spec_record(ms, m), m.claim_id, m.identification_id) == 1,
        spec_pairs_unique(spec_record(ms, m)),
{
    let c = m.claim_id;
    let i = m.identification_id;
    lemma_pair_count_bound(ms, c, i);
    lemma_pair_count_pos(ms, c, i);
    if spec_has_pair(ms, c, i) {
    } else {
        let out = ms.push(m);
        assert(out.drop_last() =~= ms);
        lemma_pair_count_pos(out, c, i);
        assert(spec_pairs_unique(out)) by {
            assert forall|x: int, y: int|
                0 <= x < y < out.len() implies !(#[trigger] out[x].claim_id
                == #[trigger] out[y].claim_id && out[x].identification_id
                == out[y].identification_id) by {
                if y < ms.len() {
                    assert(out[x] == ms[x] && out[y] == ms[y]);
                } else {
                    assert(out[y] == m && out[x] == ms[x]);
                    if out[x].claim_id == c && out[x].identification_id == i {
                        assert(spec_has_pair(ms, c, i));
                        assert(false);
                    }
                }
            }
        }
        lemma_pair_count_bound(out, c, i);
        assert(spec_pair_count(out, c, i) > 0);
    }
}

/// The in-memory registry: the stored records, the match table and the
/// id counters.
pub struct Registry {
    pub idts: Vec<Identification>,
    pub claims: Vec<ClaimableIdentification>,
    pub matches: Vec<MatchedIDt>,
    pub next_idt_id: i32,
    pub next_claim_id: i32,
    pub next_match_id: i64,
}

impl Registry {
    /// The registry invariant: ids are unique and below their counters,
    /// each user holds at most one claim, match rows are pair-unique and
    /// reference stored records, and every stored text field obeys the
    /// validation rules (in particular its length, which keeps the exact
    /// comparator applicable).
    pub open spec fn wf(self) -> bool {
        &&& forall|i: int, j: int|
            0 <= i < j < self.idts@.len() ==> (#[trigger] self.idts@[i].id) != (
            #[trigger] self.idts@[j].id)
        &&& forall|i: int, j: int|
            0 <= i < j < self.claims@.len() ==> (#[trigger] self.claims@[i].id) != (
            #[trigger] self.claims@[j].id)
        &&& forall|i: int, j: int|
            0 <= i < j < self.claims@.len() ==> (#[trigger] self.claims@[i].user_id) != (
            #[trigger] self.claims@[j].user_id)
        &&& spec_pairs_unique(self.matches@)
        &&& forall|i: int|
            0 <= i < self.idts@.len() ==> (#[trigger] self.idts@[i].id) < self.next_idt_id
        &&& forall|i: int|
            0 <= i < self.claims@.len() ==> (#[trigger] self.claims@[i].id) < self.next_claim_id
        &&& forall|i: int| 0 <= i < self.idts@.len() ==> crate::models::spec_idt_wf(#[trigger] self.idts@[i])
        &&& forall|i: int|
            0 <= i < self.claims@.len() ==> crate::models::spec_claim_wf(#[trigger] self.claims@[i])
        &&& forall|k: int|
            0 <= k < self.matches@.len() ==> spec_has_idt(
                self.idts@,
                (#[trigger] self.matches@[k]).identification_id,
            ) && spec_has_claim(self.claims@, self.matches@[k].claim_id)
    }

    /// An empty registry.
    pub fn new() -> (r: Registry)
        ensures
            r.wf(),
            r.idts@.len() == 0,
            r.claims@.len() == 0,
            r.matches@.len() == 0,
            r.next_idt_id == 1,
            r.next_claim_id == 1,
            r.next_match_id == 1,
    {
        Registry {
            idts: Vec::new(),
            claims: Vec::new(),
            matches: Vec::new(),
            next_idt_id: 1,
            next_claim_id: 1,
            next_match_id: 1,
        }
    }

    /// Inserts a (claim, identification) pair into the match table under
    /// the pair-uniqueness rule: when the pair is already recorded the
    /// call succeeds without touching the table and reports that nothing
    /// was inserted.  Callers fire a notification only on `true`.
    pub fn record_match(&mut self, claim_id: i32, identification_id: i32, now: u64) -> (inserted:
        bool)
        requires
            old(self).wf(),
            spec_has_claim(old(self).claims@, claim_id),
            spec_has_idt(old(self).idts@, identification_id),
        ensures
            final(self).wf(),
            final(self).idts@ == old(self).idts@,
            final(self).claims@ == old(self).claims@,
            final(self).next_idt_id == old(self).next_idt_id,
            final(self).next_claim_id == old(self).next_claim_id,
            inserted == !spec_has_pair(old(self).matches@, claim_id, identification_id),
            final(self).matches@ == spec_record(
                old(self).matches@,
                MatchedIDt {
                    id: old(self).next_match_id,
                    claim_id,
                    identification_id,
                    created_at: now,
                },
            ),
            spec_has_pair(final(self).matches@, claim_id, identification_id),
            !inserted ==> *final(self) == *old(self),
    {
        let n = self.matches.len();
        let mut k: usize = 0;
        while k < n
            invariant
                *self == *old(self),
                old(self).wf(),
                n == self.matches@.len(),
                k <= n,
                forall|j: int|
                    0 <= j < k ==> !((#[trigger] self.matches@[j]).claim_id == claim_id
                        && self.matches@[j].identification_id == identification_id),
            decreases n - k,
        {
            if self.matches[k].claim_id == claim_id && self.matches[k].identification_id
                == identification_id {
                return false;
            }
            k = k + 1;
        }
        let m = MatchedIDt { id: self.next_match_id, claim_id, identification_id, created_at: now };
        proof {
            assert(!spec_has_pair(self.matches@, claim_id, identification_id));
            lemma_has_pair_push(self.matches@, m, claim_id, identification_id);
        }
        self.matches.push(m);
        if self.next_match_id < i64::MAX {
            self.next_match_id = self.next_match_id + 1;
        }
        proof {
            let ms = old(self).matches@;
            let out = self.matches@;
            assert(out == ms.push(m));
            assert forall|x: int, y: int| 0 <= x < y < out.len() implies !(#[trigger] out[x].claim_id
                == #[trigger] out[y].claim_id && out[x].identification_id
                == out[y].identification_id) by {
                if y < ms.len() {
                    assert(out[x] == ms[x] && out[y] == ms[y]);
                } else {
                    assert(out[y] == m && out[x] == ms[x]);
                }
            }
        }
        true
    }

    /// Whether the user already holds a claim.  Users make one claim,
    /// which they then edit.
    pub fn has_claim(&self, user_id: i32) -> (r: bool)
        ensures
            r == spec_user_has_claim(self.claims@, user_id),
    {
        let n = self.claims.len();
        let mut k: usize = 0;
        while k < n
            invariant
                n == self.claims@.len(),
                k <= n,
                forall|j: int| 0 <= j < k ==> (#[trigger] self.claims@[j]).user_id != user_id,
            decreases n - k,
        {
            if self.claims[k].user_id == user_id {
                return true;
            }
            k = k + 1;
        }
        false
    }

    /// Finds the stored claims that are possible matches to the given
    /// identification and records a match row for each, idempotently.
    ///
    /// Candidates are scoped to the identification's institution; a claim
    /// naming a campus is compared only against that campus, a claim with
    /// no campus against the whole institution.
    pub fn match_claims(&mut self, idt: &Identification, now: u64)
        requires
            old(self).wf(),
            spec_has_idt(old(self).idts@, idt.id),
            spec_idt_wf(*idt),
        ensures
            final(self).wf(),
            final(self).idts@ == old(self).idts@,
            final(self).claims@ == old(self).claims@,
            final(self).next_idt_id == old(self).next_idt_id,
            final(self).next_claim_id == old(self).next_claim_id,
            forall|c: i32|
                spec_has_pair(final(self).matches@, c, idt.id) <==> (spec_has_pair(
                    old(self).matches@,
                    c,
                    idt.id,
                ) || exists|k: int|
                    0 <= k < old(self).claims@.len() && (#[trigger] old(self).claims@[k]).id == c
                        && spec_claim_match_for_idt(old(self).claims@[k], *idt)),
            forall|c: i32, i: i32|
                i != idt.id ==> spec_has_pair(final(self).matches@, c, i) == spec_has_pair(
                    old(self).matches@,
                    c,
                    i,
                ),
            old(self).matches@.is_prefix_of(final(self).matches@),
            forall|j: int|
                old(self).matches@.len() <= j < final(self).matches@.len() ==> (
                #[trigger] final(self).matches@[j]).identification_id == idt.id
                    && final(self).matches@[j].created_at == now,
    {
        let n = self.claims.len();
        let mut ci: usize = 0;
        while ci < n
            invariant
                self.wf(),
                n == self.claims@.len(),
                ci <= n,
                self.idts@ == old(self).idts@,
                self.claims@ == old(self).claims@,
                self.next_idt_id == old(self).next_idt_id,
                self.next_claim_id == old(self).next_claim_id,
                spec_has_idt(self.idts@, idt.id),
                spec_idt_wf(*idt),
                forall|c: i32|
                    spec_has_pair(self.matches@, c, idt.id) <==> (spec_has_pair(
                        old(self).matches@,
                        c,
                        idt.id,
                    ) || exists|k: int|
                        0 <= k < ci && (#[trigger] self.claims@[k]).id == c
                            && spec_claim_match_for_idt(self.claims@[k], *idt)),
                forall|c: i32, i: i32|
                    i != idt.id ==> spec_has_pair(self.matches@, c, i) == spec_has_pair(
                        old(self).matches@,
                        c,
                        i,
                    ),
                old(self).matches@.is_prefix_of(self.matches@),
                forall|j: int|
                    old(self).matches@.len() <= j < self.matches@.len() ==> (
                    #[trigger] self.matches@[j]).identification_id == idt.id
                        && self.matches@[j].created_at == now,
            decreases n - ci,
        {
            proof {
                assert(spec_claim_wf(self.claims@[ci as int]));
            }
            let scope_ok = claim_scope_matches(&self.claims[ci], &idt.institution, &idt.campus);
            let matched = if scope_ok {
                is_matching_idt(&self.claims[ci], idt)
            } else {
                false
            };
            proof {
                assert(matched == spec_claim_match_for_idt(self.claims@[ci as int], *idt));
            }
            if matched {
                let cid = self.claims[ci].id;
                proof {
                    assert(spec_has_claim(self.claims@, cid));
                }
                let ghost pre = self.matches@;
                let ghost base = old(self).matches@;
                let _inserted = self.record_match(cid, idt.id, now);
                proof {
                    assert forall|c: i32, i: i32|
                        spec_has_pair(self.matches@, c, i) == (spec_has_pair(pre, c, i) || (c
                            == cid && i == idt.id)) by {
                        if !spec_has_pair(pre, cid, idt.id) {
                            lemma_has_pair_push(pre, self.matches@.last(), c, i);
                            assert(pre.push(self.matches@.last()) =~= self.matches@);
                        }
                    }
                    assert forall|j: int| 0 <= j < pre.len() implies self.matches@[j] == pre[j] by {
                        if !spec_has_pair(pre, cid, idt.id) {
                            assert(self.matches@ == pre.push(self.matches@.last()));
                        }
                    }
                    assert(base.is_prefix_of(self.matches@)) by {
                        assert forall|j: int| 0 <= j < base.len() implies self.matches@[j]
                            == base[j] by {
                            assert(base[j] == pre.subrange(0, base.len() as int)[j]);
                        }
                        assert(self.matches@.subrange(0, base.len() as int) =~= base);
                    }
                    assert forall|j: int|
                        base.len() <= j < self.matches@.len() implies (
                        #[trigger] self.matches@[j]).identification_id == idt.id
                            && self.matches@[j].created_at == now by {
                        if j < pre.len() {
                            assert(self.matches@[j] == pre[j]);
                        }
                    }
                    lemma_step_iff(base, pre, self.matches@, self.claims@, ci as int, *idt, cid);
                }
            }
            let ghost prev_ci = ci as int;
            ci = ci + 1;
            proof {
                if !matched {
                    lemma_skip_iff(old(self).matches@, self.matches@, self.claims@, prev_ci, *idt);
                }
            }
        }
    }

    /// Matches stored identifications against the given claim and records
    /// a match row for each hit, idempotently.
    ///
    /// Candidates are scoped to the claim's institution (and campus, when
    /// the claim names one) and to identifications not yet resolved.
    pub fn match_idt(&mut self, cl: &ClaimableIdentification, now: u64)
        requires
            old(self).wf(),
            spec_has_claim(old(self).claims@, cl.id),
            spec_claim_wf(*cl),
        ensures
            final(self).wf(),
            final(self).idts@ == old(self).idts@,
            final(self).claims@ == old(self).claims@,
            final(self).next_idt_id == old(self).next_idt_id,
            final(self).next_claim_id == old(self).next_claim_id,
            forall|i: i32|
                spec_has_pair(final(self).matches@, cl.id, i) <==> (spec_has_pair(
                    old(self).matches@,
                    cl.id,
                    i,
                ) || exists|k: int|
                    0 <= k < old(self).idts@.len() && (#[trigger] old(self).idts@[k]).id == i
                        && spec_idt_match_for_claim(old(self).idts@[k], *cl)),
            forall|c: i32, i: i32|
                c != cl.id ==> spec_has_pair(final(self).matches@, c, i) == spec_has_pair(
                    old(self).matches@,
                    c,
                    i,
                ),
            old(self).matches@.is_prefix_of(final(self).matches@),
            forall|j: int|
                old(self).matches@.len() <= j < final(self).matches@.len() ==> (
                #[trigger] final(self).matches@[j]).claim_id == cl.id
                    && final(self).matches@[j].created_at == now,
    {
        let n = self.idts.len();
        let mut ii: usize = 0;
        while ii < n
            invariant
                self.wf(),
                n == self.idts@.len(),
                ii <= n,
                self.idts@ == old(self).idts@,
                self.claims@ == old(self).claims@,
                self.next_idt_id == old(self).next_idt_id,
                self.next_claim_id == old(self).next_claim_id,
                spec_has_claim(self.claims@, cl.id),
                spec_claim_wf(*cl),
                forall|i: i32|
                    spec_has_pair(self.matches@, cl.id, i) <==> (spec_has_pair(
                        old(self).matches@,
                        cl.id,
                        i,
                    ) || exists|k: int|
                        0 <= k < ii && (#[trigger] self.idts@[k]).id == i
                            && spec_idt_match_for_claim(self.idts@[k], *cl)),
                forall|c: i32, i: i32|
                    c != cl.id ==> spec_has_pair(self.matches@, c, i) == spec_has_pair(
                        old(self).matches@,
                        c,
                        i,
                    ),
                old(self).matches@.is_prefix_of(self.matches@),
                forall|j: int|
                    old(self).matches@.len() <= j < self.matches@.len() ==> (
                    #[trigger] self.matches@[j]).claim_id == cl.id && self.matches@[j].created_at
                        == now,
            decreases n - ii,
        {
            proof {
                assert(spec_idt_wf(self.idts@[ii as int]));
            }
            let scope_ok = claim_scope_matches(cl, &self.idts[ii].institution, &self.idts[ii].campus)
                && !self.idts[ii].is_found;
            let matched = if scope_ok {
                is_matching_idt(cl, &self.idts[ii])
            } else {
                false
            };
            proof {
                assert(matched == spec_idt_match_for_claim(self.idts@[ii as int], *cl));
            }
            if matched {
                let iid = self.idts[ii].id;
                proof {
                    assert(spec_has_idt(self.idts@, iid));
                }
                let ghost pre = self.matches@;
                let ghost base = old(self).matches@;
                let _inserted = self.record_match(cl.id, iid, now);
                proof {
                    assert forall|c: i32, i: i32|
                        spec_has_pair(self.matches@, c, i) == (spec_has_pair(pre, c, i) || (c
                            == cl.id && i == iid)) by {
                        if !spec_has_pair(pre, cl.id, iid) {
                            lemma_has_pair_push(pre, self.matches@.last(), c, i);
                            assert(pre.push(self.matches@.last()) =~= self.matches@);
                        }
                    }
                    assert forall|j: int| 0 <= j < pre.len() implies self.matches@[j] == pre[j] by {
                        if !spec_has_pair(pre, cl.id, iid) {
                            assert(self.matches@ == pre.push(self.matches@.last()));
                        }
                    }
                    assert(base.is_prefix_of(self.matches@)) by {
                        assert forall|j: int| 0 <= j < base.len() implies self.matches@[j]
                            == base[j] by {
                            assert(base[j] == pre.subrange(0, base.len() as int)[j]);
                        }
                        assert(self.matches@.subrange(0, base.len() as int) =~= base);
                    }
                    assert forall|j: int|
                        base.len() <= j < self.matches@.len() implies (
                        #[trigger] self.matches@[j]).claim_id == cl.id
                            && self.matches@[j].created_at == now by {
                        if j < pre.len() {
                            assert(self.matches@[j] == pre[j]);
                        }
                    }
                    lemma_step_iff_claim(base, pre, self.matches@, self.idts@, ii as int, *cl, iid);
                }
            }
            let ghost prev_ii = ii as int;
            ii = ii + 1;
            proof {
                if !matched {
                    lemma_skip_iff_claim(old(self).matches@, self.matches@, self.idts@, prev_ii, *cl);
                }
            }
        }
    }

    /// Saves a new identification submitted by `acting_user` and runs the
    /// matching pass over the stored claims.
    ///
    /// The submission is validated, then the duplicate guard looks for a
    /// stored identification strictly field-equal to it that is still
    /// unresolved; such a submission is rejected as a conflict ("already
    /// reported, not yet resolved").  On success the record is stored
    /// under a fresh id and every claim inside the candidate scope that
    /// reaches the acceptance threshold gets a match row, idempotently.
    #[verifier::loop_isolation(false)]
    pub fn create_identification(
        &mut self,
        data: NewIdentification,
        acting_user: i32,
        now: u64,
    ) -> (r: Result<Identification, ResError>)
        requires
            old(self).wf(),
        ensures
            final(self).wf(),
            ({
                let stamped = spec_stamp_idt(data, acting_user);
                match r {
                    Ok(idt) => {
                        &&& spec_new_idt_valid(stamped)
                        &&& !spec_idt_dup_exists(old(self).idts@, stamped)
                        &&& old(self).next_idt_id < i32::MAX
                        &&& idt == spec_created_idt(stamped, old(self).next_idt_id, now)
                        &&& final(self).idts@ == old(self).idts@.push(idt)
                        &&& final(self).claims@ == old(self).claims@
                        &&& final(self).next_idt_id == old(self).next_idt_id + 1
                        &&& final(self).next_claim_id == old(self).next_claim_id
                        &&& forall|c: i32|
                            spec_has_pair(final(self).matches@, c, idt.id) <==> exists|k: int|
                                0 <= k < old(self).claims@.len() && (
                                #[trigger] old(self).claims@[k]).id == c
                                    && spec_claim_match_for_idt(old(self).claims@[k], idt)
                        &&& forall|c: i32, i: i32|
                            i != idt.id ==> spec_has_pair(final(self).matches@, c, i)
                                == spec_has_pair(old(self).matches@, c, i)
                        &&& old(self).matches@.is_prefix_of(final(self).matches@)
                        &&& forall|j: int|
                            old(self).matches@.len() <= j < final(self).matches@.len() ==> (
                            #[trigger] final(self).matches@[j]).identification_id == idt.id
                                && final(self).matches@[j].created_at == now
                    },
                    Err(e) => {
                        &&& *final(self) == *old(self)
                        &&& (e.status == 400 || e.status == 409 || e.status == 500)
                        &&& (e.status == 400 <==> !spec_new_idt_valid(stamped))
                        &&& (e.status == 409 <==> spec_new_idt_valid(stamped)
                            && spec_idt_dup_exists(old(self).idts@, stamped))
                        &&& (e.status == 500 <==> spec_new_idt_valid(stamped)
                            && !spec_idt_dup_exists(old(self).idts@, stamped)
                            && old(self).next_idt_id == i32::MAX)
                    },
                }
            }),
    {
        let ghost orig = data;
        let mut data = data;
        data.posted_by = Some(acting_user);
        proof {
            assert(data == spec_stamp_idt(orig, acting_user));
        }
        if !new_idt_valid(&data) {
            return Err(
                ResError::new(String::from_str("Invalid identification field given"), 400),
            );
        }
        let n = self.idts.len();
        let mut k: usize = 0;
        while k < n
            invariant
                *self == *old(self),
                old(self).wf(),
                data == spec_stamp_idt(orig, acting_user),
                spec_new_idt_valid(data),
                n == self.idts@.len(),
                k <= n,
                forall|j: int| 0 <= j < k ==> !spec_idt_strict_eq(data, #[trigger] self.idts@[j]),
            decreases n - k,
        {
            if idt_strict_eq(&data, &self.idts[k]) {
                proof {
                    assert(spec_idt_strict_eq(data, self.idts@[k as int]));
                    assert(spec_idt_dup_exists(old(self).idts@, data));
                }
                return Err(
                    ResError::new(
                        String::from_str(
                            "You seem to have saved an Identification matching these details",
                        ),
                        409,
                    ),
                );
            }
            k = k + 1;
        }
        if self.next_idt_id == i32::MAX {
            return Err(ResError::new(String::from_str("Identification id space exhausted"), 500));
        }
        let id = self.next_idt_id;
        self.next_idt_id = id + 1;
        let idt = Identification {
            id,
            name: data.name,
            course: data.course,
            valid_from: data.valid_from,
            valid_till: data.valid_till,
            institution: data.institution,
            campus: data.campus,
            location_name: data.location_name,
            location_point: data.location_point,
            picture: None,
            posted_by: data.posted_by,
            is_found: false,
            created_at: now,
            updated_at: now,
            about: data.about,
            owner: None,
        };
        let ret = clone_identification(&idt);
        proof {
            assert(idt == spec_created_idt(spec_stamp_idt(orig, acting_user), old(self).next_idt_id, now));
        }
        self.idts.push(idt);
        proof {
            let idts = self.idts@;
            let prev = old(self).idts@;
            assert(self.wf()) by {
                assert forall|a: int, b: int| 0 <= a < b < idts.len() implies (
                #[trigger] idts[a]).id != (#[trigger] idts[b]).id by {
                    if b < prev.len() {
                        assert(idts[a] == prev[a] && idts[b] == prev[b]);
                    } else {
                        assert(idts[a] == prev[a]);
                    }
                }
                assert forall|m: int| 0 <= m < self.matches@.len() implies spec_has_idt(
                    idts,
                    (#[trigger] self.matches@[m]).identification_id,
                ) && spec_has_claim(self.claims@, self.matches@[m].claim_id) by {
                    let t = choose|t: int|
                        0 <= t < prev.len() && prev[t].id == self.matches@[m].identification_id;
                    assert(idts[t].id == self.matches@[m].identification_id);
                }
            }
            lemma_no_pair_for_fresh_idt(self.matches@, prev, id);
            assert(spec_has_idt(idts, ret.id)) by {
                assert(idts[prev.len() as int].id == ret.id);
            }
        }
        self.match_claims(&ret, now);
        Ok(ret)
    }

    /// Saves a new claim made by `acting_user` and runs the matching pass
    /// over the stored identifications.
    ///
    /// Users hold at most one claim: a second submission is rejected as a
    /// conflict whatever its fields say.  The submission is validated and
    /// the duplicate guard looks for a stored claim strictly field-equal
    /// to it.  On success the claim is stored under a fresh id and every
    /// unresolved identification inside the candidate scope that reaches
    /// the acceptance threshold gets a match row, idempotently.
    pub fn create_claim(&mut self, data: NewClaimableIdt, acting_user: i32, now: u64) -> (r: Result<
        ClaimableIdentification,
        ResError,
    >)
        requires
            old(self).wf(),
        ensures
            final(self).wf(),
            match r {
                Ok(cl) => {
                    &&& spec_new_claim_valid(data)
                    &&& !spec_user_has_claim(old(self).claims@, acting_user)
                    &&& !spec_claim_dup_exists(old(self).claims@, data)
                    &&& old(self).next_claim_id < i32::MAX
                    &&& cl.id == old(self).next_claim_id
                    &&& cl.user_id == acting_user
                    &&& cl.name@ == data.name@
                    &&& cl.course@ == (match data.course {
                        Some(c) => c@,
                        None => Seq::<char>::empty(),
                    })
                    &&& cl.entry_year == data.entry_year
                    &&& cl.graduation_year == data.graduation_year
                    &&& cl.institution@ == data.institution@
                    &&& cl.campus_location@ == (match data.campus_location {
                        Some(c) => c@,
                        None => Seq::<char>::empty(),
                    })
                    &&& cl.created_at == now
                    &&& cl.updated_at == now
                    &&& final(self).claims@ == old(self).claims@.push(cl)
                    &&& final(self).idts@ == old(self).idts@
                    &&& final(self).next_claim_id == old(self).next_claim_id + 1
                    &&& final(self).next_idt_id == old(self).next_idt_id
                    &&& forall|i: i32|
                        spec_has_pair(final(self).matches@, cl.id, i) <==> exists|k: int|
                            0 <= k < old(self).idts@.len() && (#[trigger] old(self).idts@[k]).id
                                == i && spec_idt_match_for_claim(old(self).idts@[k], cl)
                    &&& forall|c: i32, i: i32|
                        c != cl.id ==> spec_has_pair(final(self).matches@, c, i) == spec_has_pair(
                            old(self).matches@,
                            c,
                            i,
                        )
                    &&& old(self).matches@.is_prefix_of(final(self).matches@)
                    &&& forall|j: int|
                        old(self).matches@.len() <= j < final(self).matches@.len() ==> (
                        #[trigger] final(self).matches@[j]).claim_id == cl.id
                            && final(self).matches@[j].created_at == now
                },
                Err(e) => {
                    &&& *final(self) == *old(self)
                    &&& (e.status == 400 || e.status == 409 || e.status == 500)
                    &&& (e.status == 400 <==> !spec_new_claim_valid(data))
                    &&& (e.status == 409 <==> spec_new_claim_valid(data) && (spec_user_has_claim(
                        old(self).claims@,
                        acting_user,
                    ) || spec_claim_dup_exists(old(self).claims@, data)))
                    &&& (e.status == 500 <==> spec_new_claim_valid(data) && !spec_user_has_claim(
                        old(self).claims@,
                        acting_user,
                    ) && !spec_claim_dup_exists(old(self).claims@, data) && old(self).next_claim_id
                        == i32::MAX)
                },
            },
    {
        if !new_claim_valid(&data) {
            return Err(ResError::new(String::from_str("Invalid claim field given"), 400));
        }
        if self.has_claim(acting_user) {
            return Err(
                ResError::new(String::from_str("Dude, you created a claim some while back"), 409),
            );
        }
        let n = self.claims.len();
        let mut k: usize = 0;
        while k < n
            invariant
                *self == *old(self),
                old(self).wf(),
                spec_new_claim_valid(data),
                !spec_user_has_claim(old(self).claims@, acting_user),
                n == self.claims@.len(),
                k <= n,
                forall|j: int| 0 <= j < k ==> !spec_claim_strict_eq(data, #[trigger] self.claims@[j]),
            decreases n - k,
        {
            if claim_strict_eq(&data, &self.claims[k]) {
                proof {
                    assert(spec_claim_strict_eq(data, self.claims@[k as int]));
                    assert(spec_claim_dup_exists(old(self).claims@, data));
                }
                return Err(
                    ResError::new(
                        String::from_str("A similar Identification claim seems to exist"),
                        409,
                    ),
                );
            }
            k = k + 1;
        }
        if self.next_claim_id == i32::MAX {
            return Err(ResError::new(String::from_str("Claim id space exhausted"), 500));
        }
        let id = self.next_claim_id;
        self.next_claim_id = id + 1;
        let course: String = match data.course {
            Some(c) => c,
            None => String::new(),
        };
        let campus_location: String = match data.campus_location {
            Some(c) => c,
            None => String::new(),
        };
        let cl = ClaimableIdentification {
            id,
            user_id: acting_user,
            name: data.name,
            course,
            entry_year: data.entry_year,
            graduation_year: data.graduation_year,
            institution: data.institution,
            campus_location,
            created_at: now,
            updated_at: now,
        };
        let ret = clone_claim(&cl);
        self.claims.push(cl);
        proof {
            let claims = self.claims@;
            let prev = old(self).claims@;
            assert(self.wf()) by {
                assert forall|a: int, b: int| 0 <= a < b < claims.len() implies (
                #[trigger] claims[a]).id != (#[trigger] claims[b]).id by {
                    if b < prev.len() {
                        assert(claims[a] == prev[a] && claims[b] == prev[b]);
                    } else {
                        assert(claims[a] == prev[a]);
                    }
                }
                assert forall|a: int, b: int| 0 <= a < b < claims.len() implies (
                #[trigger] claims[a]).user_id != (#[trigger] claims[b]).user_id by {
                    if b < prev.len() {
                        assert(claims[a] == prev[a] && claims[b] == prev[b]);
                    } else {
                        assert(claims[a] == prev[a]);
                        if claims[a].user_id == acting_user {
                            assert(spec_user_has_claim(prev, acting_user));
                        }
                    }
                }
                assert forall|m: int| 0 <= m < self.matches@.len() implies spec_has_idt(
                    self.idts@,
                    (#[trigger] self.matches@[m]).identification_id,
                ) && spec_has_claim(claims, self.matches@[m].claim_id) by {
                    let t = choose|t: int|
                        0 <= t < prev.len() && prev[t].id == self.matches@[m].claim_id;
                    assert(claims[t].id == self.matches@[m].claim_id);
                }
            }
            lemma_no_pair_for_fresh_claim(self.matches@, prev, id);
            assert(spec_has_claim(claims, ret.id)) by {
                assert(claims[prev.len() as int].id == ret.id);
            }
        }
        self.match_idt(&ret, now);
        Ok(ret)
    }

    /// Marks the identification matching the given key as found.
    ///
    /// Double-resolving is an explicit error, not a no-op: a record whose
    /// found flag is already set is rejected as a conflict.  This call
    /// only flips the flag; [`Registry::mark_resolved`] also clears the
    /// match rows.
    pub fn mark_found(&mut self, pk: i32) -> (r: Result<Identification, ResError>)
        requires
            old(self).wf(),
        ensures
            final(self).wf(),
            final(self).claims@ == old(self).claims@,
            final(self).matches@ == old(self).matches@,
            final(self).next_idt_id == old(self).next_idt_id,
            final(self).next_claim_id == old(self).next_claim_id,
            final(self).next_match_id == old(self).next_match_id,
            match r {
                Ok(idt) => exists|k: int|
                    0 <= k < old(self).idts@.len() && (#[trigger] old(self).idts@[k]).id == pk
                        && !old(self).idts@[k].is_found && idt == crate::models::spec_with_found(
                        old(self).idts@[k],
                        true,
                    ) && final(self).idts@ == old(self).idts@.update(k, idt),
                Err(e) => {
                    &&& *final(self) == *old(self)
                    &&& (e.status == 404 || e.status == 409)
                    &&& (e.status == 404 <==> !spec_has_idt(old(self).idts@, pk))
                    &&& (e.status == 409 <==> exists|k: int|
                        0 <= k < old(self).idts@.len() && (#[trigger] old(self).idts@[k]).id == pk
                            && old(self).idts@[k].is_found)
                },
            },
    {
        self.set_found_flag(pk, true)
    }

    /// Marks the identification matching the given key as NOT found,
    /// reopening it for matching.  Reopening a record that is already
    /// open is rejected as a conflict, symmetrically to
    /// [`Registry::mark_found`].
    pub fn is_lost(&mut self, pk: i32) -> (r: Result<Identification, ResError>)
        requires
            old(self).wf(),
        ensures
            final(self).wf(),
            final(self).claims@ == old(self).claims@,
            final(self).matches@ == old(self).matches@,
            final(self).next_idt_id == old(self).next_idt_id,
            final(self).next_claim_id == old(self).next_claim_id,
            final(self).next_match_id == old(self).next_match_id,
            match r {
                Ok(idt) => exists|k: int|
                    0 <= k < old(self).idts@.len() && (#[trigger] old(self).idts@[k]).id == pk
                        && old(self).idts@[k].is_found && idt == crate::models::spec_with_found(
                        old(self).idts@[k],
                        false,
                    ) && final(self).idts@ == old(self).idts@.update(k, idt),
                Err(e) => {
                    &&& *final(self) == *old(self)
                    &&& (e.status == 404 || e.status == 409)
                    &&& (e.status == 404 <==> !spec_has_idt(old(self).idts@, pk))
                    &&& (e.status == 409 <==> exists|k: int|
                        0 <= k < old(self).idts@.len() && (#[trigger] old(self).idts@[k]).id == pk
                            && !old(self).idts@[k].is_found)
                },
            },
    {
        self.set_found_flag(pk, false)
    }

    /// Sets the found flag of the identification matching the key to
    /// `target`, rejecting a toggle to the value already held.
    fn set_found_flag(&mut self, pk: i32, target: bool) -> (r: Result<Identification, ResError>)
        requires
            old(self).wf(),
        ensures
            final(self).wf(),
            final(self).claims@ == old(self).claims@,
            final(self).matches@ == old(self).matches@,
            final(self).next_idt_id == old(self).next_idt_id,
            final(self).next_claim_id == old(self).next_claim_id,
            final(self).next_match_id == old(self).next_match_id,
            match r {
                Ok(idt) => exists|k: int|
                    0 <= k < old(self).idts@.len() && (#[trigger] old(self).idts@[k]).id == pk
                        && old(self).idts@[k].is_found != target && idt
                        == crate::models::spec_with_found(old(self).idts@[k], target)
                        && final(self).idts@ == old(self).idts@.update(k, idt),
                Err(e) => {
                    &&& *final(self) == *old(self)
                    &&& (e.status == 404 || e.status == 409)
                    &&& (e.status == 404 <==> !spec_has_idt(old(self).idts@, pk))
                    &&& (e.status == 409 <==> exists|k: int|
                        0 <= k < old(self).idts@.len() && (#[trigger] old(self).idts@[k]).id == pk
                            && old(self).idts@[k].is_found == target)
                },
            },
    {
        let n = self.idts.len();
        let mut k: usize = 0;
        while k < n
            invariant
                *self == *old(self),
                old(self).wf(),
                n == self.idts@.len(),
                k <= n,
                forall|j: int| 0 <= j < k ==> (#[trigger] self.idts@[j]).id != pk,
            decreases n - k,
        {
            if self.idts[k].id == pk {
                if self.idts[k].is_found == target {
                    let msg = if target {
                        String::from_str("Identification found status is True")
                    } else {
                        String::from_str("Identification found status already False")
                    };
                    return Err(ResError::new(msg, 409));
                }
                let mut updated = clone_identification(&self.idts[k]);
                updated.is_found = target;
                let ret = clone_identification(&updated);
                proof {
                    assert(updated == crate::models::spec_with_found(
                        old(self).idts@[k as int],
                        target,
                    ));
                }
                self.idts.set(k, updated);
                proof {
                    let idts = self.idts@;
                    let prev = old(self).idts@;
                    assert forall|m: int| 0 <= m < self.matches@.len() implies spec_has_idt(
                        idts,
                        (#[trigger] self.matches@[m]).identification_id,
                    ) && spec_has_claim(self.claims@, self.matches@[m].claim_id) by {
                        let t = choose|t: int|
                            0 <= t < prev.len() && prev[t].id
                                == self.matches@[m].identification_id;
                        assert(idts[t].id == self.matches@[m].identification_id);
                    }
                }
                return Ok(ret);
            }
            k = k + 1;
        }
        Err(ResError::not_found())
    }

    /// Removes the match rows of the identification with the given key.
    ///
    /// This is meant to be called once an identification has been
    /// resolved, when its matches are no longer actionable.
    pub fn remove_found_claims(&mut self, key: i32)
        requires
            old(self).wf(),
        ensures
            final(self).wf(),
            final(self).idts@ == old(self).idts@,
            final(self).claims@ == old(self).claims@,
            final(self).next_idt_id == old(self).next_idt_id,
            final(self).next_claim_id == old(self).next_claim_id,
            final(self).next_match_id == old(self).next_match_id,
            final(self).matches@ == spec_remove_idt_matches(old(self).matches@, key),
            forall|c: i32| !spec_has_pair(final(self).matches@, c, key),
            forall|c: i32, i: i32|
                i != key ==> spec_has_pair(final(self).matches@, c, i) == spec_has_pair(
                    old(self).matches@,
                    c,
                    i,
                ),
    {
        let n = self.matches.len();
        let mut kept: Vec<MatchedIDt> = Vec::new();
        let mut j: usize = 0;
        while j < n
            invariant
                *self == *old(self),
                old(self).wf(),
                n == self.matches@.len(),
                j <= n,
                kept@ == spec_remove_idt_matches(self.matches@.take(j as int), key),
            decreases n - j,
        {
            proof {
                assert(self.matches@.take(j + 1).drop_last() =~= self.matches@.take(j as int));
                assert(self.matches@.take(j + 1).last() == self.matches@[j as int]);
            }
            if self.matches[j].identification_id != key {
                kept.push(self.matches[j]);
            }
            j = j + 1;
        }
        proof {
            assert(self.matches@.take(n as int) =~= self.matches@);
        }
        self.matches = kept;
        proof {
            let prev = old(self).matches@;
            let out = self.matches@;
            lemma_remove_props(prev, key);
            lemma_remove_unique(prev, key);
            assert forall|m: int| 0 <= m < out.len() implies spec_has_idt(
                self.idts@,
                (#[trigger] out[m]).identification_id,
            ) && spec_has_claim(self.claims@, out[m].claim_id) by {
                let t = choose|t: int| 0 <= t < prev.len() && out[m] == prev[t];
                assert(spec_has_idt(self.idts@, prev[t].identification_id));
            }
        }
    }

    /// Marks the identification as resolved and deletes every match row
    /// referencing it: matches against a resolved record are moot.
    /// Resolving twice is rejected as a conflict, both times after the
    /// first, and a rejected call changes nothing.
    pub fn mark_resolved(&mut self, pk: i32) -> (r: Result<Identification, ResError>)
        requires
            old(self).wf(),
        ensures
            final(self).wf(),
            final(self).claims@ == old(self).claims@,
            final(self).next_idt_id == old(self).next_idt_id,
            final(self).next_claim_id == old(self).next_claim_id,
            final(self).next_match_id == old(self).next_match_id,
            match r {
                Ok(idt) => {
                    &&& exists|k: int|
                        0 <= k < old(self).idts@.len() && (#[trigger] old(self).idts@[k]).id == pk
                            && !old(self).idts@[k].is_found && idt
                            == crate::models::spec_with_found(old(self).idts@[k], true)
                            && final(self).idts@ == old(self).idts@.update(k, idt)
                    &&& final(self).matches@ == spec_remove_idt_matches(old(self).matches@, pk)
                    &&& forall|c: i32| !spec_has_pair(final(self).matches@, c, pk)
                    &&& forall|c: i32, i: i32|
                        i != pk ==> spec_has_pair(final(self).matches@, c, i) == spec_has_pair(
                            old(self).matches@,
                            c,
                            i,
                        )
                },
                Err(e) => {
                    &&& *final(self) == *old(self)
                    &&& (e.status == 404 || e.status == 409)
                    &&& (e.status == 404 <==> !spec_has_idt(old(self).idts@, pk))
                    &&& (e.status == 409 <==> exists|k: int|
                        0 <= k < old(self).idts@.len() && (#[trigger] old(self).idts@[k]).id == pk
                            && old(self).idts@[k].is_found)
                },
            },
    {
        match self.mark_found(pk) {
            Err(e) => Err(e),
            Ok(idt) => {
                self.remove_found_claims(pk);
                Ok(idt)
            },
        }
    }

    /// Whether a match row links the claim and the identification.
    pub fn pair_exists(&self, claim_id: i32, identification_id: i32) -> (r: bool)
        ensures
            r == spec_has_pair(self.matches@, claim_id, identification_id),
    {
        let n = self.matches.len();
        let mut k: usize = 0;
        while k < n
            invariant
                n == self.matches@.len(),
                k <= n,
                forall|j: int|
                    0 <= j < k ==> !((#[trigger] self.matches@[j]).claim_id == claim_id
                        && self.matches@[j].identification_id == identification_id),
            decreases n - k,
        {
            if self.matches[k].claim_id == claim_id && self.matches[k].identification_id
                == identification_id {
                return true;
            }
            k = k + 1;
        }
        false
    }

    /// Confirms that a claim and an identification named by the caller
    /// match each other, and hands the identification to the caller.
    ///
    /// The pair must be an existing match row; the claim must belong to
    /// the acting user; and the identification must not be owned yet —
    /// the owner is set exactly once, here.
    pub fn confirm_claim(&mut self, data: &crate::models::MatchedIdtJson, acting_user: i32) -> (r:
        Result<Identification, ResError>)
        requires
            old(self).wf(),
        ensures
            final(self).wf(),
            final(self).claims@ == old(self).claims@,
            final(self).matches@ == old(self).matches@,
            final(self).next_idt_id == old(self).next_idt_id,
            final(self).next_claim_id == old(self).next_claim_id,
            final(self).next_match_id == old(self).next_match_id,
            match r {
                Ok(idt) => {
                    &&& spec_has_pair(old(self).matches@, data.claim, data.idt)
                    &&& exists|k: int|
                        0 <= k < old(self).claims@.len() && (#[trigger] old(self).claims@[k]).id
                            == data.claim && old(self).claims@[k].user_id == acting_user
                    &&& exists|k: int|
                        0 <= k < old(self).idts@.len() && (#[trigger] old(self).idts@[k]).id
                            == data.idt && old(self).idts@[k].owner is None && idt
                            == crate::models::spec_with_owner(old(self).idts@[k], acting_user)
                            && final(self).idts@ == old(self).idts@.update(k, idt)
                },
                Err(e) => {
                    &&& *final(self) == *old(self)
                    &&& (e.status == 404 || e.status == 401 || e.status == 409)
                    &&& (e.status == 404 <==> !spec_has_pair(
                        old(self).matches@,
                        data.claim,
                        data.idt,
                    ))
                    &&& (e.status == 401 <==> spec_has_pair(old(self).matches@, data.claim, data.idt)
                        && exists|k: int|
                        0 <= k < old(self).claims@.len() && (#[trigger] old(self).claims@[k]).id
                            == data.claim && old(self).claims@[k].user_id != acting_user)
                    &&& (e.status == 409 <==> spec_has_pair(old(self).matches@, data.claim, data.idt)
                        && (exists|k: int|
                            0 <= k < old(self).claims@.len() && (
                            #[trigger] old(self).claims@[k]).id == data.claim
                                && old(self).claims@[k].user_id == acting_user) && exists|k: int|
                            0 <= k < old(self).idts@.len() && (#[trigger] old(self).idts@[k]).id
                                == data.idt && old(self).idts@[k].owner is Some)
                },
            },
    {
        let pair_found = self.pair_exists(data.claim, data.idt);
        if !pair_found {
            return Err(ResError::not_found());
        }
        let nc = self.claims.len();
        let mut c: usize = 0;
        while c < nc
            invariant
                *self == *old(self),
                old(self).wf(),
                spec_has_pair(self.matches@, data.claim, data.idt),
                nc == self.claims@.len(),
                c <= nc,
                forall|j: int| 0 <= j < c ==> (#[trigger] self.claims@[j]).id != data.claim,
            decreases nc - c,
        {
            if self.claims[c].id == data.claim {
                if self.claims[c].user_id != acting_user {
                    return Err(ResError::unauthorized());
                }
                let ni = self.idts.len();
                let mut t: usize = 0;
                while t < ni
                    invariant
                        *self == *old(self),
                        old(self).wf(),
                        spec_has_pair(self.matches@, data.claim, data.idt),
                        c < self.claims@.len(),
                        self.claims@[c as int].id == data.claim,
                        self.claims@[c as int].user_id == acting_user,
                        ni == self.idts@.len(),
                        t <= ni,
                        forall|j: int| 0 <= j < t ==> (#[trigger] self.idts@[j]).id != data.idt,
                    decreases ni - t,
                {
                    if self.idts[t].id == data.idt {
                        let already_owned = match self.idts[t].owner {
                            Some(_) => true,
                            None => false,
                        };
                        if already_owned {
                            return Err(
                                ResError::new(
                                    String::from_str("Identification already has an owner"),
                                    409,
                                ),
                            );
                        }
                        let mut updated = clone_identification(&self.idts[t]);
                        updated.owner = Some(acting_user);
                        let ret = clone_identification(&updated);
                        proof {
                            assert(updated == crate::models::spec_with_owner(
                                old(self).idts@[t as int],
                                acting_user,
                            ));
                        }
                        self.idts.set(t, updated);
                        proof {
                            let idts = self.idts@;
                            let prev = old(self).idts@;
                            assert forall|m: int| 0 <= m < self.matches@.len() implies spec_has_idt(
                                idts,
                                (#[trigger] self.matches@[m]).identification_id,
                            ) && spec_has_claim(self.claims@, self.matches@[m].claim_id) by {
                                let w = choose|w: int|
                                    0 <= w < prev.len() && prev[w].id
                                        == self.matches@[m].identification_id;
                                assert(idts[w].id == self.matches@[m].identification_id);
                            }
                        }
                        return Ok(ret);
                    }
                    t = t + 1;
                }
                proof {
                    // unreachable: the match row found above references a
                    // stored identification, so the scan cannot miss it
                    let w = choose|w: int|
                        0 <= w < self.matches@.len() && self.matches@[w].claim_id == data.claim
                            && self.matches@[w].identification_id == data.idt;
                    assert(spec_has_idt(self.idts@, data.idt));
                    let v = choose|v: int|
                        0 <= v < self.idts@.len() && self.idts@[v].id == data.idt;
                    assert(false);
                }
                return Err(ResError::not_found());
            }
            c = c + 1;
        }
        proof {
            // unreachable: the match row found above references a stored
            // claim, so the scan cannot miss it
            let w = choose|w: int|
                0 <= w < self.matches@.len() && self.matches@[w].claim_id == data.claim
                    && self.matches@[w].identification_id == data.idt;
            assert(spec_has_claim(self.claims@, data.claim));
            let v = choose|v: int| 0 <= v < self.claims@.len() && self.claims@[v].id == data.claim;
            assert(false);
        }
        Err(ResError::not_found())
    }

    /// Updates the identification with the given data and re-runs the
    /// matching pass over the stored claims, unless the record is
    /// resolved — a resolved record is retired from candidate selection.
    ///
    /// Only the user who posted the record may update it (a record with
    /// no poster is open to anyone).
    pub fn update_identification(
        &mut self,
        pk: i32,
        data: &crate::models::UpdatableIdentification,
        acting_user: i32,
        now: u64,
    ) -> (r: Result<Identification, ResError>)
        requires
            old(self).wf(),
        ensures
            final(self).wf(),
            final(self).claims@ == old(self).claims@,
            final(self).next_idt_id == old(self).next_idt_id,
            final(self).next_claim_id == old(self).next_claim_id,
            match r {
                Ok(idt) => {
                    &&& crate::models::spec_idt_patch_valid(*data)
                    &&& exists|k: int|
                        0 <= k < old(self).idts@.len() && (#[trigger] old(self).idts@[k]).id == pk
                            && (match old(self).idts@[k].posted_by {
                            Some(p) => p == acting_user,
                            None => true,
                        }) && idt == crate::models::spec_apply_idt_patch(
                            old(self).idts@[k],
                            *data,
                            now,
                        ) && final(self).idts@ == old(self).idts@.update(k, idt)
                    &&& idt.id == pk
                    &&& !idt.is_found ==> forall|c: i32|
                        spec_has_pair(final(self).matches@, c, pk) <==> (spec_has_pair(
                            old(self).matches@,
                            c,
                            pk,
                        ) || exists|k: int|
                            0 <= k < old(self).claims@.len() && (
                            #[trigger] old(self).claims@[k]).id == c && spec_claim_match_for_idt(
                                old(self).claims@[k],
                                idt,
                            ))
                    &&& idt.is_found ==> final(self).matches@ == old(self).matches@
                    &&& forall|c: i32, i: i32|
                        i != pk ==> spec_has_pair(final(self).matches@, c, i) == spec_has_pair(
                            old(self).matches@,
                            c,
                            i,
                        )
                    &&& old(self).matches@.is_prefix_of(final(self).matches@)
                    &&& forall|j: int|
                        old(self).matches@.len() <= j < final(self).matches@.len() ==> (
                        #[trigger] final(self).matches@[j]).identification_id == pk
                            && final(self).matches@[j].created_at == now
                },
                Err(e) => {
                    &&& *final(self) == *old(self)
                    &&& (e.status == 400 || e.status == 404 || e.status == 401)
                    &&& (e.status == 400 <==> !crate::models::spec_idt_patch_valid(*data))
                    &&& (e.status == 404 <==> crate::models::spec_idt_patch_valid(*data)
                        && !spec_has_idt(old(self).idts@, pk))
                    &&& (e.status == 401 <==> crate::models::spec_idt_patch_valid(*data)
                        && exists|k: int|
                        0 <= k < old(self).idts@.len() && (#[trigger] old(self).idts@[k]).id == pk
                            && (match old(self).idts@[k].posted_by {
                            Some(p) => p != acting_user,
                            None => false,
                        }))
                },
            },
    {
        if !crate::models::idt_patch_valid(data) {
            return Err(ResError::new(String::from_str("Invalid identification field given"), 400));
        }
        let n = self.idts.len();
        let mut k: usize = 0;
        while k < n
            invariant
                *self == *old(self),
                old(self).wf(),
                crate::models::spec_idt_patch_valid(*data),
                n == self.idts@.len(),
                k <= n,
                forall|j: int| 0 <= j < k ==> (#[trigger] self.idts@[j]).id != pk,
            decreases n - k,
        {
            if self.idts[k].id == pk {
                let authorized = match self.idts[k].posted_by {
                    Some(p) => p == acting_user,
                    None => true,
                };
                if !authorized {
                    return Err(ResError::unauthorized());
                }
                let updated = crate::models::apply_idt_patch(&self.idts[k], data, now);
                let ret = clone_identification(&updated);
                self.idts.set(k, updated);
                proof {
                    let idts = self.idts@;
                    let prev = old(self).idts@;
                    assert forall|m: int| 0 <= m < self.matches@.len() implies spec_has_idt(
                        idts,
                        (#[trigger] self.matches@[m]).identification_id,
                    ) && spec_has_claim(self.claims@, self.matches@[m].claim_id) by {
                        let w = choose|w: int|
                            0 <= w < prev.len() && prev[w].id
                                == self.matches@[m].identification_id;
                        assert(idts[w].id == self.matches@[m].identification_id);
                    }
                    assert(spec_has_idt(self.idts@, ret.id)) by {
                        assert(self.idts@[k as int].id == ret.id);
                    }
                }
                if !ret.is_found {
                    self.match_claims(&ret, now);
                }
                return Ok(ret);
            }
            k = k + 1;
        }
        Err(ResError::not_found())
    }

    /// Updates the claim with the given data and re-runs the matching
    /// pass over the stored identifications, so that a changed claim is
    /// paired against what is now in scope.
    ///
    /// Only the user who owns the claim may update it.
    pub fn update_claim(
        &mut self,
        pk: i32,
        data: &crate::models::UpdatableClaimableIdt,
        acting_user: i32,
        now: u64,
    ) -> (r: Result<ClaimableIdentification, ResError>)
        requires
            old(self).wf(),
        ensures
            final(self).wf(),
            final(self).idts@ == old(self).idts@,
            final(self).next_idt_id == old(self).next_idt_id,
            final(self).next_claim_id == old(self).next_claim_id,
            match r {
                Ok(cl) => {
                    &&& crate::models::spec_claim_patch_valid(*data)
                    &&& exists|k: int|
                        0 <= k < old(self).claims@.len() && (#[trigger] old(self).claims@[k]).id
                            == pk && old(self).claims@[k].user_id == acting_user && cl
                            == crate::models::spec_apply_claim_patch(
                            old(self).claims@[k],
                            *data,
                            now,
                        ) && final(self).claims@ == old(self).claims@.update(k, cl)
                    &&& cl.id == pk
                    &&& forall|i: i32|
                        spec_has_pair(final(self).matches@, pk, i) <==> (spec_has_pair(
                            old(self).matches@,
                            pk,
                            i,
                        ) || exists|k: int|
                            0 <= k < old(self).idts@.len() && (#[trigger] old(self).idts@[k]).id
                                == i && spec_idt_match_for_claim(old(self).idts@[k], cl))
                    &&& forall|c: i32, i: i32|
                        c != pk ==> spec_has_pair(final(self).matches@, c, i) == spec_has_pair(
                            old(self).matches@,
                            c,
                            i,
                        )
                    &&& old(self).matches@.is_prefix_of(final(self).matches@)
                    &&& forall|j: int|
                        old(self).matches@.len() <= j < final(self).matches@.len() ==> (
                        #[trigger] final(self).matches@[j]).claim_id == pk
                            && final(self).matches@[j].created_at == now
                },
                Err(e) => {
                    &&& *final(self) == *old(self)
                    &&& (e.status == 400 || e.status == 404 || e.status == 401)
                    &&& (e.status == 400 <==> !crate::models::spec_claim_patch_valid(*data))
                    &&& (e.status == 404 <==> crate::models::spec_claim_patch_valid(*data)
                        && !spec_has_claim(old(self).claims@, pk))
                    &&& (e.status == 401 <==> crate::models::spec_claim_patch_valid(*data)
                        && exists|k: int|
                        0 <= k < old(self).claims@.len() && (#[trigger] old(self).claims@[k]).id
                            == pk && old(self).claims@[k].user_id != acting_user)
                },
            },
    {
        if !crate::models::claim_patch_valid(data) {
            return Err(ResError::new(String::from_str("Invalid claim field given"), 400));
        }
        let n = self.claims.len();
        let mut k: usize = 0;
        while k < n
            invariant
                *self == *old(self),
                old(self).wf(),
                crate::models::spec_claim_patch_valid(*data),
                n == self.claims@.len(),
                k <= n,
                forall|j: int| 0 <= j < k ==> (#[trigger] self.claims@[j]).id != pk,
            decreases n - k,
        {
            if self.claims[k].id == pk {
                if self.claims[k].user_id != acting_user {
                    return Err(ResError::unauthorized());
                }
                let updated = crate::models::apply_claim_patch(&self.claims[k], data, now);
                let ret = clone_claim(&updated);
                self.claims.set(k, updated);
                proof {
                    let claims = self.claims@;
                    let prev = old(self).claims@;
                    assert forall|m: int| 0 <= m < self.matches@.len() implies spec_has_idt(
                        self.idts@,
                        (#[trigger] self.matches@[m]).identification_id,
                    ) && spec_has_claim(claims, self.matches@[m].claim_id) by {
                        let w = choose|w: int|
                            0 <= w < prev.len() && prev[w].id == self.matches@[m].claim_id;
                        assert(claims[w].id == self.matches@[m].claim_id);
                    }
                    assert(spec_has_claim(self.claims@, ret.id)) by {
                        assert(self.claims@[k as int].id == ret.id);
                    }
                }
                self.match_idt(&ret, now);
                return Ok(ret);
            }
            k = k + 1;
        }
        Err(ResError::not_found())
    }

    /// Finds an identification by its primary key.
    pub fn find_by_id(&self, key: i32) -> (r: Result<Identification, ResError>)
        ensures
            match r {
                Ok(idt) => exists|k: int|
                    0 <= k < self.idts@.len() && (#[trigger] self.idts@[k]).id == key && idt
                        == self.idts@[k],
                Err(e) => e.status == 404 && !spec_has_idt(self.idts@, key),
            },
    {
        let n = self.idts.len();
        let mut k: usize = 0;
        while k < n
            invariant
                n == self.idts@.len(),
                k <= n,
                forall|j: int| 0 <= j < k ==> (#[trigger] self.idts@[j]).id != key,
            decreases n - k,
        {
            if self.idts[k].id == key {
                return Ok(clone_identification(&self.idts[k]));
            }
            k = k + 1;
        }
        Err(ResError::not_found())
    }

    /// Finds a claim by its primary key.
    pub fn find_claim_by_id(&self, key: i32) -> (r: Result<ClaimableIdentification, ResError>)
        ensures
            match r {
                Ok(cl) => exists|k: int|
                    0 <= k < self.claims@.len() && (#[trigger] self.claims@[k]).id == key && cl
                        == self.claims@[k],
                Err(e) => e.status == 404 && !spec_has_claim(self.claims@, key),
            },
    {
        let n = self.claims.len();
        let mut k: usize = 0;
        while k < n
            invariant
                n == self.claims@.len(),
                k <= n,
                forall|j: int| 0 <= j < k ==> (#[trigger] self.claims@[j]).id != key,
            decreases n - k,
        {
            if self.claims[k].id == key {
                return Ok(clone_claim(&self.claims[k]));
            }
            k = k + 1;
        }
        Err(ResError::not_found())
    }

    /// The claim belonging to the given user, who holds at most one.
    pub fn belonging_to_me(&self, usr_id: i32) -> (r: Result<ClaimableIdentification, ResError>)
        ensures
            match r {
                Ok(cl) => exists|k: int|
                    0 <= k < self.claims@.len() && (#[trigger] self.claims@[k]).user_id == usr_id
                        && cl == self.claims@[k],
                Err(e) => e.status == 404 && !spec_user_has_claim(self.claims@, usr_id),
            },
    {
        let n = self.claims.len();
        let mut k: usize = 0;
        while k < n
            invariant
                n == self.claims@.len(),
                k <= n,
                forall|j: int| 0 <= j < k ==> (#[trigger] self.claims@[j]).user_id != usr_id,
            decreases n - k,
        {
            if self.claims[k].user_id == usr_id {
                return Ok(clone_claim(&self.claims[k]));
            }
            k = k + 1;
        }
        Err(ResError::not_found())
    }

    /// Retrieves all stored identifications: every one for `"all"`, the
    /// resolved ones for `"found"`, and the unresolved ones for any
    /// other status word (`"missing"` being the conventional one).
    pub fn retrieve_all(&self, status: &str) -> (r: Vec<Identification>)
        ensures
            r@ == self.idts@.filter(
                |idt: Identification|
                    if status@ == "all"@ {
                        true
                    } else if status@ == "found"@ {
                        idt.is_found
                    } else {
                        !idt.is_found
                    },
            ),
    {
        let ghost pred = |idt: Identification|
            if status@ == "all"@ {
                true
            } else if status@ == "found"@ {
                idt.is_found
            } else {
                !idt.is_found
            };
        let want_all = crate::utils::str_eq(status, "all");
        let want_found = crate::utils::str_eq(status, "found");
        let mut out: Vec<Identification> = Vec::new();
        let n = self.idts.len();
        let mut i: usize = 0;
        proof {
            reveal_with_fuel(Seq::filter, 1);
            assert(self.idts@.take(0) =~= Seq::<Identification>::empty());
            assert(self.idts@.take(0).filter(pred) =~= Seq::<Identification>::empty());
        }
        while i < n
            invariant
                i <= n,
                n == self.idts@.len(),
                want_all == (status@ == "all"@),
                want_found == (status@ == "found"@),
                out@ == self.idts@.take(i as int).filter(pred),
                pred == (|idt: Identification|
                    if status@ == "all"@ {
                        true
                    } else if status@ == "found"@ {
                        idt.is_found
                    } else {
                        !idt.is_found
                    }),
            decreases n - i,
        {
            proof {
                assert(self.idts@.take(i + 1).drop_last() =~= self.idts@.take(i as int));
                assert(self.idts@.take(i + 1).last() == self.idts@[i as int]);
            }
            let keep = if want_all {
                true
            } else if want_found {
                self.idts[i].is_found
            } else {
                !self.idts[i].is_found
            };
            proof {
                reveal_with_fuel(Seq::filter, 2);
                assert(keep == pred(self.idts@[i as int]));
                assert(self.idts@.take(i + 1).filter(pred) == (if pred(self.idts@[i as int]) {
                    self.idts@.take(i as int).filter(pred).push(self.idts@[i as int])
                } else {
                    self.idts@.take(i as int).filter(pred)
                }));
            }
            if keep {
                out.push(clone_identification(&self.idts[i]));
            }
            i = i + 1;
        }
        proof {
            assert(self.idts@.take(n as int) =~= self.idts@);
        }
        out
    }

    /// Retrieves the identifications of the given institution.
    pub fn retrieve_by_institution_name(&self, institution_name: &str) -> (r: Vec<Identification>)
        ensures
            r@ == self.idts@.filter(
                (|idt: Identification| idt.institution@ == institution_name@),
            ),
    {
        let ghost pred = |idt: Identification| idt.institution@ == institution_name@;
        let mut out: Vec<Identification> = Vec::new();
        let n = self.idts.len();
        let mut i: usize = 0;
        proof {
            reveal_with_fuel(Seq::filter, 1);
            assert(self.idts@.take(0) =~= Seq::<Identification>::empty());
            assert(self.idts@.take(0).filter(pred) =~= Seq::<Identification>::empty());
        }
        while i < n
            invariant
                i <= n,
                n == self.idts@.len(),
                out@ == self.idts@.take(i as int).filter(pred),
                pred == (|idt: Identification| idt.institution@ == institution_name@),
            decreases n - i,
        {
            proof {
                assert(self.idts@.take(i + 1).drop_last() =~= self.idts@.take(i as int));
                assert(self.idts@.take(i + 1).last() == self.idts@[i as int]);
            }
            let keep = crate::utils::str_eq(self.idts[i].institution.as_str(), institution_name);
            proof {
                reveal_with_fuel(Seq::filter, 2);
                assert(keep == pred(self.idts@[i as int]));
                assert(self.idts@.take(i + 1).filter(pred) == (if pred(self.idts@[i as int]) {
                    self.idts@.take(i as int).filter(pred).push(self.idts@[i as int])
                } else {
                    self.idts@.take(i as int).filter(pred)
                }));
            }
            if keep {
                out.push(clone_identification(&self.idts[i]));
            }
            i = i + 1;
        }
        proof {
            assert(self.idts@.take(n as int) =~= self.idts@);
        }
        out
    }

    /// Retrieves the identifications posted (found) by the given user.
    pub fn show_posted_by_me(&self, usr_id: i32) -> (r: Vec<Identification>)
        ensures
            r@ == self.idts@.filter((|idt: Identification| idt.posted_by == Some(usr_id))),
    {
        let ghost pred = |idt: Identification| idt.posted_by == Some(usr_id);
        let mut out: Vec<Identification> = Vec::new();
        let n = self.idts.len();
        let mut i: usize = 0;
        proof {
            reveal_with_fuel(Seq::filter, 1);
            assert(self.idts@.take(0) =~= Seq::<Identification>::empty());
            assert(self.idts@.take(0).filter(pred) =~= Seq::<Identification>::empty());
        }
        while i < n
            invariant
                i <= n,
                n == self.idts@.len(),
                out@ == self.idts@.take(i as int).filter(pred),
                pred == (|idt: Identification| idt.posted_by == Some(usr_id)),
            decreases n - i,
        {
            proof {
                assert(self.idts@.take(i + 1).drop_last() =~= self.idts@.take(i as int));
                assert(self.idts@.take(i + 1).last() == self.idts@[i as int]);
            }
            let keep = match self.idts[i].posted_by {
                Some(p) => p == usr_id,
                None => false,
            };
            proof {
                reveal_with_fuel(Seq::filter, 2);
                assert(keep == pred(self.idts@[i as int]));
                assert(self.idts@.take(i + 1).filter(pred) == (if pred(self.idts@[i as int]) {
                    self.idts@.take(i as int).filter(pred).push(self.idts@[i as int])
                } else {
                    self.idts@.take(i as int).filter(pred)
                }));
            }
            if keep {
                out.push(clone_identification(&self.idts[i]));
            }
            i = i + 1;
        }
        proof {
            assert(self.idts@.take(n as int) =~= self.idts@);
        }
        out
    }

    /// Retrieves the identifications that belong to the given user.
    pub fn show_mine(&self, usr_id: i32) -> (r: Vec<Identification>)
        ensures
            r@ == self.idts@.filter((|idt: Identification| idt.owner == Some(usr_id))),
    {
        let ghost pred = |idt: Identification| idt.owner == Some(usr_id);
        let mut out: Vec<Identification> = Vec::new();
        let n = self.idts.len();
        let mut i: usize = 0;
        proof {
            reveal_with_fuel(Seq::filter, 1);
            assert(self.idts@.take(0) =~= Seq::<Identification>::empty());
            assert(self.idts@.take(0).filter(pred) =~= Seq::<Identification>::empty());
        }
        while i < n
            invariant
                i <= n,
                n == self.idts@.len(),
                out@ == self.idts@.take(i as int).filter(pred),
                pred == (|idt: Identification| idt.owner == Some(usr_id)),
            decreases n - i,
        {
            proof {
                assert(self.idts@.take(i + 1).drop_last() =~= self.idts@.take(i as int));
                assert(self.idts@.take(i + 1).last() == self.idts@[i as int]);
            }
            let keep = match self.idts[i].owner {
                Some(p) => p == usr_id,
                None => false,
            };
            proof {
                reveal_with_fuel(Seq::filter, 2);
                assert(keep == pred(self.idts@[i as int]));
                assert(self.idts@.take(i + 1).filter(pred) == (if pred(self.idts@[i as int]) {
                    self.idts@.take(i as int).filter(pred).push(self.idts@[i as int])
                } else {
                    self.idts@.take(i as int).filter(pred)
                }));
            }
            if keep {
                out.push(clone_identification(&self.idts[i]));
            }
            i = i + 1;
        }
        proof {
            assert(self.idts@.take(n as int) =~= self.idts@);
        }
        out
    }
}

/// The match table with every row of the given identification removed,
/// order otherwise kept.
pub open spec fn spec_remove_idt_matches(ms: Seq<MatchedIDt>, key: i32) -> Seq<MatchedIDt>
    decreases ms.len(),
{
    if ms.len() == 0 {
        Seq::empty()
    } else {
        let rest = spec_remove_idt_matches(ms.drop_last(), key);
        if ms.last().identification_id == key {
            rest
        } else {
            rest.push(ms.last())
        }
    }
}

/// What the bulk removal keeps: every surviving row comes from the old
/// table, no row of the removed identification survives, and rows of
/// every other identification are untouched.
proof fn lemma_remove_props(ms: Seq<MatchedIDt>, key: i32)
    ensures
        forall|j: int|
            0 <= j < spec_remove_idt_matches(ms, key).len() ==> exists|k: int|
                0 <= k < ms.len() && #[trigger] spec_remove_idt_matches(ms, key)[j] == ms[k],
        forall|c: i32| !spec_has_pair(spec_remove_idt_matches(ms, key), c, key),
        forall|c: i32, i: i32|
            i != key ==> spec_has_pair(spec_remove_idt_matches(ms, key), c, i) == spec_has_pair(
                ms,
                c,
                i,
            ),
    decreases ms.len(),
{
    let out = spec_remove_idt_matches(ms, key);
    if ms.len() > 0 {
        let d = ms.drop_last();
        let rest = spec_remove_idt_matches(d, key);
        let m = ms.last();
        lemma_remove_props(d, key);
        assert(d.push(m) =~= ms);
        assert forall|c: i32, i: i32|
            spec_has_pair(ms, c, i) == (spec_has_pair(d, c, i) || (m.claim_id == c
                && m.identification_id == i)) by {
            lemma_has_pair_push(d, m, c, i);
        }
        if m.identification_id == key {
            assert(out == rest);
            assert forall|j: int| 0 <= j < out.len() implies exists|k: int|
                0 <= k < ms.len() && #[trigger] out[j] == ms[k] by {
                let k = choose|k: int| 0 <= k < d.len() && out[j] == d[k];
                assert(out[j] == ms[k]);
            }
        } else {
            assert(out == rest.push(m));
            assert forall|c: i32, i: i32|
                spec_has_pair(out, c, i) == (spec_has_pair(rest, c, i) || (m.claim_id == c
                    && m.identification_id == i)) by {
                lemma_has_pair_push(rest, m, c, i);
            }
            assert forall|j: int| 0 <= j < out.len() implies exists|k: int|
                0 <= k < ms.len() && #[trigger] out[j] == ms[k] by {
                if j < rest.len() {
                    assert(out[j] == rest[j]);
                    let k = choose|k: int| 0 <= k < d.len() && rest[j] == d[k];
                    assert(out[j] == ms[k]);
                } else {
                    assert(out[j] == m && m == ms[ms.len() - 1]);
                }
            }
        }
    }
}

/// Bulk removal keeps the match table pair-unique.
proof fn lemma_remove_unique(ms: Seq<MatchedIDt>, key: i32)
    requires
        spec_pairs_unique(ms),
    ensures
        spec_pairs_unique(spec_remove_idt_matches(ms, key)),
    decreases ms.len(),
{
    let out = spec_remove_idt_matches(ms, key);
    if ms.len() > 0 {
        let d = ms.drop_last();
        let rest = spec_remove_idt_matches(d, key);
        let m = ms.last();
        assert(spec_pairs_unique(d)) by {
            assert forall|x: int, y: int| 0 <= x < y < d.len() implies !(#[trigger] d[x].claim_id
                == #[trigger] d[y].claim_id && d[x].identification_id == d[y].identification_id) by {
                assert(d[x] == ms[x] && d[y] == ms[y]);
            }
        }
        lemma_remove_unique(d, key);
        lemma_remove_props(d, key);
        if m.identification_id != key {
            assert(out == rest.push(m));
            assert(!spec_has_pair(d, m.claim_id, m.identification_id)) by {
                if spec_has_pair(d, m.claim_id, m.identification_id) {
                    let k = choose|k: int|
                        0 <= k < d.len() && d[k].claim_id == m.claim_id && d[k].identification_id
                            == m.identification_id;
                    assert(ms[k].claim_id == ms[ms.len() - 1].claim_id
                        && ms[k].identification_id == ms[ms.len() - 1].identification_id);
                    assert(false);
                }
            }
            assert forall|x: int, y: int| 0 <= x < y < out.len() implies !(#[trigger] out[x].claim_id
                == #[trigger] out[y].claim_id && out[x].identification_id
                == out[y].identification_id) by {
                if y < rest.len() {
                    assert(out[x] == rest[x] && out[y] == rest[y]);
                } else {
                    assert(out[y] == m && out[x] == rest[x]);
                    if out[x].claim_id == m.claim_id && out[x].identification_id
                        == m.identification_id {
                        assert(spec_has_pair(rest, m.claim_id, m.identification_id));
                        assert(spec_has_pair(d, m.claim_id, m.identification_id));
                        assert(false);
                    }
                }
            }
        }
    }
}

/// Scanning past a claim that did not match leaves the pair
/// characterization intact, with the bound moved one step.
proof fn lemma_skip_iff(
    base: Seq<MatchedIDt>,
    cur: Seq<MatchedIDt>,
    claims: Seq<ClaimableIdentification>,
    ci: int,
    idt: Identification,
)
    requires
        0 <= ci < claims.len(),
        !spec_claim_match_for_idt(claims[ci], idt),
        forall|c: i32|
            spec_has_pair(cur, c, idt.id) <==> (spec_has_pair(base, c, idt.id) || exists|k: int|
                0 <= k < ci && (#[trigger] claims[k]).id == c && spec_claim_match_for_idt(
                    claims[k],
                    idt,
                )),
    ensures
        forall|c: i32|
            spec_has_pair(cur, c, idt.id) <==> (spec_has_pair(base, c, idt.id) || exists|k: int|
                0 <= k < ci + 1 && (#[trigger] claims[k]).id == c && spec_claim_match_for_idt(
                    claims[k],
                    idt,
                )),
{
    assert forall|c: i32|
        spec_has_pair(cur, c, idt.id) <==> (spec_has_pair(base, c, idt.id) || exists|k: int|
            0 <= k < ci + 1 && (#[trigger] claims[k]).id == c && spec_claim_match_for_idt(
                claims[k],
                idt,
            )) by {
        if exists|k: int|
            0 <= k < ci + 1 && (#[trigger] claims[k]).id == c && spec_claim_match_for_idt(
                claims[k],
                idt,
            ) {
            let k = choose|k: int|
                0 <= k < ci + 1 && (#[trigger] claims[k]).id == c && spec_claim_match_for_idt(
                    claims[k],
                    idt,
                );
            assert(k != ci);
            assert(0 <= k < ci && claims[k].id == c && spec_claim_match_for_idt(claims[k], idt));
        }
        if exists|k: int|
            0 <= k < ci && (#[trigger] claims[k]).id == c && spec_claim_match_for_idt(
                claims[k],
                idt,
            ) {
            let k = choose|k: int|
                0 <= k < ci && (#[trigger] claims[k]).id == c && spec_claim_match_for_idt(
                    claims[k],
                    idt,
                );
            assert(0 <= k < ci + 1 && claims[k].id == c && spec_claim_match_for_idt(
                claims[k],
                idt,
            ));
        }
    }
}

/// Same as [`lemma_skip_iff`], for the identification scan of
/// [`Registry::match_idt`].
proof fn lemma_skip_iff_claim(
    base: Seq<MatchedIDt>,
    cur: Seq<MatchedIDt>,
    idts: Seq<Identification>,
    ii: int,
    cl: ClaimableIdentification,
)
    requires
        0 <= ii < idts.len(),
        !spec_idt_match_for_claim(idts[ii], cl),
        forall|i: i32|
            spec_has_pair(cur, cl.id, i) <==> (spec_has_pair(base, cl.id, i) || exists|k: int|
                0 <= k < ii && (#[trigger] idts[k]).id == i && spec_idt_match_for_claim(
                    idts[k],
                    cl,
                )),
    ensures
        forall|i: i32|
            spec_has_pair(cur, cl.id, i) <==> (spec_has_pair(base, cl.id, i) || exists|k: int|
                0 <= k < ii + 1 && (#[trigger] idts[k]).id == i && spec_idt_match_for_claim(
                    idts[k],
                    cl,
                )),
{
    assert forall|i: i32|
        spec_has_pair(cur, cl.id, i) <==> (spec_has_pair(base, cl.id, i) || exists|k: int|
            0 <= k < ii + 1 && (#[trigger] idts[k]).id == i && spec_idt_match_for_claim(
                idts[k],
                cl,
            )) by {
        if exists|k: int|
            0 <= k < ii + 1 && (#[trigger] idts[k]).id == i && spec_idt_match_for_claim(
                idts[k],
                cl,
            ) {
            let k = choose|k: int|
                0 <= k < ii + 1 && (#[trigger] idts[k]).id == i && spec_idt_match_for_claim(
                    idts[k],
                    cl,
                );
            assert(k != ii);
            assert(0 <= k < ii && idts[k].id == i && spec_idt_match_for_claim(idts[k], cl));
        }
        if exists|k: int|
            0 <= k < ii && (#[trigger] idts[k]).id == i && spec_idt_match_for_claim(idts[k], cl) {
            let k = choose|k: int|
                0 <= k < ii && (#[trigger] idts[k]).id == i && spec_idt_match_for_claim(
                    idts[k],
                    cl,
                );
            assert(0 <= k < ii + 1 && idts[k].id == i && spec_idt_match_for_claim(idts[k], cl));
        }
    }
}

/// After recording the match of the claim at index `ci`, the pair
/// characterization holds with the scan bound moved past `ci`.
proof fn lemma_step_iff(
    base: Seq<MatchedIDt>,
    pre: Seq<MatchedIDt>,
    cur: Seq<MatchedIDt>,
    claims: Seq<ClaimableIdentification>,
    ci: int,
    idt: Identification,
    cid: i32,
)
    requires
        0 <= ci < claims.len(),
        claims[ci].id == cid,
        spec_claim_match_for_idt(claims[ci], idt),
        forall|c: i32|
            spec_has_pair(pre, c, idt.id) <==> (spec_has_pair(base, c, idt.id) || exists|k: int|
                0 <= k < ci && (#[trigger] claims[k]).id == c && spec_claim_match_for_idt(
                    claims[k],
                    idt,
                )),
        forall|c: i32, i: i32|
            spec_has_pair(cur, c, i) == (spec_has_pair(pre, c, i) || (c == cid && i == idt.id)),
    ensures
        forall|c: i32|
            spec_has_pair(cur, c, idt.id) <==> (spec_has_pair(base, c, idt.id) || exists|k: int|
                0 <= k < ci + 1 && (#[trigger] claims[k]).id == c && spec_claim_match_for_idt(
                    claims[k],
                    idt,
                )),
{
    assert forall|c: i32|
        spec_has_pair(cur, c, idt.id) <==> (spec_has_pair(base, c, idt.id) || exists|k: int|
            0 <= k < ci + 1 && (#[trigger] claims[k]).id == c && spec_claim_match_for_idt(
                claims[k],
                idt,
            )) by {
        if c == cid {
            assert(0 <= ci < ci + 1 && claims[ci].id == c && spec_claim_match_for_idt(
                claims[ci],
                idt,
            ));
            assert(spec_has_pair(cur, c, idt.id));
        } else {
            if exists|k: int|
                0 <= k < ci + 1 && (#[trigger] claims[k]).id == c && spec_claim_match_for_idt(
                    claims[k],
                    idt,
                ) {
                let k = choose|k: int|
                    0 <= k < ci + 1 && (#[trigger] claims[k]).id == c && spec_claim_match_for_idt(
                        claims[k],
                        idt,
                    );
                assert(k != ci);
                assert(0 <= k < ci && claims[k].id == c && spec_claim_match_for_idt(
                    claims[k],
                    idt,
                ));
            }
            if exists|k: int|
                0 <= k < ci && (#[trigger] claims[k]).id == c && spec_claim_match_for_idt(
                    claims[k],
                    idt,
                ) {
                let k = choose|k: int|
                    0 <= k < ci && (#[trigger] claims[k]).id == c && spec_claim_match_for_idt(
                        claims[k],
                        idt,
                    );
                assert(0 <= k < ci + 1 && claims[k].id == c && spec_claim_match_for_idt(
                    claims[k],
                    idt,
                ));
            }
        }
    }
}

/// After recording the match of the identification at index `ii`, the
/// pair characterization holds with the scan bound moved past `ii`.
proof fn lemma_step_iff_claim(
    base: Seq<MatchedIDt>,
    pre: Seq<MatchedIDt>,
    cur: Seq<MatchedIDt>,
    idts: Seq<Identification>,
    ii: int,
    cl: ClaimableIdentification,
    iid: i32,
)
    requires
        0 <= ii < idts.len(),
        idts[ii].id == iid,
        spec_idt_match_for_claim(idts[ii], cl),
        forall|i: i32|
            spec_has_pair(pre, cl.id, i) <==> (spec_has_pair(base, cl.id, i) || exists|k: int|
                0 <= k < ii && (#[trigger] idts[k]).id == i && spec_idt_match_for_claim(
                    idts[k],
                    cl,
                )),
        forall|c: i32, i: i32|
            spec_has_pair(cur, c, i) == (spec_has_pair(pre, c, i) || (c == cl.id && i == iid)),
    ensures
        forall|i: i32|
            spec_has_pair(cur, cl.id, i) <==> (spec_has_pair(base, cl.id, i) || exists|k: int|
                0 <= k < ii + 1 && (#[trigger] idts[k]).id == i && spec_idt_match_for_claim(
                    idts[k],
                    cl,
                )),
{
    assert forall|i: i32|
        spec_has_pair(cur, cl.id, i) <==> (spec_has_pair(base, cl.id, i) || exists|k: int|
            0 <= k < ii + 1 && (#[trigger] idts[k]).id == i && spec_idt_match_for_claim(
                idts[k],
                cl,
            )) by {
        if i == iid {
            assert(0 <= ii < ii + 1 && idts[ii].id == i && spec_idt_match_for_claim(idts[ii], cl));
            assert(spec_has_pair(cur, cl.id, i));
        } else {
            if exists|k: int|
                0 <= k < ii + 1 && (#[trigger] idts[k]).id == i && spec_idt_match_for_claim(
                    idts[k],
                    cl,
                ) {
                let k = choose|k: int|
                    0 <= k < ii + 1 && (#[trigger] idts[k]).id == i && spec_idt_match_for_claim(
                        idts[k],
                        cl,
                    );
                assert(k != ii);
                assert(0 <= k < ii && idts[k].id == i && spec_idt_match_for_claim(idts[k], cl));
            }
            if exists|k: int|
                0 <= k < ii && (#[trigger] idts[k]).id == i && spec_idt_match_for_claim(
                    idts[k],
                    cl,
                ) {
                let k = choose|k: int|
                    0 <= k < ii && (#[trigger] idts[k]).id == i && spec_idt_match_for_claim(
                        idts[k],
                        cl,
                    );
                assert(0 <= k < ii + 1 && idts[k].id == i && spec_idt_match_for_claim(
                    idts[k],
                    cl,
                ));
            }
        }
    }
}

} // verus!
