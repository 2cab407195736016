//! The institution-affiliation heuristic.
//!
//! Checks whether an email address plausibly belongs to an institution of
//! a given name.  Two checks are made: first, whether any word of the
//! institution name occurs literally (case folded) inside the email
//! domain with its final label removed; failing that, whether the cosine
//! similarity between the initials of the institution name and one of the
//! dot-separated domain labels strictly exceeds 0.75.  The scorer is the
//! same primitive the matching engine uses, with a different threshold.

use vstd::prelude::*;

verus! {

use crate::cosine::cosine_similarity_chars;
use crate::cosine::sim_exceeds_three_quarters;
use crate::errors::ResError;
use vstd::arithmetic::mul::lemma_mul_upper_bound;

/// The code point of `c` with an ASCII upper case letter folded to lower
/// case.
pub open spec fn lower_code(c: char) -> int {
    let u = c as u32;
    if 65 <= u && u <= 90 {
        u + 32
    } else {
        u as int
    }
}

/// Whether two characters are equal up to ASCII case.
pub open spec fn fold_eq(a: char, b: char) -> bool {
    lower_code(a) == lower_code(b)
}

/// Whether `c` belongs to a word: an ASCII letter, digit or underscore.
pub open spec fn is_word_char(c: char) -> bool {
    let u = c as u32;
    (97 <= u && u <= 122) || (65 <= u && u <= 90) || (48 <= u && u <= 57) || u == 95
}

/// Whether `w` is the filler word "of", up to case.
pub open spec fn is_of_word(w: Seq<char>) -> bool {
    w.len() == 2 && fold_eq(w[0], 'o') && fold_eq(w[1], 'f')
}

/// Appends a finished word to the word list, unless filler-word removal
/// is on and the word is "of".
pub open spec fn push_word(acc: Seq<Seq<char>>, cur: Seq<char>, remove_of: bool) -> Seq<
    Seq<char>,
> {
    if remove_of && is_of_word(cur) {
        acc
    } else {
        acc.push(cur)
    }
}

/// Splits `s` into its maximal runs of word characters, left to right;
/// `cur` is the run in progress and `acc` the runs already finished.
pub open spec fn words_acc(
    s: Seq<char>,
    cur: Seq<char>,
    acc: Seq<Seq<char>>,
    remove_of: bool,
) -> Seq<Seq<char>>
    decreases s.len(),
{
    if s.len() == 0 {
        if cur.len() == 0 {
            acc
        } else {
            push_word(acc, cur, remove_of)
        }
    } else if is_word_char(s[0]) {
        words_acc(s.drop_first(), cur.push(s[0]), acc, remove_of)
    } else if cur.len() == 0 {
        words_acc(s.drop_first(), cur, acc, remove_of)
    } else {
        words_acc(s.drop_first(), Seq::empty(), push_word(acc, cur, remove_of), remove_of)
    }
}

/// The words of an institution name, with "of" dropped when asked.
pub open spec fn spec_name_words(name: Seq<char>, remove_of: bool) -> Seq<Seq<char>> {
    words_acc(name, Seq::empty(), Seq::empty(), remove_of)
}

/// Splits `s` at every occurrence of `sep`, keeping empty segments, as
/// the standard string split does.
pub open spec fn split_acc(
    s: Seq<char>,
    sep: char,
    cur: Seq<char>,
    acc: Seq<Seq<char>>,
) -> Seq<Seq<char>>
    decreases s.len(),
{
    if s.len() == 0 {
        acc.push(cur)
    } else if s[0] == sep {
        split_acc(s.drop_first(), sep, Seq::empty(), acc.push(cur))
    } else {
        split_acc(s.drop_first(), sep, cur.push(s[0]), acc)
    }
}

/// The segments of `s` between occurrences of `sep`.
pub open spec fn spec_split(s: Seq<char>, sep: char) -> Seq<Seq<char>> {
    split_acc(s, sep, Seq::empty(), Seq::empty())
}

/// The first index of `c` in `s` at or after `from`; the length of `s`
/// when there is none.
pub open spec fn first_from(s: Seq<char>, c: char, from: int) -> int
    decreases s.len() - from,
{
    if from < 0 || from >= s.len() {
        s.len() as int
    } else if s[from] == c {
        from
    } else {
        first_from(s, c, from + 1)
    }
}

/// The last index of `c` in `s`, or -1 when there is none.
pub open spec fn last_index_of(s: Seq<char>, c: char) -> int
    decreases s.len(),
{
    if s.len() == 0 {
        -1
    } else if s.last() == c {
        s.len() - 1
    } else {
        last_index_of(s.drop_last(), c)
    }
}

/// Whether `sub` matches `s` at offset `o`, up to ASCII case.
pub open spec fn spec_match_at(sub: Seq<char>, s: Seq<char>, o: int) -> bool {
    forall|t: int| 0 <= t < sub.len() ==> fold_eq(#[trigger] sub[t], s[o + t])
}

/// Whether `sub` occurs somewhere in `s`, up to ASCII case.
pub open spec fn is_substring_fold(sub: Seq<char>, s: Seq<char>) -> bool {
    exists|o: int| 0 <= o && o + sub.len() <= s.len() && spec_match_at(sub, s, o)
}

/// The initials of a word list: the first character of each word.
pub open spec fn spec_initials(ws: Seq<Seq<char>>) -> Seq<char> {
    ws.map_values(|w: Seq<char>| w[0])
}

/// The whole heuristic, over the raw character sequences of the
/// institution name and the email address.
///
/// The domain is what stands between the first `@` and the next `@` or
/// the end; its final dot-separated label (the top-level domain) is
/// dropped.  The first check looks for any word of the name inside that
/// trimmed domain, case folded.  The second compares the initials of the
/// name against each remaining label with the cosine scorer, threshold
/// strictly above 0.75.  An email whose domain has no dot at all is
/// never accepted by the second check, since no label remains.
/// The full domain of the email: what stands between the first `@` and
/// the next `@` or the end.
pub open spec fn spec_dom_full(email: Seq<char>) -> Seq<char> {
    let a1 = first_from(email, '@', 0);
    let a2 = first_from(email, '@', a1 + 1);
    email.subrange(a1 + 1, a2)
}

/// The trimmed domain: the full domain up to (excluding) its last dot,
/// or empty when it has no dot.
pub open spec fn spec_dom2(email: Seq<char>) -> Seq<char> {
    let df = spec_dom_full(email);
    let p = last_index_of(df, '.');
    if p >= 0 {
        df.subrange(0, p)
    } else {
        Seq::<char>::empty()
    }
}

/// The labels the initials are compared against: the dot-separated
/// segments of the trimmed domain, or none when the full domain has no
/// dot at all.
pub open spec fn spec_labels(email: Seq<char>) -> Seq<Seq<char>> {
    let p = last_index_of(spec_dom_full(email), '.');
    if p >= 0 {
        spec_split(spec_dom2(email), '.')
    } else {
        Seq::<Seq<char>>::empty()
    }
}

pub open spec fn spec_email_matches(name: Seq<char>, email: Seq<char>, remove_of: bool) -> bool {
    let ws = spec_name_words(name, remove_of);
    (exists|j: int|
        0 <= j < ws.len() && is_substring_fold(#[trigger] ws[j], spec_dom2(email))) || (exists|
        j: int,
    |
        0 <= j < spec_labels(email).len() && sim_exceeds_three_quarters(
            spec_initials(ws),
            #[trigger] spec_labels(email)[j],
        ))
}

/// Comparison object for changing a user's institution: the name of the
/// new institution and the email said to belong to it.
pub struct ChangeableInst {
    /// Name of new institution
    pub name: String,
    /// Institution email
    pub email: String,
}

impl ChangeableInst {
    /// Attempts to ascertain whether the email belongs to the
    /// institution, with the filler word kept.  An email that does not
    /// match is reported as forbidden rather than as a plain `false`, so
    /// that callers surface the rejection.
    pub fn is_match(&self) -> (r: Result<bool, ResError>)
        requires
            self.name@.len() <= 255,
            self.email@.len() <= 255,
            exists|i: int| 0 <= i < self.email@.len() && self.email@[i] == '@',
        ensures
            match r {
                Ok(b) => b && spec_email_matches(self.name@, self.email@, false),
                Err(e) => e.status == 403 && !spec_email_matches(self.name@, self.email@, false),
            },
    {
        let matched = email_institution_sim(self.name.as_str(), self.email.as_str(), false);
        if !matched {
            Err(
                ResError::new(
                    String::from_str("Email doesn't seem to belong to this institution"),
                    403,
                ),
            )
        } else {
            Ok(matched)
        }
    }
}

/// Collects the characters of a string.
fn str_to_chars(s: &str) -> (v: Vec<char>)
    ensures
        v@ == s@,
        s@.len() <= usize::MAX,
{
    let n: usize = s.unicode_len();
    let mut v: Vec<char> = Vec::new();
    let mut i: usize = 0;
    while i < n
        invariant
            i <= n,
            n == s@.len(),
            v@ == s@.take(i as int),
        decreases n - i,
    {
        let c = s.get_char(i);
        v.push(c);
        proof {
            assert(s@.take(i as int).push(s@[i as int]) =~= s@.take(i + 1));
        }
        i = i + 1;
    }
    proof {
        assert(s@.take(n as int) =~= s@);
    }
    v
}

/// Case-folded character equality.
fn fold_eq_x(a: char, b: char) -> (r: bool)
    ensures
        r == fold_eq(a, b),
{
    let ua = a as u32;
    let ub = b as u32;
    let fa: u32 = if 65 <= ua && ua <= 90 {
        ua + 32
    } else {
        ua
    };
    let fb: u32 = if 65 <= ub && ub <= 90 {
        ub + 32
    } else {
        ub
    };
    fa == fb
}

/// Exec mirror of [`is_word_char`].
fn is_word_char_x(c: char) -> (r: bool)
    ensures
        r == is_word_char(c),
{
    let u = c as u32;
    (97 <= u && u <= 122) || (65 <= u && u <= 90) || (48 <= u && u <= 57) || u == 95
}

/// The first index of `c` in `v` at or after `from`, or the length.
fn find_from(v: &Vec<char>, c: char, from: usize) -> (r: usize)
    requires
        from <= v@.len(),
    ensures
        r == first_from(v@, c, from as int),
        from <= r <= v@.len(),
        r < v@.len() ==> v@[r as int] == c,
        forall|t: int| from <= t < r ==> v@[t] != c,
{
    let n = v.len();
    let mut i: usize = from;
    while i < n
        invariant
            from <= i <= n,
            n == v@.len(),
            first_from(v@, c, from as int) == first_from(v@, c, i as int),
            forall|t: int| from <= t < i ==> v@[t] != c,
        decreases n - i,
    {
        if v[i] == c {
            return i;
        }
        i = i + 1;
    }
    n
}

/// The last index of `'.'` in `v`, if any.
fn rfind_dot(v: &Vec<char>) -> (r: Option<usize>)
    ensures
        match r {
            Some(p) => last_index_of(v@, '.') == p as int && p < v@.len(),
            None => last_index_of(v@, '.') == -1,
        },
{
    let mut j: usize = v.len();
    proof {
        assert(v@.take(v@.len() as int) =~= v@);
    }
    while j > 0
        invariant
            j <= v@.len(),
            last_index_of(v@, '.') == last_index_of(v@.take(j as int), '.'),
        decreases j,
    {
        proof {
            assert(v@.take(j as int).last() == v@[j - 1]);
            assert(v@.take(j as int).drop_last() =~= v@.take(j - 1));
        }
        if v[j - 1] == '.' {
            return Some(j - 1);
        }
        j = j - 1;
    }
    None
}

/// A copy of `v[s..e]`.
fn vec_slice(v: &Vec<char>, s: usize, e: usize) -> (out: Vec<char>)
    requires
        s <= e <= v@.len(),
    ensures
        out@ == v@.subrange(s as int, e as int),
{
    let mut out: Vec<char> = Vec::new();
    let mut i: usize = s;
    while i < e
        invariant
            s <= i <= e <= v@.len(),
            out@ == v@.subrange(s as int, i as int),
        decreases e - i,
    {
        out.push(v[i]);
        proof {
            assert(v@.subrange(s as int, i as int).push(v@[i as int]) =~= v@.subrange(
                s as int,
                i + 1,
            ));
        }
        i = i + 1;
    }
    out
}

/// Whether `sub` matches `s` at offset `o`, up to ASCII case.
fn match_at_x(sub: &Vec<char>, s: &Vec<char>, o: usize) -> (r: bool)
    requires
        o + sub@.len() <= s@.len(),
    ensures
        r == spec_match_at(sub@, s@, o as int),
{
    let m = sub.len();
    let n = s.len();
    let mut t: usize = 0;
    while t < m
        invariant
            t <= m,
            m == sub@.len(),
            n == s@.len(),
            o + m <= n,
            forall|u: int| 0 <= u < t ==> fold_eq(#[trigger] sub@[u], s@[o + u]),
        decreases m - t,
    {
        if !fold_eq_x(sub[t], s[o + t]) {
            return false;
        }
        t = t + 1;
    }
    true
}

/// Whether `sub` occurs in `s`, up to ASCII case.
fn contains_fold(sub: &Vec<char>, s: &Vec<char>) -> (r: bool)
    ensures
        r == is_substring_fold(sub@, s@),
{
    let m = sub.len();
    let n = s.len();
    if m > n {
        return false;
    }
    let mut o: usize = 0;
    while o <= n - m
        invariant
            m == sub@.len(),
            n == s@.len(),
            m <= n,
            o <= n - m + 1,
            forall|oo: int| 0 <= oo < o ==> !spec_match_at(sub@, s@, oo),
        decreases n - m + 1 - o,
    {
        if match_at_x(sub, s, o) {
            return true;
        }
        o = o + 1;
    }
    false
}

/// Checks if an institution email belongs to the institution of a given
/// name, by word containment in the trimmed email domain and, failing
/// that, by cosine similarity of the name's initials against each
/// remaining domain label (threshold strictly above 0.75).
///
/// `remove_of` drops the filler word "of" from the institution name
/// before comparing.  The email must contain an `@`.
#[verifier::loop_isolation(false)]
pub fn email_institution_sim(name: &str, email: &str, remove_of: bool) -> (r: bool)
    requires
        name@.len() <= 255,
        email@.len() <= 255,
        exists|i: int| 0 <= i < email@.len() && email@[i] == '@',
    ensures
        r == spec_email_matches(name@, email@, remove_of),
{
    let ev = str_to_chars(email);
    let nv = str_to_chars(name);
    let a1 = find_from(&ev, '@', 0);
    proof {
        if a1 == ev@.len() {
            let w = choose|i: int| 0 <= i < email@.len() && email@[i] == '@';
            assert(false);
        }
    }
    let a2 = find_from(&ev, '@', a1 + 1);
    let dom_full = vec_slice(&ev, a1 + 1, a2);
    let dot = rfind_dot(&dom_full);
    let ghost p = last_index_of(dom_full@, '.');
    let dom2: Vec<char> = match dot {
        Some(q) => vec_slice(&dom_full, 0, q),
        None => Vec::new(),
    };
    proof {
        assert(dom_full@ == spec_dom_full(email@));
        assert(p == last_index_of(spec_dom_full(email@), '.'));
        assert(dom2@ == spec_dom2(email@));
        assert(dom2@.len() <= 255);
    }
    // split the trimmed domain into its dot-separated labels
    let mut labels: Vec<Vec<char>> = Vec::new();
    let ghost mut gl: Seq<Seq<char>> = Seq::empty();
    let mut cur: Vec<char> = Vec::new();
    let dn = dom2.len();
    proof {
        assert(dom2@.skip(0) =~= dom2@);
    }
    let mut i: usize = 0;
    while i < dn
        invariant
            i <= dn,
            dn == dom2@.len(),
            dom2@.len() <= 255,
            split_acc(dom2@, '.', Seq::empty(), Seq::empty()) == split_acc(
                dom2@.skip(i as int),
                '.',
                cur@,
                gl,
            ),
            labels@.len() == gl.len(),
            forall|j: int| 0 <= j < gl.len() ==> (#[trigger] labels@[j])@ == gl[j],
            forall|j: int| 0 <= j < gl.len() ==> (#[trigger] gl[j]).len() <= dom2@.len(),
            cur@.len() <= i,
        decreases dn - i,
    {
        proof {
            assert(dom2@.skip(i as int)[0] == dom2@[i as int]);
            assert(dom2@.skip(i as int).drop_first() =~= dom2@.skip(i + 1));
        }
        if dom2[i] == '.' {
            let ghost cv = cur@;
            labels.push(cur);
            proof {
                gl = gl.push(cv);
            }
            cur = Vec::new();
        } else {
            cur.push(dom2[i]);
        }
        i = i + 1;
    }
    proof {
        assert(dom2@.skip(dn as int) =~= Seq::<char>::empty());
    }
    let ghost cvl = cur@;
    labels.push(cur);
    proof {
        gl = gl.push(cvl);
        assert(gl == spec_split(dom2@, '.'));
    }
    // collect the words of the institution name
    let mut words: Vec<Vec<char>> = Vec::new();
    let ghost mut gw: Seq<Seq<char>> = Seq::empty();
    let mut wcur: Vec<char> = Vec::new();
    let nn = nv.len();
    proof {
        assert(nv@.skip(0) =~= nv@);
    }
    let mut t: usize = 0;
    while t < nn
        invariant
            t <= nn,
            nn == nv@.len(),
            nv@.len() <= 255,
            words_acc(nv@, Seq::empty(), Seq::empty(), remove_of) == words_acc(
                nv@.skip(t as int),
                wcur@,
                gw,
                remove_of,
            ),
            words@.len() == gw.len(),
            forall|j: int| 0 <= j < gw.len() ==> (#[trigger] words@[j])@ == gw[j],
            forall|j: int| 0 <= j < gw.len() ==> (#[trigger] gw[j]).len() > 0,
            gw.len() + (if wcur@.len() > 0 {
                1int
            } else {
                0int
            }) <= t,
        decreases nn - t,
    {
        proof {
            assert(nv@.skip(t as int)[0] == nv@[t as int]);
            assert(nv@.skip(t as int).drop_first() =~= nv@.skip(t + 1));
        }
        let c = nv[t];
        if is_word_char_x(c) {
            wcur.push(c);
        } else {
            if wcur.len() > 0 {
                let drop_it = remove_of && wcur.len() == 2 && fold_eq_x(wcur[0], 'o') && fold_eq_x(
                    wcur[1],
                    'f',
                );
                let ghost wv = wcur@;
                if drop_it {
                    wcur = Vec::new();
                    proof {
                        assert(push_word(gw, wv, remove_of) == gw);
                    }
                } else {
                    words.push(wcur);
                    wcur = Vec::new();
                    proof {
                        assert(!(remove_of && is_of_word(wv)));
                        gw = gw.push(wv);
                    }
                }
            }
        }
        t = t + 1;
    }
    proof {
        assert(nv@.skip(nn as int) =~= Seq::<char>::empty());
    }
    if wcur.len() > 0 {
        let drop_it = remove_of && wcur.len() == 2 && fold_eq_x(wcur[0], 'o') && fold_eq_x(
            wcur[1],
            'f',
        );
        let ghost wv = wcur@;
        if !drop_it {
            words.push(wcur);
            proof {
                assert(!(remove_of && is_of_word(wv)));
                gw = gw.push(wv);
            }
        } else {
            proof {
                assert(push_word(gw, wv, remove_of) == gw);
            }
        }
    }
    proof {
        assert(gw == spec_name_words(nv@, remove_of));
    }
    // first check: any word occurs in the trimmed domain
    let wn = words.len();
    let mut j: usize = 0;
    while j < wn
        invariant
            j <= wn,
            wn == gw.len(),
            words@.len() == gw.len(),
            forall|k: int| 0 <= k < gw.len() ==> (#[trigger] words@[k])@ == gw[k],
            forall|k: int| 0 <= k < j ==> !is_substring_fold(#[trigger] gw[k], dom2@),
        decreases wn - j,
    {
        if contains_fold(&words[j], &dom2) {
            proof {
                assert(is_substring_fold(gw[j as int], dom2@));
                lemma_email_spec_unfold(name@, email@, remove_of, gw, dom2@, gl, p);
            }
            return true;
        }
        j = j + 1;
    }
    // second check: initials against each remaining label
    let mut initials: Vec<char> = Vec::new();
    let mut j2: usize = 0;
    while j2 < wn
        invariant
            j2 <= wn,
            wn == gw.len(),
            words@.len() == gw.len(),
            forall|k: int| 0 <= k < gw.len() ==> (#[trigger] words@[k])@ == gw[k],
            forall|k: int| 0 <= k < gw.len() ==> (#[trigger] gw[k]).len() > 0,
            initials@.len() == j2,
            forall|k: int| 0 <= k < j2 ==> initials@[k] == (#[trigger] gw[k])[0],
        decreases wn - j2,
    {
        let w = &words[j2];
        initials.push(w[0]);
        j2 = j2 + 1;
    }
    let ghost ini = spec_initials(gw);
    proof {
        assert(initials@ =~= ini);
        assert(initials@.len() <= 255);
    }
    let dot_found = match dot {
        Some(_) => true,
        None => false,
    };
    if !dot_found {
        proof {
            lemma_email_spec_unfold(name@, email@, remove_of, gw, dom2@, gl, p);
        }
        return false;
    }
    let ln = labels.len();
    let mut j3: usize = 0;
    while j3 < ln
        invariant
            j3 <= ln,
            ln == gl.len(),
            labels@.len() == gl.len(),
            initials@ == ini,
            initials@.len() <= 255,
            forall|k: int| 0 <= k < gl.len() ==> (#[trigger] labels@[k])@ == gl[k],
            forall|k: int| 0 <= k < gl.len() ==> (#[trigger] gl[k]).len() <= 255,
            forall|k: int| 0 <= k < j3 ==> !sim_exceeds_three_quarters(ini, #[trigger] gl[k]),
        decreases ln - j3,
    {
        let s = cosine_similarity_chars(&initials, &labels[j3]);
        proof {
            lemma_mul_upper_bound(initials@.len() as int, 255, labels@[j3 as int]@.len() as int, 255);
            lemma_mul_upper_bound(
                initials@.len() as int,
                255,
                initials@.len() as int,
                255,
            );
            lemma_mul_upper_bound(
                labels@[j3 as int]@.len() as int,
                255,
                labels@[j3 as int]@.len() as int,
                255,
            );
        }
        if s.exceeds_three_quarters() {
            proof {
                assert(sim_exceeds_three_quarters(ini, gl[j3 as int]));
                lemma_email_spec_unfold(name@, email@, remove_of, gw, dom2@, gl, p);
            }
            return true;
        }
        j3 = j3 + 1;
    }
    proof {
        lemma_email_spec_unfold(name@, email@, remove_of, gw, dom2@, gl, p);
    }
    false
}

/// Ties the locally computed words, trimmed domain and labels to the
/// named pieces of [`spec_email_matches`]; with them in hand the result
/// of the heuristic is the disjunction of the two existence checks.
proof fn lemma_email_spec_unfold(
    name: Seq<char>,
    email: Seq<char>,
    remove_of: bool,
    gw: Seq<Seq<char>>,
    dom2: Seq<char>,
    gl: Seq<Seq<char>>,
    p: int,
)
    requires
        p == last_index_of(spec_dom_full(email), '.'),
        dom2 == spec_dom2(email),
        gl == spec_split(dom2, '.'),
        gw == spec_name_words(name, remove_of),
    ensures
        spec_email_matches(name, email, remove_of) == ((exists|j: int|
            0 <= j < gw.len() && is_substring_fold(#[trigger] gw[j], dom2)) || (p >= 0 && exists|
            j: int,
        | 0 <= j < gl.len() && sim_exceeds_three_quarters(spec_initials(gw), #[trigger] gl[j]))),
{
    let labels = spec_labels(email);
    if p >= 0 {
        assert(labels == gl);
    } else {
        assert(labels.len() == 0);
    }
    let lhs = spec_email_matches(name, email, remove_of);
    let d1 = exists|j: int| 0 <= j < gw.len() && is_substring_fold(#[trigger] gw[j], dom2);
    let d2 = p >= 0 && exists|j: int|
        0 <= j < gl.len() && sim_exceeds_three_quarters(spec_initials(gw), #[trigger] gl[j]);
    if d1 {
        let j = choose|j: int| 0 <= j < gw.len() && is_substring_fold(#[trigger] gw[j], dom2);
        assert(0 <= j < gw.len() && is_substring_fold(gw[j], spec_dom2(email)));
        assert(lhs);
    }
    if d2 {
        let j = choose|j: int|
            0 <= j < gl.len() && sim_exceeds_three_quarters(spec_initials(gw), #[trigger] gl[j]);
        assert(0 <= j < labels.len() && sim_exceeds_three_quarters(spec_initials(gw), labels[j]));
        assert(lhs);
    }
    if lhs {
        if exists|j: int|
            0 <= j < gw.len() && is_substring_fold(#[trigger] gw[j], spec_dom2(email)) {
            let j = choose|j: int|
                0 <= j < gw.len() && is_substring_fold(#[trigger] gw[j], spec_dom2(email));
            assert(0 <= j < gw.len() && is_substring_fold(gw[j], dom2));
            assert(d1);
        } else {
            assert(exists|j: int|
                0 <= j < labels.len() && sim_exceeds_three_quarters(
                    spec_initials(gw),
                    #[trigger] labels[j],
                ));
            let j = choose|j: int|
                0 <= j < labels.len() && sim_exceeds_three_quarters(
                    spec_initials(gw),
                    #[trigger] labels[j],
                );
            assert(p >= 0);
            assert(0 <= j < gl.len() && sim_exceeds_three_quarters(spec_initials(gw), gl[j]));
            assert(d2);
        }
    }
}

} // verus!
