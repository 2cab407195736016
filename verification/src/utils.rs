//! Small helpers around the registry's values.

use vstd::prelude::*;

verus! {

/// `s` with every double-quote character removed.
pub open spec fn strip_quotes(s: Seq<char>) -> Seq<char>
    decreases s.len(),
{
    if s.len() == 0 {
        Seq::empty()
    } else {
        let r = strip_quotes(s.drop_last());
        if s.last() == '"' {
            r
        } else {
            r.push(s.last())
        }
    }
}

/// Law: stripping quotes distributes over concatenation.
pub proof fn lemma_strip_quotes_concat(a: Seq<char>, b: Seq<char>)
    ensures
        strip_quotes(a + b) == strip_quotes(a) + strip_quotes(b),
    decreases b.len(),
{
    if b.len() == 0 {
        assert(a + b =~= a);
        assert(strip_quotes(a) + strip_quotes(b) =~= strip_quotes(a));
    } else {
        lemma_strip_quotes_concat(a, b.drop_last());
        assert((a + b).drop_last() =~= a + b.drop_last());
        assert((a + b).last() == b.last());
        if b.last() != '"' {
            assert(strip_quotes(a) + strip_quotes(b) =~= (strip_quotes(a) + strip_quotes(
                b.drop_last(),
            )).push(b.last()));
        }
    }
}

/// The complete URI built from a host, a path and a trailing parameter,
/// with every double quote removed (a header value cannot be formatted
/// to a bare string, so quotes may arrive with the host).
pub open spec fn spec_get_url(host: Seq<char>, path: Seq<char>, id: Seq<char>) -> Seq<char> {
    strip_quotes("http://"@ + host + "/"@ + path + "/"@ + id)
}

/// Character-for-character equality of two strings.
pub fn str_eq(a: &str, b: &str) -> (r: bool)
    ensures
        r == (a@ == b@),
{
    let n = a.unicode_len();
    if n != b.unicode_len() {
        return false;
    }
    let mut i: usize = 0;
    while i < n
        invariant
            i <= n,
            n == a@.len(),
            n == b@.len(),
            forall|j: int| 0 <= j < i ==> a@[j] == b@[j],
        decreases n - i,
    {
        if a.get_char(i) != b.get_char(i) {
            return false;
        }
        i = i + 1;
    }
    proof {
        assert(a@ =~= b@);
    }
    true
}

/// Appends `s` to `out`, leaving out every double-quote character.
fn append_stripped(out: &mut String, s: &str)
    ensures
        final(out)@ == old(out)@ + strip_quotes(s@),
{
    let n = s.unicode_len();
    let mut i: usize = 0;
    proof {
        assert(s@.take(0) =~= Seq::<char>::empty());
        assert(out@ =~= out@ + strip_quotes(s@.take(0)));
    }
    while i < n
        invariant
            i <= n,
            n == s@.len(),
            out@ == old(out)@ + strip_quotes(s@.take(i as int)),
        decreases n - i,
    {
        let c = s.get_char(i);
        proof {
            assert(s@.take(i + 1).drop_last() =~= s@.take(i as int));
            assert(s@.take(i + 1).last() == s@[i as int]);
        }
        if c != '"' {
            let piece = s.substring_char(i, i + 1);
            out.append(piece);
            proof {
                assert(piece@ =~= s@.subrange(i as int, i + 1));
                assert(out@ =~= old(out)@ + strip_quotes(s@.take(i + 1)));
            }
        }
        i = i + 1;
    }
    proof {
        assert(s@.take(n as int) =~= s@);
    }
}

/// Builds a complete URI from the arguments given, dropping any double
/// quotes that arrive with them.
pub fn get_url(host: &str, path: &str, id: &str) -> (r: String)
    ensures
        r@ == spec_get_url(host@, path@, id@),
{
    let mut out = String::new();
    append_stripped(&mut out, "http://");
    append_stripped(&mut out, host);
    append_stripped(&mut out, "/");
    append_stripped(&mut out, path);
    append_stripped(&mut out, "/");
    append_stripped(&mut out, id);
    proof {
        lemma_strip_quotes_concat("http://"@, host@);
        lemma_strip_quotes_concat("http://"@ + host@, "/"@);
        lemma_strip_quotes_concat("http://"@ + host@ + "/"@, path@);
        lemma_strip_quotes_concat("http://"@ + host@ + "/"@ + path@, "/"@);
        lemma_strip_quotes_concat("http://"@ + host@ + "/"@ + path@ + "/"@, id@);
        assert(out@ =~= spec_get_url(host@, path@, id@));
    }
    out
}

} // verus!
