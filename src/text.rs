use vstd::prelude::*;
use vstd::std_specs::iter::IteratorSpec;

verus! {

/// The lower-case form of a string, as `str::to_lowercase` gives it.
pub uninterp spec fn lower_of(s: Seq<char>) -> Seq<char>;

/// Whether `p` is a prefix of `s`.
pub open spec fn is_prefix(p: Seq<char>, s: Seq<char>) -> bool {
    p.len() <= s.len() && s.subrange(0, p.len() as int) == p
}

/// Relies on `str::to_lowercase`: the result depends on the characters alone.
#[verifier::external_body]
pub(crate) fn lowercase(s: &str) -> (r: String)
    ensures
        r@ == lower_of(s@),
{
    s.to_lowercase()
}

/// `s` with every occurrence of a non-empty `from`, found left to right
/// without overlaps, replaced by `to`.
pub open spec fn replaced(s: Seq<char>, from: Seq<char>, to: Seq<char>) -> Seq<char>
    decreases s.len(),
{
    if from.len() == 0 || s.len() < from.len() {
        s
    } else if s.subrange(0, from.len() as int) == from {
        to + replaced(s.subrange(from.len() as int, s.len() as int), from, to)
    } else {
        seq![s[0]] + replaced(s.subrange(1, s.len() as int), from, to)
    }
}

/// Relies on `str::replace`: every non-overlapping `from`, left to right, becomes `to`.
#[verifier::external_body]
pub(crate) fn replace_all(s: &str, from: &str, to: &str) -> (r: String)
    requires
        from@.len() > 0,
    ensures
        r@ == replaced(s@, from@, to@),
{
    s.replace(from, to)
}

/// Whether `p` is a prefix of `s`, compared character by character.
pub fn starts_with(s: &str, p: &str) -> (r: bool)
    ensures
        r == is_prefix(p@, s@),
{
    let mut si = s.chars();
    let mut pi = p.chars();
    let ghost sv = s@;
    let ghost pv = p@;
    let ghost mut k: int = 0;
    loop
        invariant
            sv == s@,
            pv == p@,
            0 <= k <= pv.len(),
            k <= sv.len(),
            si.obeys_prophetic_iter_laws(),
            pi.obeys_prophetic_iter_laws(),
            si.remaining() == sv.subrange(k, sv.len() as int),
            pi.remaining() == pv.subrange(k, pv.len() as int),
            sv.subrange(0, k) == pv.subrange(0, k),
        decreases pv.len() - k,
    {
        let ghost pr = pi.remaining();
        let ghost sr = si.remaining();
        match pi.next() {
            None => {
                assert(pr.len() == 0);
                assert(k == pv.len());
                assert(pv.subrange(0, k) =~= pv);
                assert(is_prefix(pv, sv));
                return true;
            },
            Some(c) => {
                assert(pr.len() > 0 && c == pr[0] && pr[0] == pv[k]);
                match si.next() {
                    None => {
                        assert(sr.len() == 0);
                        assert(k == sv.len());
                        return false;
                    },
                    Some(d) => {
                        assert(sr.len() > 0 && d == sr[0] && sr[0] == sv[k]);
                        if c != d {
                            proof {
                                if is_prefix(pv, sv) {
                                    assert(sv.subrange(0, pv.len() as int)[k] == sv[k]);
                                }
                            }
                            return false;
                        }
                        proof {
                            assert(sv.subrange(0, k + 1) =~= sv.subrange(0, k).push(d));
                            assert(pv.subrange(0, k + 1) =~= pv.subrange(0, k).push(c));
                            k = k + 1;
                        }
                    },
                }
            },
        }
    }
}

} // verus!
