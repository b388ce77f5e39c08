//! Verified string utilities: prefix tests, equality, and literal
//! placeholder replacement over character sequences.

use vstd::prelude::*;
use vstd::seq_lib::*;

verus! {

/// The pattern `pat` occurs in `s` at character position `i`.
pub open spec fn occurs_at(s: Seq<char>, pat: Seq<char>, i: int) -> bool {
    0 <= i && i + pat.len() <= s.len() && s.subrange(i, i + pat.len() as int) == pat
}

/// The pattern `pat` occurs somewhere in `s`.
pub open spec fn occurs(s: Seq<char>, pat: Seq<char>) -> bool {
    exists|i: int| occurs_at(s, pat, i)
}

/// `s` begins with the prefix `p`.
pub open spec fn starts_with_spec(s: Seq<char>, p: Seq<char>) -> bool {
    occurs_at(s, p, 0)
}

/// Replace every occurrence of `pat` in `s` with `to`, scanning left to
/// right and never rescanning replaced text, exactly as a literal
/// find-and-replace does. An empty pattern leaves `s` unchanged.
pub open spec fn spec_replace(s: Seq<char>, pat: Seq<char>, to: Seq<char>) -> Seq<char>
    decreases s.len(),
{
    if pat.len() == 0 || s.len() < pat.len() {
        s
    } else if s.subrange(0, pat.len() as int) == pat {
        to + spec_replace(s.skip(pat.len() as int), pat, to)
    } else {
        seq![s[0]] + spec_replace(s.skip(1), pat, to)
    }
}

/// Decide whether `pat` occurs in `s` at character position `i`.
pub fn match_at(s: &str, pat: &str, i: usize) -> (r: bool)
    requires
        i <= s@.len(),
    ensures
        r == occurs_at(s@, pat@, i as int),
{
    let n = s.unicode_len();
    let plen = pat.unicode_len();
    if plen > n - i {
        return false;
    }
    let mut k: usize = 0;
    while k < plen
        invariant
            s@.len() == n,
            pat@.len() == plen,
            i + plen <= n,
            0 <= k <= plen,
            forall|j: int| 0 <= j < k ==> s@[i + j] == pat@[j],
        decreases plen - k,
    {
        if s.get_char(i + k) != pat.get_char(k) {
            assert(s@.subrange(i as int, i + plen as int)[k as int] != pat@[k as int]);
            return false;
        }
        k += 1;
    }
    proof {
        assert_seqs_equal!(s@.subrange(i as int, i + plen as int) == pat@, j => {
            assert(s@[i + j] == pat@[j]);
        });
    }
    true
}

/// Decide whether `s` begins with the prefix `p`.
pub fn has_prefix(s: &str, p: &str) -> (r: bool)
    ensures
        r == starts_with_spec(s@, p@),
{
    match_at(s, p, 0)
}

/// Decide whether two strings hold the same characters.
pub fn str_eq(a: &str, b: &str) -> (r: bool)
    ensures
        r == (a@ == b@),
{
    let alen = a.unicode_len();
    let blen = b.unicode_len();
    if alen != blen {
        proof {
            assert(a@ != b@);
        }
        return false;
    }
    let r = match_at(a, b, 0);
    proof {
        if r {
            assert_seqs_equal!(a@ == b@, j => {
                assert(a@.subrange(0, b@.len() as int)[j] == b@[j]);
            });
        } else {
            if a@ == b@ {
                assert(a@.subrange(0, b@.len() as int) =~= b@);
            }
        }
    }
    r
}

/// Replace every occurrence of `pat` in `s` with `to`, scanning left to
/// right over the original text only, as a literal find-and-replace.
pub fn replace_all(s: &str, pat: &str, to: &str) -> (r: String)
    requires
        pat@.len() >= 1,
    ensures
        r@ == spec_replace(s@, pat@, to@),
{
    let n = s.unicode_len();
    let plen = pat.unicode_len();
    let mut out = String::new();
    let mut i: usize = 0;
    proof {
        assert_seqs_equal!(s@.subrange(0, n as int) == s@);
        assert(out@ + spec_replace(s@, pat@, to@) =~= spec_replace(s@, pat@, to@));
    }
    while i < n
        invariant
            s@.len() == n,
            pat@.len() == plen,
            plen >= 1,
            0 <= i <= n,
            spec_replace(s@, pat@, to@) == out@ + spec_replace(
                s@.subrange(i as int, n as int),
                pat@,
                to@,
            ),
        decreases n - i,
    {
        let ghost rem = s@.subrange(i as int, n as int);
        if match_at(s, pat, i) {
            proof {
                assert_seqs_equal!(rem.subrange(0, plen as int) == pat@, j => {
                    assert(rem[j] == s@[i + j]);
                    assert(s@.subrange(i as int, i + plen as int)[j] == s@[i + j]);
                });
                assert_seqs_equal!(rem.skip(plen as int) ==
                    s@.subrange(i + plen as int, n as int));
                assert(spec_replace(rem, pat@, to@) == to@ + spec_replace(
                    s@.subrange(i + plen as int, n as int),
                    pat@,
                    to@,
                ));
                assert_seqs_equal!(out@ + (to@ + spec_replace(
                    s@.subrange(i + plen as int, n as int), pat@, to@)) ==
                    (out@ + to@) + spec_replace(
                        s@.subrange(i + plen as int, n as int), pat@, to@));
            }
            out.append(to);
            i += plen;
        } else {
            let c = s.substring_char(i, i + 1);
            proof {
                assert(rem.len() >= 1);
                assert(rem[0] == s@[i as int]);
                if rem.len() >= plen {
                    assert_seqs_equal!(rem.subrange(0, plen as int) ==
                        s@.subrange(i as int, i + plen as int));
                    assert(rem.subrange(0, plen as int) != pat@);
                    assert(spec_replace(rem, pat@, to@) == seq![rem[0]] + spec_replace(
                        rem.skip(1),
                        pat@,
                        to@,
                    ));
                    assert_seqs_equal!(rem.skip(1) ==
                        s@.subrange(i + 1 as int, n as int));
                    assert_seqs_equal!(c@ == seq![rem[0]]);
                    assert_seqs_equal!(out@ + (seq![rem[0]] + spec_replace(
                        s@.subrange(i + 1 as int, n as int), pat@, to@)) ==
                        (out@ + c@) + spec_replace(
                            s@.subrange(i + 1 as int, n as int), pat@, to@));
                } else {
                    assert(spec_replace(rem, pat@, to@) == rem);
                    let rest = s@.subrange(i + 1 as int, n as int);
                    assert(rest.len() < plen);
                    assert(spec_replace(rest, pat@, to@) == rest);
                    assert_seqs_equal!(c@ == seq![rem[0]]);
                    assert_seqs_equal!(out@ + rem == (out@ + c@) + rest, j => {});
                }
            }
            out.append(c);
            i += 1;
        }
    }
    proof {
        assert(s@.subrange(n as int, n as int) =~= Seq::<char>::empty());
        assert(spec_replace(Seq::<char>::empty(), pat@, to@) =~= Seq::<char>::empty());
        assert(out@ + Seq::<char>::empty() =~= out@);
        assert_seqs_equal!(s@.subrange(0, n as int) == s@);
    }
    out
}

/// A text with no occurrence of the pattern is left unchanged by
/// replacement.
pub proof fn lemma_replace_absent(s: Seq<char>, pat: Seq<char>, to: Seq<char>)
    requires
        pat.len() >= 1,
        !occurs(s, pat),
    ensures
        spec_replace(s, pat, to) == s,
    decreases s.len(),
{
    if s.len() < pat.len() {
    } else if s.subrange(0, pat.len() as int) == pat {
        assert(occurs_at(s, pat, 0));
    } else {
        assert forall|i: int| !occurs_at(s.skip(1), pat, i) by {
            if occurs_at(s.skip(1), pat, i) {
                assert_seqs_equal!(s.subrange(i + 1, i + 1 + pat.len() as int) ==
                    s.skip(1).subrange(i, i + pat.len() as int), j => {
                    assert(s.skip(1)[i + j] == s[i + 1 + j]);
                });
                assert(occurs_at(s, pat, i + 1));
            }
        }
        lemma_replace_absent(s.skip(1), pat, to);
        assert_seqs_equal!(seq![s[0]] + s.skip(1) == s);
    }
}

} // verus!

