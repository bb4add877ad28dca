//! Normalization of legacy fixed-width on-chain strings (trailing null
//! padding), prefix stripping for derived identifying values, and the
//! lexicographic order used for deterministic tie-breaks.

use vstd::prelude::*;
use vstd::string::StrSliceExecFns;

verus! {

/// `s` without its trailing null-padding characters.
pub open spec fn strip_nulls(s: Seq<char>) -> Seq<char>
    decreases s.len(),
{
    if s.len() > 0 && s.last() == '\0' {
        strip_nulls(s.drop_last())
    } else {
        s
    }
}

/// `p` is a prefix of `s`.
pub open spec fn has_prefix(s: Seq<char>, p: Seq<char>) -> bool {
    p.len() <= s.len() && s.take(p.len() as int) == p
}

/// Strict lexicographic order on character sequences, compared by code
/// point, starting at position `i`.
pub open spec fn lex_lt_from(a: Seq<char>, b: Seq<char>, i: int) -> bool
    decreases b.len() - i,
{
    if i >= b.len() {
        false
    } else if i >= a.len() {
        true
    } else if a[i] != b[i] {
        (a[i] as u32) < (b[i] as u32)
    } else {
        lex_lt_from(a, b, i + 1)
    }
}

/// Strict lexicographic order on character sequences.
pub open spec fn lex_lt(a: Seq<char>, b: Seq<char>) -> bool {
    lex_lt_from(a, b, 0)
}

/// The result of stripping never ends in a null character.
pub proof fn lemma_strip_nulls_no_null_tail(s: Seq<char>)
    ensures
        strip_nulls(s).len() > 0 ==> strip_nulls(s).last() != '\0',
    decreases s.len(),
{
    if s.len() > 0 && s.last() == '\0' {
        lemma_strip_nulls_no_null_tail(s.drop_last());
    }
}

/// Stripping null padding is idempotent: normalizing an already-normalized
/// string is a no-op.
pub proof fn lemma_strip_nulls_idempotent(s: Seq<char>)
    ensures
        strip_nulls(strip_nulls(s)) == strip_nulls(s),
{
    lemma_strip_nulls_no_null_tail(s);
}

/// Strips the trailing null padding that the legacy fixed-width on-chain
/// string encoding leaves behind.
pub fn strip_null_padding(s: &str) -> (r: String)
    ensures
        r@ == strip_nulls(s@),
{
    let n: usize = s.unicode_len();
    let mut end: usize = n;
    proof {
        assert(s@.take(n as int) =~= s@);
    }
    while end > 0 && s.get_char(end - 1) == '\0'
        invariant
            end <= n,
            n == s@.len(),
            strip_nulls(s@) == strip_nulls(s@.take(end as int)),
        decreases end,
    {
        proof {
            assert(s@.take(end as int).last() == '\0');
            assert(s@.take(end as int).drop_last() =~= s@.take(end as int - 1));
        }
        end = end - 1;
    }
    proof {
        if end > 0 {
            assert(s@.take(end as int).last() != '\0');
        }
        assert(strip_nulls(s@.take(end as int)) == s@.take(end as int));
        assert(s@.take(end as int) =~= s@.subrange(0, end as int));
    }
    s.substring_char(0, end).to_owned()
}

/// Strips `p` from the front of `s`, returning the remainder when `p` is a
/// prefix of `s` and `None` otherwise.
pub fn strip_prefix(s: &str, p: &str) -> (r: Option<String>)
    ensures
        r is Some <==> has_prefix(s@, p@),
        r matches Some(t) ==> t@ == s@.skip(p@.len() as int),
{
    let sn: usize = s.unicode_len();
    let pn: usize = p.unicode_len();
    if pn > sn {
        return None;
    }
    let mut i: usize = 0;
    while i < pn
        invariant
            i <= pn <= sn,
            sn == s@.len(),
            pn == p@.len(),
            forall|k: int| 0 <= k < i ==> s@[k] == p@[k],
        decreases pn - i,
    {
        if s.get_char(i) != p.get_char(i) {
            proof {
                assert(s@.take(pn as int)[i as int] != p@[i as int]);
            }
            return None;
        }
        i = i + 1;
    }
    proof {
        assert(s@.take(pn as int) =~= p@);
    }
    Some(s.substring_char(pn, sn).to_owned())
}

/// Decides the strict lexicographic order between two strings, by code point.
pub fn str_lex_lt(a: &str, b: &str) -> (r: bool)
    ensures
        r == lex_lt(a@, b@),
{
    let an: usize = a.unicode_len();
    let bn: usize = b.unicode_len();
    let mut i: usize = 0;
    loop
        invariant
            i <= an,
            i <= bn,
            an == a@.len(),
            bn == b@.len(),
            lex_lt(a@, b@) == lex_lt_from(a@, b@, i as int),
        decreases an + bn - 2 * i,
    {
        if i >= bn {
            return false;
        }
        if i >= an {
            return true;
        }
        let ac = a.get_char(i);
        let bc = b.get_char(i);
        if ac != bc {
            return (ac as u32) < (bc as u32);
        }
        i = i + 1;
    }
}

} // verus!
