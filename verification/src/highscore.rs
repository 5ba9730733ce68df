//! High-score persistence logic: parsing the stored text back into a
//! score, formatting a score as decimal text, and the proof that the two
//! round-trip. The driver owns the file itself; the engine only decides
//! what the file should hold.

use vstd::prelude::*;

verus! {

/// ASCII whitespace, as the stored text may carry around the digits.
pub open spec fn is_space(b: u8) -> bool {
    b == 32 || b == 9 || b == 10 || b == 11 || b == 12 || b == 13
}

/// An ASCII decimal digit.
pub open spec fn is_digit(b: u8) -> bool {
    48 <= b <= 57
}

pub open spec fn all_digits(s: Seq<u8>) -> bool {
    forall|i: int| 0 <= i < s.len() ==> is_digit(#[trigger] s[i])
}

/// Numeric value of a string of decimal digits.
pub open spec fn digits_value(s: Seq<u8>) -> int
    decreases s.len(),
{
    if s.len() == 0 {
        0
    } else {
        digits_value(s.drop_last()) * 10 + (s.last() - 48)
    }
}

pub open spec fn trim_front(s: Seq<u8>) -> Seq<u8>
    decreases s.len(),
{
    if s.len() > 0 && is_space(s.first()) {
        trim_front(s.drop_first())
    } else {
        s
    }
}

pub open spec fn trim_back(s: Seq<u8>) -> Seq<u8>
    decreases s.len(),
{
    if s.len() > 0 && is_space(s.last()) {
        trim_back(s.drop_last())
    } else {
        s
    }
}

/// The stored text with ASCII whitespace stripped from both ends.
pub open spec fn spec_trim(s: Seq<u8>) -> Seq<u8> {
    trim_back(trim_front(s))
}

/// What the stored text denotes: after trimming and an optional leading
/// `+`, a non-empty digit string whose value fits in a `u32`; anything
/// else does not parse.
pub open spec fn spec_parse_score(s: Seq<u8>) -> Option<u32> {
    let t = spec_trim(s);
    let d = if t.len() > 0 && t.first() == 43 {
        t.drop_first()
    } else {
        t
    };
    if d.len() > 0 && all_digits(d) && digits_value(d) <= u32::MAX {
        Some(digits_value(d) as u32)
    } else {
        None
    }
}

/// The decimal digits of `n`, most significant first.
pub open spec fn spec_digits(n: int) -> Seq<u8>
    decreases n,
{
    if n < 10 {
        seq![(48 + if n >= 0 { n } else { 0 }) as u8]
    } else {
        spec_digits(n / 10).push((48 + n % 10) as u8)
    }
}

/// A digit string's value is never negative.
pub proof fn lemma_digits_nonneg(s: Seq<u8>)
    requires
        all_digits(s),
    ensures
        digits_value(s) >= 0,
    decreases s.len(),
{
    if s.len() > 0 {
        assert(all_digits(s.drop_last())) by {
            assert(forall|i: int|
                0 <= i < s.drop_last().len() ==> s.drop_last()[i] == #[trigger] s[i]);
        }
        lemma_digits_nonneg(s.drop_last());
    }
}

/// A digit string is worth at least any of its prefixes.
pub proof fn lemma_digits_prefix_le(s: Seq<u8>, m: int)
    requires
        0 <= m <= s.len(),
        all_digits(s),
    ensures
        digits_value(s.take(m)) <= digits_value(s),
    decreases s.len() - m,
{
    if m == s.len() {
        assert(s.take(m) =~= s);
    } else {
        assert(s.take(m + 1).drop_last() =~= s.take(m));
        assert(s.take(m + 1).last() == s[m]);
        assert(all_digits(s.take(m))) by {
            assert(forall|i: int| 0 <= i < m ==> s.take(m)[i] == #[trigger] s[i]);
        }
        lemma_digits_nonneg(s.take(m));
        lemma_digits_prefix_le(s, m + 1);
    }
}

/// Parse stored high-score text into a score, yielding zero for
/// anything [`spec_parse_score`] rejects.
pub fn parse_high_score(content: &Vec<u8>) -> (r: u32)
    ensures
        r == (match spec_parse_score(content@) {
            Some(v) => v,
            None => 0u32,
        }),
{
    let ghost s = content@;
    let n = content.len();
    proof {
        assert(s.skip(0) =~= s);
    }
    // strip leading whitespace
    let mut lo: usize = 0;
    while lo < n && is_space_byte(content[lo])
        invariant
            n == s.len(),
            content@ == s,
            lo <= n,
            trim_front(s) == trim_front(s.skip(lo as int)),
        decreases n - lo,
    {
        proof {
            assert(s.skip(lo as int).first() == s[lo as int]);
            assert(s.skip(lo as int).drop_first() =~= s.skip(lo + 1));
        }
        lo = lo + 1;
    }
    proof {
        if lo < n {
            assert(trim_front(s) == s.skip(lo as int));
        } else {
            assert(s.skip(lo as int) =~= Seq::<u8>::empty());
            assert(trim_front(s) == s.skip(lo as int));
        }
    }
    // strip trailing whitespace
    let mut hi: usize = n;
    while hi > lo && is_space_byte(content[hi - 1])
        invariant
            n == s.len(),
            content@ == s,
            lo <= hi <= n,
            trim_front(s) == s.skip(lo as int),
            trim_back(s.skip(lo as int)) == trim_back(s.subrange(lo as int, hi as int)),
        decreases hi,
    {
        proof {
            assert(s.subrange(lo as int, hi as int).last() == s[hi - 1]);
            assert(s.subrange(lo as int, hi as int).drop_last() =~= s.subrange(
                lo as int,
                hi - 1,
            ));
        }
        hi = hi - 1;
    }
    proof {
        if hi > lo {
            assert(spec_trim(s) == s.subrange(lo as int, hi as int));
        } else {
            assert(s.subrange(lo as int, hi as int) =~= Seq::<u8>::empty());
            assert(spec_trim(s) == s.subrange(lo as int, hi as int));
        }
    }
    // optional leading plus sign
    let start: usize = if lo < hi && content[lo] == 43 {
        proof {
            assert(s.subrange(lo as int, hi as int).first() == 43);
            assert(s.subrange(lo as int, hi as int).drop_first() =~= s.subrange(
                lo + 1,
                hi as int,
            ));
        }
        lo + 1
    } else {
        lo
    };
    let ghost d = s.subrange(start as int, hi as int);
    if start == hi {
        return 0;
    }
    // accumulate digits, watching for junk and overflow
    let mut acc: u64 = 0;
    let mut k: usize = start;
    while k < hi
        invariant
            n == s.len(),
            content@ == s,
            lo <= start <= k <= hi <= n,
            d == s.subrange(start as int, hi as int),
            start < hi,
            spec_parse_score(s) == (if d.len() > 0 && all_digits(d) && digits_value(d)
                <= u32::MAX {
                Some(digits_value(d) as u32)
            } else {
                None::<u32>
            }),
            all_digits(d.take(k - start)),
            acc == digits_value(d.take(k - start)),
            acc <= u32::MAX,
        decreases hi - k,
    {
        let c = content[k];
        proof {
            assert(d[k - start] == s[k as int]);
            assert(d.take(k + 1 - start).drop_last() =~= d.take(k - start));
            assert(d.take(k + 1 - start).last() == d[k - start]);
        }
        if c < 48 || c > 57 {
            proof {
                assert(!is_digit(d[k - start]));
                assert(!all_digits(d));
            }
            return 0;
        }
        acc = acc * 10 + ((c - 48) as u64);
        k = k + 1;
        if acc > u32::MAX as u64 {
            proof {
                assert(digits_value(d.take(k - start)) > u32::MAX);
                if all_digits(d) {
                    lemma_digits_prefix_le(d, k - start);
                    assert(d.take(k - start) =~= d.take(k - start));
                    assert(digits_value(d) > u32::MAX);
                }
            }
            return 0;
        }
    }
    proof {
        assert(d.take(hi - start) =~= d);
    }
    acc as u32
}

/// Whether a byte is ASCII whitespace, matching [`is_space`].
fn is_space_byte(b: u8) -> (r: bool)
    ensures
        r == is_space(b),
{
    b == 32 || b == 9 || b == 10 || b == 11 || b == 12 || b == 13
}

/// Append the decimal digits of `n`, most significant first.
fn push_digits(n: u32, out: &mut Vec<u8>)
    ensures
        final(out)@ == old(out)@ + spec_digits(n as int),
    decreases n,
{
    if n >= 10 {
        push_digits(n / 10, out);
    }
    out.push(48 + (n % 10) as u8);
    proof {
        assert(out@ =~= old(out)@ + spec_digits(n as int));
    }
}

/// Format a score as decimal text, ready to persist.
pub fn format_high_score(score: u32) -> (r: Vec<u8>)
    ensures
        r@ == spec_digits(score as int),
{
    let mut out: Vec<u8> = Vec::new();
    push_digits(score, &mut out);
    proof {
        assert(Seq::<u8>::empty() + spec_digits(score as int) =~= spec_digits(score as int));
    }
    out
}

/// The digits of a non-negative number are digits, and there is at
/// least one of them.
pub proof fn lemma_digits_shape(n: int)
    requires
        n >= 0,
    ensures
        spec_digits(n).len() >= 1,
        all_digits(spec_digits(n)),
        is_digit(spec_digits(n).first()),
    decreases n,
{
    if n >= 10 {
        lemma_digits_shape(n / 10);
        assert(spec_digits(n) == spec_digits(n / 10).push((48 + n % 10) as u8));
        assert(forall|i: int|
            0 <= i < spec_digits(n / 10).len() ==> spec_digits(n)[i] == #[trigger] spec_digits(
                n / 10,
            )[i]);
        assert(spec_digits(n).first() == spec_digits(n / 10).first());
    }
}

/// Formatting and evaluating are inverse: the digits of `n` are worth
/// `n`.
pub proof fn lemma_digits_value(n: int)
    requires
        n >= 0,
    ensures
        digits_value(spec_digits(n)) == n,
    decreases n,
{
    if n < 10 {
        assert(digits_value(Seq::<u8>::empty()) == 0);
        assert(spec_digits(n).drop_last() =~= Seq::<u8>::empty());
        assert(spec_digits(n).last() == (48 + n) as u8);
    } else {
        lemma_digits_value(n / 10);
        assert(spec_digits(n).drop_last() =~= spec_digits(n / 10));
        assert(spec_digits(n).last() == (48 + n % 10) as u8);
    }
}

/// Law: a score written out by the save path reads back as itself —
/// formatting then parsing returns the same score.
pub proof fn lemma_high_score_round_trip(n: u32)
    ensures
        spec_parse_score(spec_digits(n as int)) == Some(n),
{
    let d = spec_digits(n as int);
    lemma_digits_shape(n as int);
    lemma_digits_value(n as int);
    assert(!is_space(d.first()));
    assert(!is_space(d.last())) by {
        assert(is_digit(d[d.len() - 1]));
    }
    assert(trim_front(d) == d);
    assert(trim_back(d) == d);
    assert(d.first() != 43);
}

} // verus!
