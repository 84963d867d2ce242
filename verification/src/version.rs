//! Verdicts of the external version oracle.
//!
//! All version-string comparisons in this library funnel through one external
//! oracle (the system's version-compare tool). The oracle prints a signed
//! decimal integer whose sign is the ordering; this module turns that text
//! into a `VersionOrder` value, which the reconciliation logic consumes.

use vstd::prelude::*;

verus! {

/// Ordering of two version strings as decided by the external version oracle.
#[derive(Clone, Copy, Debug, PartialEq, Eq, Structural)]
pub enum VersionOrder {
    Less,
    Equal,
    Greater,
}

/// The ordering denoted by the sign of an integer.
pub open spec fn order_of_sign(n: int) -> VersionOrder {
    if n < 0 {
        VersionOrder::Less
    } else if n == 0 {
        VersionOrder::Equal
    } else {
        VersionOrder::Greater
    }
}

/// Map the integer printed by the version oracle to an ordering.
pub fn order_from_sign(n: i64) -> (r: VersionOrder)
    ensures
        r == order_of_sign(n as int),
{
    if n < 0 {
        VersionOrder::Less
    } else if n == 0 {
        VersionOrder::Equal
    } else {
        VersionOrder::Greater
    }
}

/// The digit part of the oracle's trimmed output, after an optional sign.
pub open spec fn vercmp_digits(v: Seq<char>) -> Seq<char> {
    let t = crate::text::spec_trim(v);
    if t.len() > 0 && (t[0] == '-' || t[0] == '+') {
        t.drop_first()
    } else {
        t
    }
}

/// Whether the oracle's trimmed output carries a minus sign.
pub open spec fn vercmp_neg(v: Seq<char>) -> bool {
    let t = crate::text::spec_trim(v);
    t.len() > 0 && t[0] == '-'
}

/// A signed decimal integer as the oracle prints one, after trimming:
/// an optional sign, then digits, within the range of a 32-bit integer.
/// The verdict is its sign.
pub open spec fn spec_parse_vercmp(v: Seq<char>) -> Option<VersionOrder> {
    let neg = vercmp_neg(v);
    let ds = vercmp_digits(v);
    if ds.len() == 0 || !(forall|j: int|
        0 <= j < ds.len() ==> crate::text::is_digit(#[trigger] ds[j])) {
        None
    } else {
        let val = crate::text::digits_val(ds);
        if (neg && val > 2147483648) || (!neg && val > 2147483647) {
            None
        } else {
            Some(order_of_sign(if neg { -val } else { val }))
        }
    }
}

/// Parse the version oracle's printed verdict into an ordering.
pub fn parse_vercmp_output(s: &str) -> (r: Option<VersionOrder>)
    ensures
        match spec_parse_vercmp(s@) {
            Some(o) => r == Some(o),
            None => r is None,
        },
{
    let t = crate::text::trim_ascii(s);
    let n = t.as_str().unicode_len();
    if n == 0 {
        return None;
    }
    let first = t.as_str().get_char(0);
    let neg = first == '-';
    let start: usize = if first == '-' || first == '+' {
        1
    } else {
        0
    };
    if start == n {
        proof {
            let ts = crate::text::spec_trim(s@);
            assert(vercmp_digits(s@) =~= ts.drop_first());
            assert(vercmp_digits(s@).len() == 0);
        }
        return None;
    }
    let ghost ts = crate::text::spec_trim(s@);
    let ghost ds = vercmp_digits(s@);
    let mut i: usize = start;
    let mut acc: u64 = 0;
    while i < n
        invariant
            start <= i <= n,
            n == t@.len(),
            t@ == ts,
            ts == crate::text::spec_trim(s@),
            ds == vercmp_digits(s@),
            neg == vercmp_neg(s@),
            start == (if ts[0] == '-' || ts[0] == '+' {
                1int
            } else {
                0int
            }),
            n >= 1,
            start < n,
            forall|j: int| 0 <= j < i - start ==> crate::text::is_digit(ds[j]),
            acc as int == crate::text::digits_val(ds.take(i - start)),
            acc <= 2147483648,
        decreases n - i,
    {
        let c = t.as_str().get_char(i);
        proof {
            assert(ds[i - start] == ts[i as int]);
        }
        if !('0' <= c && c <= '9') {
            proof {
                assert(0 <= i - start < ds.len());
                assert(!crate::text::is_digit(ds[i - start]));
                assert(!(forall|j: int|
                    0 <= j < ds.len() ==> crate::text::is_digit(ds[j]))) by {
                    assert(!crate::text::is_digit(ds[i - start]));
                }
                assert(spec_parse_vercmp(s@) is None);
            }
            return None;
        }
        let d: u64 = (c as u32 as u64) - 48;
        proof {
            let part = ds.take(i - start + 1);
            assert(part.drop_last() =~= ds.take(i - start));
            assert(part.last() == ds[i - start]);
        }
        let next = acc * 10 + d;
        if next > 2147483648 {
            proof {
                // the digits only extend to the right, so the full value can
                // only be larger than this prefix's
                if forall|j2: int| 0 <= j2 < ds.len() ==> crate::text::is_digit(#[trigger] ds[j2]) {
                    crate::text::lemma_digits_val_prefix_le(ds, ds.take(i - start + 1));
                    assert(crate::text::digits_val(ds.take(i - start + 1)) == next);
                    assert(crate::text::digits_val(ds) > 2147483648);
                    assert(spec_parse_vercmp(s@) is None);
                } else {
                    assert(!(forall|j: int|
                        0 <= j < ds.len() ==> crate::text::is_digit(ds[j])));
                    assert(spec_parse_vercmp(s@) is None);
                }
            }
            return None;
        }
        acc = next;
        i = i + 1;
    }
    proof {
        assert(ds.take(n - start) =~= ds);
        assert(ds.len() == n - start > 0);
        assert(crate::text::digits_val(ds) == acc as int);
    }
    if neg {
        if acc > 2147483648 {
            return None;
        }
        if acc == 0 {
            Some(VersionOrder::Equal)
        } else {
            Some(VersionOrder::Less)
        }
    } else {
        if acc > 2147483647 {
            return None;
        }
        if acc == 0 {
            Some(VersionOrder::Equal)
        } else {
            Some(VersionOrder::Greater)
        }
    }
}

} // verus!

