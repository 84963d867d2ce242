//! Verified text utilities: splitting, trimming, case-insensitive comparison,
//! lexicographic ordering, and decimal/hexadecimal digit strings.
//!
//! The upstream package tools that feed this library speak in line- and
//! column-oriented text; every parser in the crate is built from the
//! functions here, each pinned to a recursive specification over `Seq<char>`.

use vstd::prelude::*;

verus! {

use vstd::string::StrSliceExecFns;
use vstd::string::StringExecFns;

/// ASCII whitespace as the upstream tools emit it.
pub open spec fn is_ws(c: char) -> bool {
    c == ' ' || c == '\t' || c == '\n' || c == '\r'
}

/// Index of the first occurrence of `c` in `s`, if any.
pub open spec fn find_char(s: Seq<char>, c: char) -> Option<int>
    decreases s.len(),
{
    if s.len() == 0 {
        None
    } else if s[0] == c {
        Some(0int)
    } else {
        match find_char(s.drop_first(), c) {
            Some(i) => Some(i + 1),
            None => None,
        }
    }
}

pub proof fn lemma_find_char(s: Seq<char>, c: char)
    ensures
        match find_char(s, c) {
            Some(i) => 0 <= i < s.len() && s[i] == c && (forall|j: int| 0 <= j < i ==> s[j] != c),
            None => forall|j: int| 0 <= j < s.len() ==> s[j] != c,
        },
    decreases s.len(),
{
    if s.len() > 0 && s[0] != c {
        let rest = s.drop_first();
        lemma_find_char(rest, c);
        match find_char(rest, c) {
            Some(i) => {
                assert(s[i + 1] == rest[i]);
                assert forall|j: int| 0 <= j < i + 1 implies s[j] != c by {
                    if j > 0 {
                        assert(rest[j - 1] != c);
                    }
                }
            },
            None => {
                assert forall|j: int| 0 <= j < s.len() implies s[j] != c by {
                    if j > 0 {
                        assert(rest[j - 1] != c);
                    }
                }
            },
        }
    }
}

/// The pieces of `s` between occurrences of the separator `c`, separators
/// removed; one piece more than there are separators.
pub open spec fn split_char(s: Seq<char>, c: char) -> Seq<Seq<char>>
    decreases s.len(),
    via split_char_dec
{
    match find_char(s, c) {
        None => seq![s],
        Some(i) => seq![s.take(i)] + split_char(s.skip(i + 1), c),
    }
}

#[via_fn]
proof fn split_char_dec(s: Seq<char>, c: char) {
    lemma_find_char(s, c);
}

/// Find the first occurrence of `c` in `s` at or after position `from`.
pub fn find_char_in(s: &str, n: usize, from: usize, c: char) -> (r: Option<usize>)
    requires
        n == s@.len(),
        from <= n,
    ensures
        match r {
            Some(i) => from <= i < n && s@[i as int] == c && (forall|j: int|
                from <= j < i ==> s@[j] != c),
            None => forall|j: int| from <= j < n ==> s@[j] != c,
        },
{
    let mut i: usize = from;
    while i < n
        invariant
            from <= i <= n,
            n == s@.len(),
            forall|j: int| from <= j < i ==> s@[j] != c,
        decreases n - i,
    {
        if s.get_char(i) == c {
            return Some(i);
        }
        i = i + 1;
    }
    None
}

/// Split `s` on every occurrence of the character `c`.
pub fn split_str_char(s: &str, c: char) -> (r: Vec<String>)
    ensures
        r.deep_view() == split_char(s@, c),
{
    let n = s.unicode_len();
    let mut r: Vec<String> = Vec::new();
    let mut p: usize = 0;
    proof {
        assert(s@.skip(0) =~= s@);
        assert(r.deep_view() =~= Seq::<Seq<char>>::empty());
    }
    loop
        invariant
            p <= n,
            n == s@.len(),
            split_char(s@, c) == r.deep_view() + split_char(s@.skip(p as int), c),
        decreases n - p,
    {
        let found = find_char_in(s, n, p, c);
        match found {
            Some(i) => {
                let piece = s.substring_char(p, i).to_owned();
                let ghost old_r = r.deep_view();
                r.push(piece);
                proof {
                    let suf = s@.skip(p as int);
                    lemma_find_char(suf, c);
                    // the scan found the same first occurrence
                    assert(suf[i - p] == c);
                    assert(forall|j: int| 0 <= j < i - p ==> suf[j] != c);
                    match find_char(suf, c) {
                        Some(k) => {
                            assert(suf[k] == c);
                            assert(k == i - p) by {
                                if k < i - p {
                                    assert(suf[k] != c);
                                } else if k > i - p {
                                    assert(suf[i - p] != c);
                                }
                            }
                        },
                        None => {
                            assert(suf[i - p] != c);
                        },
                    }
                    assert(find_char(suf, c) == Some(i - p));
                    assert(suf.take(i - p) =~= s@.subrange(p as int, i as int));
                    assert(suf.skip(i - p + 1) =~= s@.skip(i + 1));
                    assert(r.deep_view() =~= old_r.push(piece@));
                    assert(split_char(suf, c) == seq![piece@] + split_char(s@.skip(i + 1), c));
                    assert(r.deep_view() + split_char(s@.skip(i + 1 as int), c) =~= old_r + (
                    seq![piece@] + split_char(s@.skip(i + 1), c)));
                }
                p = i + 1;
            },
            None => {
                let piece = s.substring_char(p, n).to_owned();
                let ghost old_r = r.deep_view();
                r.push(piece);
                proof {
                    let suf = s@.skip(p as int);
                    lemma_find_char(suf, c);
                    match find_char(suf, c) {
                        Some(k) => {
                            assert(suf[k] != c);
                        },
                        None => {},
                    }
                    assert(find_char(suf, c) is None);
                    assert(suf =~= s@.subrange(p as int, n as int));
                    assert(split_char(suf, c) == seq![piece@]);
                    assert(r.deep_view() =~= old_r.push(piece@));
                    assert(r.deep_view() =~= old_r + seq![piece@]);
                }
                return r;
            },
        }
    }
}

/// The lines of `s`: pieces between newline characters.
pub fn lines_of(s: &str) -> (r: Vec<String>)
    ensures
        r.deep_view() == split_char(s@, '\n'),
{
    split_str_char(s, '\n')
}

/// Length of the leading run of non-whitespace characters.
pub open spec fn token_len(s: Seq<char>) -> int
    decreases s.len(),
{
    if s.len() == 0 || is_ws(s[0]) {
        0
    } else {
        1 + token_len(s.drop_first())
    }
}

pub proof fn lemma_token_len(s: Seq<char>)
    ensures
        0 <= token_len(s) <= s.len(),
        forall|j: int| 0 <= j < token_len(s) ==> !is_ws(s[j]),
        token_len(s) < s.len() ==> is_ws(s[token_len(s)]),
    decreases s.len(),
{
    if s.len() > 0 && !is_ws(s[0]) {
        let rest = s.drop_first();
        lemma_token_len(rest);
        assert forall|j: int| 0 <= j < token_len(s) implies !is_ws(s[j]) by {
            if j > 0 {
                assert(!is_ws(rest[j - 1]));
            }
        }
        if token_len(s) < s.len() {
            assert(s[token_len(s)] == rest[token_len(rest)]);
        }
    }
}

/// The whitespace-separated tokens of `s`, in order, with no empty tokens.
pub open spec fn split_ws(s: Seq<char>) -> Seq<Seq<char>>
    decreases s.len(),
    via split_ws_dec
{
    if s.len() == 0 {
        Seq::empty()
    } else if is_ws(s[0]) {
        split_ws(s.drop_first())
    } else {
        seq![s.take(token_len(s))] + split_ws(s.skip(token_len(s)))
    }
}

#[via_fn]
proof fn split_ws_dec(s: Seq<char>) {
    lemma_token_len(s);
}

/// First whitespace character at or after `from`, or `n` if there is none.
fn scan_non_ws(s: &str, n: usize, from: usize) -> (e: usize)
    requires
        n == s@.len(),
        from <= n,
    ensures
        from <= e <= n,
        forall|j: int| from <= j < e ==> !is_ws(s@[j]),
        e < n ==> is_ws(s@[e as int]),
{
    let mut e: usize = from;
    while e < n
        invariant
            from <= e <= n,
            n == s@.len(),
            forall|j: int| from <= j < e ==> !is_ws(s@[j]),
        decreases n - e,
    {
        let d = s.get_char(e);
        if d == ' ' || d == '\t' || d == '\n' || d == '\r' {
            return e;
        }
        e = e + 1;
    }
    e
}

/// First non-whitespace character at or after `from`, or `n` if there is none.
fn scan_ws(s: &str, n: usize, from: usize) -> (e: usize)
    requires
        n == s@.len(),
        from <= n,
    ensures
        from <= e <= n,
        forall|j: int| from <= j < e ==> is_ws(s@[j]),
        e < n ==> !is_ws(s@[e as int]),
{
    let mut e: usize = from;
    while e < n
        invariant
            from <= e <= n,
            n == s@.len(),
            forall|j: int| from <= j < e ==> is_ws(s@[j]),
        decreases n - e,
    {
        let d = s.get_char(e);
        if !(d == ' ' || d == '\t' || d == '\n' || d == '\r') {
            return e;
        }
        e = e + 1;
    }
    e
}

/// Split `s` into its whitespace-separated tokens.
pub fn split_str_ws(s: &str) -> (r: Vec<String>)
    ensures
        r.deep_view() == split_ws(s@),
{
    let n = s.unicode_len();
    let mut r: Vec<String> = Vec::new();
    let mut p: usize = 0;
    proof {
        assert(s@.skip(0) =~= s@);
        assert(r.deep_view() =~= Seq::<Seq<char>>::empty());
    }
    while p < n
        invariant
            p <= n,
            n == s@.len(),
            split_ws(s@) == r.deep_view() + split_ws(s@.skip(p as int)),
        decreases n - p,
    {
        let c = s.get_char(p);
        if c == ' ' || c == '\t' || c == '\n' || c == '\r' {
            proof {
                let suf = s@.skip(p as int);
                assert(is_ws(suf[0]));
                assert(suf.drop_first() =~= s@.skip(p + 1));
            }
            p = p + 1;
        } else {
            let e = scan_non_ws(s, n, p);
            let piece = s.substring_char(p, e).to_owned();
            let ghost old_r = r.deep_view();
            r.push(piece);
            proof {
                let suf = s@.skip(p as int);
                lemma_token_len(suf);
                // token_len(suf) == e - p
                assert(forall|j: int| 0 <= j < e - p ==> !is_ws(suf[j]));
                if e < n {
                    assert(is_ws(suf[e - p]));
                }
                let t = token_len(suf);
                assert(t == e - p) by {
                    if t < e - p {
                        if t < suf.len() {
                            assert(!is_ws(suf[t]));
                        }
                    } else if t > e - p {
                        assert(!is_ws(suf[e - p]));
                        assert(e - p < suf.len());
                    }
                }
                assert(suf.take(t) =~= s@.subrange(p as int, e as int));
                assert(suf.skip(t) =~= s@.skip(e as int));
                assert(!is_ws(suf[0]));
                assert(split_ws(suf) == seq![piece@] + split_ws(s@.skip(e as int)));
                assert(r.deep_view() =~= old_r.push(piece@));
                assert(r.deep_view() + split_ws(s@.skip(e as int)) =~= old_r + (seq![piece@]
                    + split_ws(s@.skip(e as int))));
            }
            p = e;
        }
    }
    proof {
        assert(s@.skip(n as int) =~= Seq::<char>::empty());
        assert(split_ws(Seq::<char>::empty()) =~= Seq::<Seq<char>>::empty());
        assert(r.deep_view() + Seq::<Seq<char>>::empty() =~= r.deep_view());
    }
    r
}

/// `s` with leading and trailing ASCII whitespace removed.
pub open spec fn spec_trim(s: Seq<char>) -> Seq<char>
    decreases s.len(),
{
    if s.len() == 0 {
        s
    } else if is_ws(s[0]) {
        spec_trim(s.drop_first())
    } else if is_ws(s.last()) {
        spec_trim(s.drop_last())
    } else {
        s
    }
}

/// Largest `b` such that everything from `b` to `n` is whitespace, not going
/// below `a`.
fn scan_ws_back(s: &str, n: usize, a: usize) -> (b: usize)
    requires
        n == s@.len(),
        a <= n,
    ensures
        a <= b <= n,
        forall|j: int| b <= j < n ==> is_ws(s@[j]),
        b > a ==> !is_ws(s@[b - 1]),
{
    let mut b: usize = n;
    while b > a
        invariant
            a <= b <= n,
            n == s@.len(),
            forall|j: int| b <= j < n ==> is_ws(s@[j]),
        decreases b,
    {
        let c = s.get_char(b - 1);
        if !(c == ' ' || c == '\t' || c == '\n' || c == '\r') {
            return b;
        }
        b = b - 1;
    }
    b
}

/// The trimmed value of `s` is the subrange between its whitespace margins.
pub proof fn lemma_trim_range(s: Seq<char>, a: int, b: int)
    requires
        0 <= a <= b <= s.len(),
        forall|j: int| 0 <= j < a ==> is_ws(s[j]),
        forall|j: int| b <= j < s.len() ==> is_ws(s[j]),
        a < b ==> !is_ws(s[a]) && !is_ws(s[b - 1]),
    ensures
        spec_trim(s) == s.subrange(a, b),
    decreases s.len(),
{
    if s.len() == 0 {
        assert(s.subrange(a, b) =~= s);
    } else if a == b {
        // the whole string is whitespace
        assert(is_ws(s[0]));
        let rest = s.drop_first();
        lemma_trim_range(rest, 0, 0);
        assert(rest.subrange(0, 0) =~= s.subrange(a, b));
    } else if a > 0 {
        assert(is_ws(s[0]));
        let rest = s.drop_first();
        lemma_trim_range(rest, a - 1, b - 1);
        assert(rest.subrange(a - 1, b - 1) =~= s.subrange(a, b));
    } else if b < s.len() {
        assert(is_ws(s.last()));
        assert(!is_ws(s[0]));
        let rest = s.drop_last();
        lemma_trim_range(rest, a, b);
        assert(rest.subrange(a, b) =~= s.subrange(a, b));
    } else {
        assert(!is_ws(s[0]) && !is_ws(s.last()));
        assert(s.subrange(0, s.len() as int) =~= s);
    }
}

/// Remove leading and trailing ASCII whitespace.
pub fn trim_ascii(s: &str) -> (r: String)
    ensures
        r@ == spec_trim(s@),
{
    let n = s.unicode_len();
    let a = scan_ws(s, n, 0);
    let b = scan_ws_back(s, n, a);
    let r = s.substring_char(a, b).to_owned();
    proof {
        if b > a {
            assert(!is_ws(s@[b - 1]));
            assert(!is_ws(s@[a as int]));
        }
        lemma_trim_range(s@, a as int, b as int);
    }
    r
}

/// The ASCII-lowercased code of a character.
pub open spec fn lower_code(c: char) -> int {
    if 'A' <= c && c <= 'Z' {
        c as int + 32
    } else {
        c as int
    }
}

/// Equality of two character sequences up to ASCII case.
pub open spec fn eq_ignore_case(a: Seq<char>, b: Seq<char>) -> bool {
    a.len() == b.len() && forall|i: int| 0 <= i < a.len() ==> lower_code(a[i]) == lower_code(b[i])
}

/// Compare two strings, ignoring ASCII case.
pub fn str_eq_ignore_case(a: &str, b: &str) -> (r: bool)
    ensures
        r == eq_ignore_case(a@, b@),
{
    let na = a.unicode_len();
    let nb = b.unicode_len();
    if na != nb {
        return false;
    }
    let mut i: usize = 0;
    while i < na
        invariant
            i <= na,
            na == a@.len(),
            na == b@.len(),
            forall|j: int| 0 <= j < i ==> lower_code(a@[j]) == lower_code(b@[j]),
        decreases na - i,
    {
        let ca = a.get_char(i);
        let cb = b.get_char(i);
        let la: u32 = if 'A' <= ca && ca <= 'Z' {
            ca as u32 + 32
        } else {
            ca as u32
        };
        let lb: u32 = if 'A' <= cb && cb <= 'Z' {
            cb as u32 + 32
        } else {
            cb as u32
        };
        if la != lb {
            return false;
        }
        i = i + 1;
    }
    true
}

/// Strict lexicographic order on character sequences by scalar value; for
/// UTF-8 strings this coincides with byte-wise string order.
pub open spec fn lex_lt(a: Seq<char>, b: Seq<char>) -> bool
    decreases a.len(),
{
    if b.len() == 0 {
        false
    } else if a.len() == 0 {
        true
    } else if a[0] != b[0] {
        (a[0] as int) < (b[0] as int)
    } else {
        lex_lt(a.drop_first(), b.drop_first())
    }
}

pub proof fn lemma_lex_lt_trichotomy(a: Seq<char>, b: Seq<char>)
    ensures
        lex_lt(a, b) || lex_lt(b, a) || a == b,
        lex_lt(a, b) ==> !lex_lt(b, a),
        lex_lt(a, b) ==> a != b,
    decreases a.len(),
{
    if a.len() > 0 && b.len() > 0 && a[0] == b[0] {
        lemma_lex_lt_trichotomy(a.drop_first(), b.drop_first());
        if a.drop_first() == b.drop_first() {
            assert(a.len() == b.len());
            assert forall|i: int| 0 <= i < a.len() implies a[i] == b[i] by {
                if i > 0 {
                    assert(a.drop_first()[i - 1] == b.drop_first()[i - 1]);
                }
            }
            assert(a =~= b);
        }
    } else if a.len() == 0 && b.len() == 0 {
        assert(a =~= b);
    }
}

pub proof fn lemma_lex_lt_trans(a: Seq<char>, b: Seq<char>, c: Seq<char>)
    requires
        lex_lt(a, b),
        lex_lt(b, c),
    ensures
        lex_lt(a, c),
    decreases a.len(),
{
    if a.len() > 0 && b.len() > 0 && c.len() > 0 {
        if a[0] == b[0] && b[0] == c[0] {
            lemma_lex_lt_trans(a.drop_first(), b.drop_first(), c.drop_first());
        }
    }
}

/// Compare two strings in lexicographic scalar-value order.
pub fn str_lt(a: &str, b: &str) -> (r: bool)
    ensures
        r == lex_lt(a@, b@),
{
    let na = a.unicode_len();
    let nb = b.unicode_len();
    let mut i: usize = 0;
    proof {
        assert(a@.skip(0) =~= a@);
        assert(b@.skip(0) =~= b@);
    }
    loop
        invariant
            i <= na,
            i <= nb,
            na == a@.len(),
            nb == b@.len(),
            lex_lt(a@, b@) == lex_lt(a@.skip(i as int), b@.skip(i as int)),
        decreases na - i,
    {
        if i == nb {
            proof {
                assert(b@.skip(i as int) =~= Seq::<char>::empty());
            }
            return false;
        }
        if i == na {
            proof {
                assert(a@.skip(i as int) =~= Seq::<char>::empty());
                assert(b@.skip(i as int).len() > 0);
            }
            return true;
        }
        let ca = a.get_char(i);
        let cb = b.get_char(i);
        proof {
            let sa = a@.skip(i as int);
            let sb = b@.skip(i as int);
            assert(sa[0] == ca && sb[0] == cb);
            if ca == cb {
                assert(sa.drop_first() =~= a@.skip(i + 1));
                assert(sb.drop_first() =~= b@.skip(i + 1));
            }
        }
        if ca != cb {
            return (ca as u32) < (cb as u32);
        }
        i = i + 1;
    }
}

/// The character for one decimal digit.
pub open spec fn digit_char(d: int) -> char {
    if d == 0 {
        '0'
    } else if d == 1 {
        '1'
    } else if d == 2 {
        '2'
    } else if d == 3 {
        '3'
    } else if d == 4 {
        '4'
    } else if d == 5 {
        '5'
    } else if d == 6 {
        '6'
    } else if d == 7 {
        '7'
    } else if d == 8 {
        '8'
    } else {
        '9'
    }
}

/// The decimal digit string of a non-negative integer, without leading zeros.
pub open spec fn spec_digits(n: int) -> Seq<char>
    decreases n,
{
    if n < 10 {
        seq![digit_char(n)]
    } else {
        spec_digits(n / 10).push(digit_char(n % 10))
    }
}

pub open spec fn is_digit(c: char) -> bool {
    '0' <= c && c <= '9'
}

/// The numeric value of a decimal digit character.
pub open spec fn digit_val(c: char) -> int {
    c as int - '0' as int
}

/// The value denoted by a sequence of decimal digit characters.
pub open spec fn digits_val(s: Seq<char>) -> int
    decreases s.len(),
{
    if s.len() == 0 {
        0
    } else {
        digits_val(s.drop_last()) * 10 + digit_val(s.last())
    }
}

pub proof fn lemma_digit_char_val(d: int)
    requires
        0 <= d < 10,
    ensures
        digit_val(digit_char(d)) == d,
        is_digit(digit_char(d)),
{
}

pub proof fn lemma_spec_digits(n: int)
    requires
        n >= 0,
    ensures
        spec_digits(n).len() >= 1,
        forall|i: int| 0 <= i < spec_digits(n).len() ==> is_digit(#[trigger] spec_digits(n)[i]),
        digits_val(spec_digits(n)) == n,
    decreases n,
{
    if n < 10 {
        let s = spec_digits(n);
        lemma_digit_char_val(n);
        assert(s.drop_last() =~= Seq::<char>::empty());
        assert(digits_val(s) == digits_val(s.drop_last()) * 10 + digit_val(s.last()));
    } else {
        lemma_spec_digits(n / 10);
        lemma_digit_char_val(n % 10);
        let s = spec_digits(n);
        assert(s.drop_last() =~= spec_digits(n / 10));
        assert(s.last() == digit_char(n % 10));
        assert(digits_val(s) == (n / 10) * 10 + n % 10);
    }
}

/// Length of the leading run of decimal digits.
pub open spec fn digit_run(s: Seq<char>) -> int
    decreases s.len(),
{
    if s.len() == 0 || !is_digit(s[0]) {
        0
    } else {
        1 + digit_run(s.drop_first())
    }
}

pub proof fn lemma_digit_run(s: Seq<char>)
    ensures
        0 <= digit_run(s) <= s.len(),
        forall|j: int| 0 <= j < digit_run(s) ==> is_digit(s[j]),
        digit_run(s) < s.len() ==> !is_digit(s[digit_run(s)]),
    decreases s.len(),
{
    if s.len() > 0 && is_digit(s[0]) {
        let rest = s.drop_first();
        lemma_digit_run(rest);
        assert forall|j: int| 0 <= j < digit_run(s) implies is_digit(s[j]) by {
            if j > 0 {
                assert(is_digit(rest[j - 1]));
            }
        }
        if digit_run(s) < s.len() {
            assert(s[digit_run(s)] == rest[digit_run(rest)]);
        }
    }
}

/// The string for one decimal digit.
pub fn digit_str(d: u64) -> (r: &'static str)
    requires
        d < 10,
    ensures
        r@ =~= seq![digit_char(d as int)],
{
    proof {
        reveal_strlit("0");
        reveal_strlit("1");
        reveal_strlit("2");
        reveal_strlit("3");
        reveal_strlit("4");
        reveal_strlit("5");
        reveal_strlit("6");
        reveal_strlit("7");
        reveal_strlit("8");
        reveal_strlit("9");
    }
    if d == 0 {
        "0"
    } else if d == 1 {
        "1"
    } else if d == 2 {
        "2"
    } else if d == 3 {
        "3"
    } else if d == 4 {
        "4"
    } else if d == 5 {
        "5"
    } else if d == 6 {
        "6"
    } else if d == 7 {
        "7"
    } else if d == 8 {
        "8"
    } else {
        "9"
    }
}

/// Render an unsigned integer as its decimal digit string.
pub fn u64_to_string(n: u64) -> (r: String)
    ensures
        r@ == spec_digits(n as int),
    decreases n,
{
    if n < 10 {
        digit_str(n).to_owned()
    } else {
        let mut r = u64_to_string(n / 10);
        let d = digit_str(n % 10);
        r.append(d);
        proof {
            assert(r@ =~= spec_digits((n / 10) as int).push(digit_char((n % 10) as int)));
        }
        r
    }
}

/// Parse the maximal run of decimal digits starting at `pos`; `None` when
/// there is no digit at `pos` or the value does not fit in a `u64`.
pub fn parse_u64_at(s: &str, n: usize, pos: usize) -> (r: Option<(u64, usize)>)
    requires
        n == s@.len(),
        pos <= n,
    ensures
        match r {
            Some(p) => {
                let (v, q) = p;
                pos < q <= n && q - pos == digit_run(s@.skip(pos as int)) && v as int
                    == digits_val(s@.subrange(pos as int, q as int))
            },
            None => digit_run(s@.skip(pos as int)) == 0 || digits_val(
                s@.subrange(pos as int, pos + digit_run(s@.skip(pos as int))),
            ) > u64::MAX,
        },
{
    proof {
        lemma_digit_run(s@.skip(pos as int));
    }
    if pos == n {
        return None;
    }
    let c0 = s.get_char(pos);
    if !('0' <= c0 && c0 <= '9') {
        return None;
    }
    let mut q: usize = pos;
    let mut acc: u64 = 0;
    loop
        invariant
            pos <= q <= n,
            pos < n,
            n == s@.len(),
            forall|j: int| pos <= j < q ==> is_digit(s@[j]),
            q < n ==> q - pos < digit_run(s@.skip(pos as int)) || !is_digit(s@[q as int]),
            acc as int == digits_val(s@.subrange(pos as int, q as int)),
            q - pos <= digit_run(s@.skip(pos as int)),
            is_digit(s@[pos as int]),
        decreases n - q,
    {
        proof {
            let suf = s@.skip(pos as int);
            lemma_digit_run(suf);
            assert forall|j: int| 0 <= j < q - pos implies is_digit(suf[j]) by {
                assert(suf[j] == s@[pos + j]);
            }
        }
        if q == n {
            proof {
                let suf = s@.skip(pos as int);
                lemma_digit_run(suf);
                assert(digit_run(suf) <= suf.len());
                assert(suf.len() == n - pos);
                if (q - pos) < digit_run(suf) {
                    assert(is_digit(suf[q - pos]));
                    assert(suf[q - pos] == s@[pos + (q - pos)]);
                    assert(false);
                }
            }
            return Some((acc, q));
        }
        let c = s.get_char(q);
        if !('0' <= c && c <= '9') {
            proof {
                let suf = s@.skip(pos as int);
                lemma_digit_run(suf);
                if (q - pos) < digit_run(suf) {
                    assert(is_digit(suf[q - pos]));
                    assert(suf[q - pos] == s@[q as int]);
                }
                if q == pos {
                    assert(is_digit(s@[pos as int]));
                    assert(false);
                }
            }
            return Some((acc, q));
        }
        proof {
            // q - pos < digit_run: the run extends past q
            let suf = s@.skip(pos as int);
            lemma_digit_run(suf);
            if (q - pos) >= digit_run(suf) {
                assert(digit_run(suf) < suf.len());
                assert(!is_digit(suf[digit_run(suf)]));
                assert(suf[q - pos] == s@[q as int]);
                assert(false);
            }
        }
        let d: u64 = (c as u32 as u64) - 48;
        if acc > (u64::MAX - d) / 10 {
            proof {
                // the full run's value only grows from here
                let suf = s@.skip(pos as int);
                lemma_digit_run(suf);
                assert forall|j: int| 0 <= j < digit_run(suf) implies is_digit(#[trigger] s@[pos + j]) by {
                    assert(is_digit(suf[j]));
                }
                let run = digit_run(suf);
                let full = s@.subrange(pos as int, pos + run);
                let part = s@.subrange(pos as int, q + 1);
                lemma_digits_val_prefix_le(full, part);
                assert(part.drop_last() =~= s@.subrange(pos as int, q as int));
                assert(part.last() == s@[q as int]);
                assert(digits_val(part) == acc * 10 + d);
                assert(acc * 10 + d > u64::MAX) by {
                    let m = u64::MAX - d;
                    assert(acc >= m / 10 + 1);
                    assert(acc * 10 >= (m / 10 + 1) * 10) by (nonlinear_arith)
                        requires
                            acc >= m / 10 + 1,
                    ;
                    assert((m / 10) * 10 + 10 > m);
                }
            }
            return None;
        }
        let new_acc = acc * 10 + d;
        proof {
            let part = s@.subrange(pos as int, q + 1);
            assert(part.drop_last() =~= s@.subrange(pos as int, q as int));
            assert(part.last() == s@[q as int]);
            assert(digit_val(s@[q as int]) == d);
        }
        acc = new_acc;
        q = q + 1;
    }
}

/// A character's scalar value is non-negative.
pub proof fn lemma_char_nonneg(c: char)
    ensures
        c as int >= 0,
{
}

/// The decimal rendering of a number parses back to it: wherever the
/// digit string of `n` stands in a text, not followed by a further digit,
/// the maximal digit run there is exactly that string and its value is
/// `n`.
pub proof fn lemma_digits_round_trip(t: Seq<char>, pos: int, n: u64)
    requires
        0 <= pos,
        pos + spec_digits(n as int).len() <= t.len(),
        t.subrange(pos, pos + spec_digits(n as int).len() as int) == spec_digits(n as int),
        pos + spec_digits(n as int).len() < t.len() ==> !is_digit(
            t[pos + spec_digits(n as int).len()],
        ),
    ensures
        digit_run(t.skip(pos)) == spec_digits(n as int).len(),
        digits_val(t.subrange(pos, pos + digit_run(t.skip(pos)))) == n,
{
    let ds = spec_digits(n as int);
    let suf = t.skip(pos);
    lemma_spec_digits(n as int);
    lemma_digit_run(suf);
    assert forall|j: int| 0 <= j < ds.len() implies is_digit(#[trigger] suf[j]) by {
        assert(suf[j] == t.subrange(pos, pos + ds.len() as int)[j]);
    }
    let run = digit_run(suf);
    if run < ds.len() {
        assert(!is_digit(suf[run]));
        assert(false);
    } else if run > ds.len() {
        assert(pos + ds.len() < t.len());
        assert(is_digit(suf[ds.len() as int]));
        assert(suf[ds.len() as int] == t[pos + ds.len()]);
        assert(false);
    }
    assert(t.subrange(pos, pos + run) =~= ds);
}

/// A digit string's value is at least the value of any of its prefixes.
pub proof fn lemma_digits_val_prefix_le(full: Seq<char>, part: Seq<char>)
    requires
        part.len() <= full.len(),
        forall|j: int| 0 <= j < part.len() ==> part[j] == full[j],
        forall|j: int| 0 <= j < full.len() ==> is_digit(full[j]),
    ensures
        digits_val(part) <= digits_val(full),
        digits_val(part) >= 0,
        digits_val(full) >= 0,
    decreases full.len(),
{
    if part.len() == full.len() {
        assert(part =~= full);
        lemma_digits_val_nonneg(full);
    } else if full.len() > 0 {
        let fp = full.drop_last();
        lemma_digits_val_prefix_le(fp, part);
        lemma_digits_val_nonneg(full);
        assert(digits_val(full) == digits_val(fp) * 10 + digit_val(full.last()));
        assert(digits_val(fp) * 10 >= digits_val(fp)) by (nonlinear_arith)
            requires
                digits_val(fp) >= 0,
        ;
        assert(digit_val(full.last()) >= 0);
    }
}

pub proof fn lemma_digits_val_nonneg(s: Seq<char>)
    requires
        forall|j: int| 0 <= j < s.len() ==> is_digit(s[j]),
    ensures
        digits_val(s) >= 0,
    decreases s.len(),
{
    if s.len() > 0 {
        lemma_digits_val_nonneg(s.drop_last());
    }
}

/// The character for one lowercase hexadecimal digit.
pub open spec fn hex_char(d: int) -> char {
    if d < 10 {
        digit_char(d)
    } else if d == 10 {
        'a'
    } else if d == 11 {
        'b'
    } else if d == 12 {
        'c'
    } else if d == 13 {
        'd'
    } else if d == 14 {
        'e'
    } else {
        'f'
    }
}

/// The lowercase hexadecimal rendering of a byte string, two characters per
/// byte.
pub open spec fn spec_hex(bs: Seq<u8>) -> Seq<char>
    decreases bs.len(),
{
    if bs.len() == 0 {
        Seq::empty()
    } else {
        spec_hex(bs.drop_last()) + seq![
            hex_char(bs.last() as int / 16),
            hex_char(bs.last() as int % 16),
        ]
    }
}

/// The string for one hexadecimal digit.
fn hex_str(d: u8) -> (r: &'static str)
    requires
        d < 16,
    ensures
        r@ =~= seq![hex_char(d as int)],
{
    if d < 10 {
        digit_str(d as u64)
    } else {
        proof {
            reveal_strlit("a");
            reveal_strlit("b");
            reveal_strlit("c");
            reveal_strlit("d");
            reveal_strlit("e");
            reveal_strlit("f");
        }
        if d == 10 {
            "a"
        } else if d == 11 {
            "b"
        } else if d == 12 {
            "c"
        } else if d == 13 {
            "d"
        } else if d == 14 {
            "e"
        } else {
            "f"
        }
    }
}

/// Render a byte string as lowercase hexadecimal.
pub fn hex_lower(bytes: &Vec<u8>) -> (r: String)
    ensures
        r@ == spec_hex(bytes@),
{
    let mut r = String::new();
    let mut i: usize = 0;
    proof {
        assert(bytes@.take(0) =~= Seq::<u8>::empty());
    }
    while i < bytes.len()
        invariant
            i <= bytes@.len(),
            r@ == spec_hex(bytes@.take(i as int)),
        decreases bytes@.len() - i,
    {
        let b = bytes[i];
        r.append(hex_str(b / 16));
        r.append(hex_str(b % 16));
        proof {
            let t = bytes@.take(i + 1);
            assert(t.drop_last() =~= bytes@.take(i as int));
            assert(t.last() == bytes@[i as int]);
        }
        i = i + 1;
    }
    proof {
        assert(bytes@.take(bytes@.len() as int) =~= bytes@);
    }
    r
}

} // verus!
