//! Byte-level text handling: trimming and lowercasing of argument tokens,
//! and decoding and rendering of unsigned decimal values.

use vstd::prelude::*;

verus! {

/// The ASCII whitespace bytes that trimming removes: space, tab, line feed,
/// vertical tab, form feed, carriage return.
pub open spec fn is_space(b: u8) -> bool {
    b == 0x20 || (0x09 <= b && b <= 0x0d)
}

/// ASCII lowercasing of a single byte.
pub open spec fn lower(b: u8) -> u8 {
    if 0x41 <= b && b <= 0x5a {
        (b + 0x20) as u8
    } else {
        b
    }
}

/// ASCII lowercasing of a whole byte string.
pub open spec fn lower_all(s: Seq<u8>) -> Seq<u8> {
    s.map_values(|b: u8| lower(b))
}

pub open spec fn trim_front(s: Seq<u8>) -> Seq<u8>
    decreases s.len(),
{
    if s.len() > 0 && is_space(s[0]) {
        trim_front(s.drop_first())
    } else {
        s
    }
}

pub open spec fn trim_back(s: Seq<u8>) -> Seq<u8>
    decreases s.len(),
{
    if s.len() > 0 && is_space(s.last()) {
        trim_back(s.drop_last())
    } else {
        s
    }
}

/// A byte string with leading and trailing whitespace removed.
pub open spec fn trim(s: Seq<u8>) -> Seq<u8> {
    trim_back(trim_front(s))
}

/// A token as the argument parser sees it: trimmed, then lowercased.
pub open spec fn canon(s: Seq<u8>) -> Seq<u8> {
    lower_all(trim(s))
}

fn is_space_byte(b: u8) -> (r: bool)
    ensures
        r == is_space(b),
{
    b == 0x20 || (0x09 <= b && b <= 0x0d)
}

fn lower_byte(b: u8) -> (r: u8)
    ensures
        r == lower(b),
{
    if 0x41 <= b && b <= 0x5a {
        b + 0x20
    } else {
        b
    }
}

/// Dropping `i` leading whitespace bytes, stopping at the first byte that is
/// not whitespace, is exactly what `trim_front` computes.
proof fn lemma_trim_front_is_subrange(s: Seq<u8>, i: int)
    requires
        0 <= i <= s.len(),
        forall|j: int| 0 <= j < i ==> is_space(s[j]),
        i < s.len() ==> !is_space(s[i]),
    ensures
        trim_front(s) == s.subrange(i, s.len() as int),
    decreases i,
{
    if i == 0 {
        assert(s.subrange(0, s.len() as int) =~= s);
    } else {
        let t = s.drop_first();
        assert(forall|j: int| 0 <= j < i - 1 ==> is_space(t[j]));
        lemma_trim_front_is_subrange(t, i - 1);
        assert(t.subrange(i - 1, t.len() as int) =~= s.subrange(i, s.len() as int));
    }
}

/// Dropping trailing whitespace bytes down to length `i`, stopping at the
/// last byte that is not whitespace, is exactly what `trim_back` computes.
proof fn lemma_trim_back_is_subrange(s: Seq<u8>, i: int)
    requires
        0 <= i <= s.len(),
        forall|j: int| i <= j < s.len() ==> is_space(s[j]),
        i > 0 ==> !is_space(s[i - 1]),
    ensures
        trim_back(s) == s.subrange(0, i),
    decreases s.len(),
{
    if i == s.len() {
        assert(s.subrange(0, i) =~= s);
    } else {
        let t = s.drop_last();
        assert(forall|j: int| i <= j < t.len() ==> is_space(t[j]));
        lemma_trim_back_is_subrange(t, i);
        assert(t.subrange(0, i) =~= s.subrange(0, i));
    }
}

pub fn trim_bytes(v: &[u8]) -> (r: Vec<u8>)
    ensures
        r@ == trim(v@),
{
    let n = v.len();
    let mut lo: usize = 0;
    loop
        invariant
            lo <= n,
            n == v@.len(),
            forall|j: int| 0 <= j < lo ==> is_space(v@[j]),
        ensures
            lo <= n,
            forall|j: int| 0 <= j < lo ==> is_space(v@[j]),
            lo < n ==> !is_space(v@[lo as int]),
        decreases n - lo,
    {
        if lo >= n {
            break;
        }
        if !is_space_byte(v[lo]) {
            break;
        }
        lo = lo + 1;
    }
    let mut hi: usize = n;
    loop
        invariant
            lo <= hi <= n,
            n == v@.len(),
            forall|j: int| hi <= j < n ==> is_space(v@[j]),
        ensures
            lo <= hi <= n,
            forall|j: int| hi <= j < n ==> is_space(v@[j]),
            hi > lo ==> !is_space(v@[hi - 1]),
        decreases hi,
    {
        if hi <= lo {
            break;
        }
        if !is_space_byte(v[hi - 1]) {
            break;
        }
        hi = hi - 1;
    }
    let mut out: Vec<u8> = Vec::new();
    let mut i: usize = lo;
    while i < hi
        invariant
            lo <= i <= hi <= v@.len(),
            out@ == v@.subrange(lo as int, i as int),
        decreases hi - i,
    {
        out.push(v[i]);
        proof {
            assert(v@.subrange(lo as int, i + 1) =~= v@.subrange(lo as int, i as int).push(
                v@[i as int],
            ));
        }
        i = i + 1;
    }
    proof {
        lemma_trim_front_is_subrange(v@, lo as int);
        let t = v@.subrange(lo as int, v@.len() as int);
        assert(forall|j: int| hi - lo <= j < t.len() ==> is_space(t[j]));
        if hi > lo {
            assert(t[hi - lo - 1] == v@[hi - 1]);
        }
        lemma_trim_back_is_subrange(t, hi - lo);
        assert(t.subrange(0, hi - lo) =~= v@.subrange(lo as int, hi as int));
    }
    out
}

pub fn lower_bytes(v: &[u8]) -> (r: Vec<u8>)
    ensures
        r@ == lower_all(v@),
{
    let mut out: Vec<u8> = Vec::new();
    let mut i: usize = 0;
    while i < v.len()
        invariant
            i <= v@.len(),
            out@ == lower_all(v@.subrange(0, i as int)),
        decreases v@.len() - i,
    {
        let b = lower_byte(v[i]);
        out.push(b);
        proof {
            assert(lower_all(v@.subrange(0, i + 1)) =~= lower_all(
                v@.subrange(0, i as int),
            ).push(lower(v@[i as int])));
        }
        i = i + 1;
    }
    proof {
        assert(v@.subrange(0, v@.len() as int) =~= v@);
    }
    out
}

/// The trimmed, lowercased form of a token, as `canon` describes it.
pub fn canon_bytes(v: &[u8]) -> (r: Vec<u8>)
    ensures
        r@ == canon(v@),
{
    let t = trim_bytes(v);
    lower_bytes(t.as_slice())
}

/// Whether a byte is an ASCII decimal digit, `'0'` through `'9'`.
pub open spec fn is_digit(b: u8) -> bool {
    0x30 <= b && b <= 0x39
}

pub open spec fn all_digits(s: Seq<u8>) -> bool {
    forall|i: int| 0 <= i < s.len() ==> is_digit(s[i])
}

/// The integer a string of decimal digits denotes, most significant first.
pub open spec fn decimal_value(s: Seq<u8>) -> int
    recommends
        all_digits(s),
    decreases s.len(),
{
    if s.len() == 0 {
        0
    } else {
        10 * decimal_value(s.drop_last()) + (s.last() - 0x30)
    }
}

/// The digits of an unsigned decimal text: everything after an optional
/// leading `'+'` sign.
pub open spec fn digits_of(s: Seq<u8>) -> Seq<u8> {
    if s.len() > 0 && s[0] == 0x2b {
        s.drop_first()
    } else {
        s
    }
}

/// Whether a byte string is a decimal text that denotes a `u32`: an optional
/// `'+'` sign, then at least one digit, with a value that fits in 32 bits.
pub open spec fn is_valid_u32_text(s: Seq<u8>) -> bool {
    &&& digits_of(s).len() > 0
    &&& all_digits(digits_of(s))
    &&& decimal_value(digits_of(s)) <= u32::MAX
}

pub open spec fn u32_text_value(s: Seq<u8>) -> int
    recommends
        is_valid_u32_text(s),
{
    decimal_value(digits_of(s))
}

proof fn lemma_decimal_value_nonneg(s: Seq<u8>)
    requires
        all_digits(s),
    ensures
        decimal_value(s) >= 0,
    decreases s.len(),
{
    if s.len() > 0 {
        lemma_decimal_value_nonneg(s.drop_last());
    }
}

/// A digit string is worth at least any of its prefixes: appending digits
/// never shrinks the value.
proof fn lemma_decimal_prefix_le(s: Seq<u8>, i: int)
    requires
        all_digits(s),
        0 <= i <= s.len(),
    ensures
        decimal_value(s.subrange(0, i)) <= decimal_value(s),
    decreases s.len() - i,
{
    if i == s.len() {
        assert(s.subrange(0, i) =~= s);
    } else {
        let p = s.subrange(0, i + 1);
        assert(p.drop_last() =~= s.subrange(0, i));
        lemma_decimal_value_nonneg(s.subrange(0, i));
        lemma_decimal_prefix_le(s, i + 1);
    }
}

/// Decoding of an unsigned decimal text, as `str::parse` reads one: an
/// optional `'+'` sign and then decimal digits, rejected when empty, when a
/// byte is not a digit, or when the value does not fit in a `u32`.
pub fn parse_u32_text(v: &[u8]) -> (r: Option<u32>)
    ensures
        r is Some <==> is_valid_u32_text(v@),
        r matches Some(n) ==> n == u32_text_value(v@),
{
    let start: usize = if v.len() > 0 && v[0] == 0x2b {
        1
    } else {
        0
    };
    let ghost digits = digits_of(v@);
    proof {
        assert(digits =~= v@.subrange(start as int, v@.len() as int));
    }
    if v.len() == start {
        return None;
    }
    let mut acc: u64 = 0;
    let mut i: usize = start;
    while i < v.len()
        invariant
            start <= i <= v@.len(),
            digits == digits_of(v@),
            digits == v@.subrange(start as int, v@.len() as int),
            all_digits(digits.subrange(0, i - start)),
            acc == decimal_value(digits.subrange(0, i - start)),
            acc <= u32::MAX,
        decreases v@.len() - i,
    {
        let b = v[i];
        if !(0x30 <= b && b <= 0x39) {
            proof {
                assert(digits[i - start] == v@[i as int]);
                assert(!is_digit(digits[i - start]));
            }
            return None;
        }
        let d = (b - 0x30) as u64;
        let new_acc = acc * 10 + d;
        proof {
            let p = digits.subrange(0, i + 1 - start);
            assert(p.drop_last() =~= digits.subrange(0, i - start));
            assert(p.last() == v@[i as int]);
            assert(decimal_value(p) == new_acc);
            assert forall|j: int| 0 <= j < p.len() implies is_digit(p[j]) by {
                if j < p.len() - 1 {
                    assert(p[j] == digits.subrange(0, i - start)[j]);
                } else {
                    assert(p[j] == p.last());
                }
            }
        }
        if new_acc > 0xffff_ffff {
            proof {
                if all_digits(digits) {
                    lemma_decimal_prefix_le(digits, i + 1 - start);
                }
            }
            return None;
        }
        acc = new_acc;
        i = i + 1;
    }
    proof {
        assert(digits.subrange(0, v@.len() - start) =~= digits);
    }
    Some(acc as u32)
}

/// The decimal rendering of a `u32`: plain digits, no sign, no leading zero
/// except for the value 0 itself, and no trailing newline.
pub fn u32_to_decimal(n: u32) -> (r: Vec<u8>)
    ensures
        all_digits(r@),
        r@.len() >= 1,
        decimal_value(r@) == n,
        n > 0 ==> r@[0] != 0x30,
        n == 0 ==> r@ == seq![0x30u8],
    decreases n,
{
    if n < 10 {
        let mut out: Vec<u8> = Vec::new();
        out.push(0x30 + n as u8);
        proof {
            assert(out@.drop_last() =~= Seq::<u8>::empty());
            assert(decimal_value(Seq::<u8>::empty()) == 0);
            assert(decimal_value(out@) == n);
            if n == 0 {
                assert(out@ =~= seq![0x30u8]);
            }
        }
        out
    } else {
        let mut out = u32_to_decimal(n / 10);
        let ghost prefix = out@;
        out.push(0x30 + (n % 10) as u8);
        proof {
            assert(out@.drop_last() =~= prefix);
            assert(decimal_value(out@) == 10 * decimal_value(prefix) + (n % 10));
            assert(n == 10 * (n as int / 10) + (n as int % 10)) by {
                vstd::arithmetic::div_mod::lemma_fundamental_div_mod(n as int, 10);
            }
        }
        out
    }
}

/// Whether two byte strings hold the same bytes.
pub fn bytes_eq(a: &[u8], b: &[u8]) -> (r: bool)
    ensures
        r == (a@ == b@),
{
    if a.len() != b.len() {
        return false;
    }
    let mut i: usize = 0;
    while i < a.len()
        invariant
            i <= a@.len(),
            a@.len() == b@.len(),
            forall|j: int| 0 <= j < i ==> a@[j] == b@[j],
        decreases a@.len() - i,
    {
        if a[i] != b[i] {
            return false;
        }
        i = i + 1;
    }
    proof {
        assert(a@ =~= b@);
    }
    true
}

} // verus!
