//! Recognition of numbers written in scientific notation.
use vstd::prelude::*;
use vstd::utf8::encode_utf8;

verus! {

/// An ASCII decimal digit.
pub open spec fn is_digit(b: u8) -> bool {
    0x30 <= b <= 0x39
}

/// `+` or `-`.
pub open spec fn is_sign(b: u8) -> bool {
    b == 0x2b || b == 0x2d
}

/// `e` or `E`.
pub open spec fn is_exp_marker(b: u8) -> bool {
    b == 0x65 || b == 0x45
}

/// `.`
pub open spec fn is_point(b: u8) -> bool {
    b == 0x2e
}

/// Every byte is a digit (true of the empty sequence).
pub open spec fn all_digits(s: Seq<u8>) -> bool {
    forall|i: int| 0 <= i < s.len() ==> is_digit(#[trigger] s[i])
}

/// One or more digits.
pub open spec fn digit_run(s: Seq<u8>) -> bool {
    s.len() > 0 && all_digits(s)
}

/// The sequence without a leading sign, if it has one.
pub open spec fn unsigned(s: Seq<u8>) -> Seq<u8> {
    if s.len() > 0 && is_sign(s[0]) {
        s.skip(1)
    } else {
        s
    }
}

/// A mantissa that ends in a digit: `ddd`, `ddd.ddd` or `.ddd`.
pub open spec fn mantissa(m: Seq<u8>) -> bool {
    digit_run(m) || exists|k: int|
        0 <= k < m.len() && is_point(#[trigger] m[k]) && all_digits(m.take(k)) && digit_run(
            m.skip(k + 1),
        )
}

/// A number in scientific notation, as the whole text: an optional sign, a
/// mantissa, an exponent marker, then an optionally signed run of digits.
pub open spec fn sci_token(s: Seq<u8>) -> bool {
    exists|e: int|
        0 <= e < s.len() && is_exp_marker(#[trigger] s[e]) && mantissa(unsigned(s.take(e)))
            && digit_run(unsigned(s.skip(e + 1)))
}

/// `sci_token` of a text, read as its UTF-8 bytes.
pub open spec fn sci_text(c: Seq<char>) -> bool {
    sci_token(encode_utf8(c))
}

fn digit_byte(b: u8) -> (r: bool)
    ensures
        r == is_digit(b),
{
    0x30 <= b && b <= 0x39
}

/// Whether `b[lo..hi]` holds only digits.
fn digits_between(b: &[u8], lo: usize, hi: usize) -> (r: bool)
    requires
        lo <= hi <= b@.len(),
    ensures
        r == all_digits(b@.subrange(lo as int, hi as int)),
{
    let mut i: usize = lo;
    while i < hi
        invariant
            lo <= i <= hi <= b@.len(),
            all_digits(b@.subrange(lo as int, i as int)),
        decreases hi - i,
    {
        if !digit_byte(b[i]) {
            assert(b@.subrange(lo as int, hi as int)[i - lo] == b@[i as int]);
            return false;
        }
        assert(forall|j: int|
            0 <= j < i + 1 - lo ==> #[trigger] b@.subrange(lo as int, i + 1)[j] == b@.subrange(
                lo as int,
                i as int,
            )[j] || j == i - lo);
        i = i + 1;
    }
    true
}

/// The first position in `b[lo..hi]` whose byte is `x`, or `hi`.
fn first_of(b: &[u8], lo: usize, hi: usize, x: u8) -> (r: usize)
    requires
        lo <= hi <= b@.len(),
    ensures
        lo <= r <= hi,
        r < hi ==> b@[r as int] == x,
        forall|j: int| lo <= j < r ==> b@[j] != x,
{
    let mut i: usize = lo;
    while i < hi
        invariant
            lo <= i <= hi <= b@.len(),
            forall|j: int| lo <= j < i ==> b@[j] != x,
        decreases hi - i,
    {
        if b[i] == x {
            return i;
        }
        i = i + 1;
    }
    hi
}

/// The first exponent marker in `b[lo..hi]`, or `hi`.
fn first_marker(b: &[u8], lo: usize, hi: usize) -> (r: usize)
    requires
        lo <= hi <= b@.len(),
    ensures
        lo <= r <= hi,
        r < hi ==> is_exp_marker(b@[r as int]),
        forall|j: int| lo <= j < r ==> !is_exp_marker(b@[j]),
{
    let mut i: usize = lo;
    while i < hi
        invariant
            lo <= i <= hi <= b@.len(),
            forall|j: int| lo <= j < i ==> !is_exp_marker(b@[j]),
        decreases hi - i,
    {
        if b[i] == 0x65 || b[i] == 0x45 {
            return i;
        }
        i = i + 1;
    }
    hi
}

/// Start of `b[lo..hi]` once a leading sign is stepped over.
fn after_sign(b: &[u8], lo: usize, hi: usize) -> (r: usize)
    requires
        lo <= hi <= b@.len(),
    ensures
        lo <= r <= hi,
        b@.subrange(r as int, hi as int) == unsigned(b@.subrange(lo as int, hi as int)),
{
    if lo < hi && (b[lo] == 0x2b || b[lo] == 0x2d) {
        assert(b@.subrange(lo + 1, hi as int) =~= b@.subrange(lo as int, hi as int).skip(1));
        lo + 1
    } else {
        lo
    }
}

/// Whether `b[lo..hi]` is a mantissa.
fn mantissa_between(b: &[u8], lo: usize, hi: usize) -> (r: bool)
    requires
        lo <= hi <= b@.len(),
    ensures
        r == mantissa(b@.subrange(lo as int, hi as int)),
{
    let ghost m = b@.subrange(lo as int, hi as int);
    let p = first_of(b, lo, hi, 0x2e);
    if p == hi {
        let r = lo < hi && digits_between(b, lo, hi);
        assert forall|k: int| 0 <= k < m.len() implies !is_point(#[trigger] m[k]) by {
            assert(m[k] == b@[lo + k]);
        }
        r
    } else {
        let ghost k = p - lo;
        assert(m[k] == b@[p as int]);
        assert(m.take(k) =~= b@.subrange(lo as int, p as int));
        assert(m.skip(k + 1) =~= b@.subrange(p + 1, hi as int));
        let r = digits_between(b, lo, p) && p + 1 < hi && digits_between(b, p + 1, hi);
        if !r {
            assert forall|k2: int|
                0 <= k2 < m.len() && is_point(#[trigger] m[k2]) implies !(all_digits(m.take(k2))
                && digit_run(m.skip(k2 + 1))) by {
                if k2 > k {
                    assert(m.take(k2)[k] == m[k]);
                } else if k2 < k {
                    assert(m[k2] == b@[lo + k2]);
                }
            }
        }
        assert(!all_digits(m)) by {
            assert(!is_digit(m[k]));
        }
        r
    }
}

/// Whether the bytes of `b` form a number in scientific notation.
fn sci_bytes(b: &[u8]) -> (r: bool)
    ensures
        r == sci_token(b@),
{
    let n = b.len();
    let ghost s = b@;
    // Only the first marker can end a mantissa: a mantissa holds no marker.
    let e = first_marker(b, 0, n);
    assert(s.subrange(0, n as int) =~= s);
    if e == n {
        assert forall|j: int| 0 <= j < s.len() implies !is_exp_marker(#[trigger] s[j]) by {}
        return false;
    }
    assert(is_exp_marker(s[e as int]));
    assert(s.take(e as int) =~= s.subrange(0, e as int));
    let m0 = after_sign(b, 0, e);
    let ok_m = mantissa_between(b, m0, e);
    let x0 = after_sign(b, e + 1, n);
    assert(s.skip(e + 1) =~= s.subrange(e + 1, n as int));
    let ok_x = x0 < n && digits_between(b, x0, n);
    let r = ok_m && ok_x;
    if r {
        assert(mantissa(unsigned(s.take(e as int))));
    } else {
        assert forall|e2: int|
            0 <= e2 < s.len() && is_exp_marker(#[trigger] s[e2]) implies !(mantissa(
            unsigned(s.take(e2)),
        ) && digit_run(unsigned(s.skip(e2 + 1)))) by {
            if e2 > e {
                lemma_mantissa_free_of_marker(s.take(e2), e as int);
            }
        }
    }
    r
}

/// A text that holds an exponent marker at `j` is no signed mantissa.
proof fn lemma_mantissa_free_of_marker(t: Seq<u8>, j: int)
    requires
        0 <= j < t.len(),
        is_exp_marker(t[j]),
    ensures
        !mantissa(unsigned(t)),
{
    let u = unsigned(t);
    let off: int = if t.len() > 0 && is_sign(t[0]) {
        1
    } else {
        0
    };
    assert(j >= off);
    let ju = j - off;
    assert(u[ju] == t[j]);
    if digit_run(u) {
        assert(is_digit(u[ju]));
    }
    if exists|k: int|
        0 <= k < u.len() && is_point(#[trigger] u[k]) && all_digits(u.take(k)) && digit_run(
            u.skip(k + 1),
        ) {
        let k = choose|k: int|
            0 <= k < u.len() && is_point(#[trigger] u[k]) && all_digits(u.take(k)) && digit_run(
                u.skip(k + 1),
            );
        if ju < k {
            assert(u.take(k)[ju] == u[ju]);
        } else if ju > k {
            assert(u.skip(k + 1)[ju - k - 1] == u[ju]);
        }
    }
}

/// Whether a cell holds a number in scientific notation and nothing else.
pub fn is_sci_float(s: &str) -> (r: bool)
    ensures
        r == sci_text(s@),
{
    sci_bytes(s.as_bytes())
}

} // verus!
