//! Lowercase hexadecimal formatting and parsing of unsigned values.
//!
//! This is the shared numeric core of the trace-identifier codec and of the
//! textual span-context codec: values are printed as shortest lowercase hex
//! (`{:x}`) or as fixed-width zero-padded hex (`{:016x}`), and parsed back
//! from byte strings of hexadecimal digits (both cases accepted).
use vstd::arithmetic::div_mod::*;
use vstd::arithmetic::power::*;
use vstd::prelude::*;

verus! {

/// 16 to the power `k`.
pub open spec fn pow16(k: nat) -> nat {
    pow(16, k) as nat
}

/// Is `b` the ASCII code of a hexadecimal digit (either case)?
pub open spec fn is_hex_digit(b: u8) -> bool {
    (48 <= b && b <= 57) || (97 <= b && b <= 102) || (65 <= b && b <= 70)
}

/// The numeric value of one hexadecimal digit byte.
pub open spec fn hex_digit_value(b: u8) -> nat {
    if 48 <= b && b <= 57 {
        (b - 48) as nat
    } else if 97 <= b && b <= 102 {
        (b - 87) as nat
    } else if 65 <= b && b <= 70 {
        (b - 55) as nat
    } else {
        0
    }
}

/// Every byte of `s` is a hexadecimal digit.
pub open spec fn all_hex_digits(s: Seq<u8>) -> bool {
    forall|i: int| 0 <= i < s.len() ==> is_hex_digit(#[trigger] s[i])
}

/// The value of a big-endian string of hexadecimal digits.
pub open spec fn hex_value(s: Seq<u8>) -> nat
    decreases s.len(),
{
    if s.len() == 0 {
        0
    } else {
        hex_value(s.drop_last()) * 16 + hex_digit_value(s.last())
    }
}

/// The lowercase digit byte for a value below 16.
pub open spec fn hex_digit_byte_of(d: nat) -> u8 {
    if d < 10 {
        (48 + d) as u8
    } else {
        (87 + d) as u8
    }
}

/// The shortest lowercase hexadecimal rendering of `n` (what `{:x}` prints);
/// zero renders as a single `0` digit.
pub open spec fn min_hex(n: nat) -> Seq<u8>
    decreases n,
{
    if n < 16 {
        seq![hex_digit_byte_of(n)]
    } else {
        min_hex(n / 16).push(hex_digit_byte_of(n % 16))
    }
}

/// `width` lowercase hexadecimal digits of `n`, zero padded on the left
/// (what `{:016x}` prints for width 16).
pub open spec fn padded_hex(n: nat, width: nat) -> Seq<u8>
    decreases width,
{
    if width == 0 {
        Seq::empty()
    } else {
        padded_hex(n / 16, (width - 1) as nat).push(hex_digit_byte_of(n % 16))
    }
}

/// Unfolding 16^k once: `16^k == 16 * 16^(k-1)` for positive `k`.
pub proof fn lemma_pow16_unfold(k: nat)
    requires
        1 <= k,
    ensures
        pow16(k) == 16 * pow16((k - 1) as nat),
{
    lemma_pow1(16);
    lemma_pow_adds(16, 1, (k - 1) as nat);
    lemma_pow_positive(16, (k - 1) as nat);
    assert(pow(16, 1) == 16);
    assert(pow(16, k) == 16 * pow(16, (k - 1) as nat));
}

/// A digit's value is below 16, whatever the byte.
pub proof fn lemma_hex_digit_value_bound(b: u8)
    ensures
        hex_digit_value(b) < 16,
{
}

/// Round trip at the level of one digit: the byte printed for a value below
/// 16 is a hexadecimal digit and reads back as the same value.
pub proof fn lemma_hex_digit_byte_of_value(d: nat)
    requires
        d < 16,
    ensures
        is_hex_digit(hex_digit_byte_of(d)),
        hex_digit_value(hex_digit_byte_of(d)) == d,
{
}

/// A string of `k` hexadecimal digits denotes a value below `16^k`.
pub proof fn lemma_hex_value_bound(s: Seq<u8>)
    ensures
        hex_value(s) < pow16(s.len()),
    decreases s.len(),
{
    if s.len() == 0 {
        assert(pow16(0) == 1) by {
            lemma_pow0(16);
        }
    } else {
        lemma_hex_value_bound(s.drop_last());
        lemma_hex_digit_value_bound(s.last());
        let v = hex_value(s.drop_last());
        let p = pow16(s.drop_last().len());
        assert(pow16(s.len()) == 16 * p) by {
            lemma_pow16_unfold(s.len());
        }
        assert(v * 16 + hex_digit_value(s.last()) < 16 * p) by (nonlinear_arith)
            requires
                v < p,
                hex_digit_value(s.last()) < 16,
        {}
    }
}

/// Concatenation at the level of values: appending `b` to `a` shifts the
/// value of `a` by `16^|b|` and adds the value of `b`.
pub proof fn lemma_hex_value_concat(a: Seq<u8>, b: Seq<u8>)
    ensures
        hex_value(a + b) == hex_value(a) * pow16(b.len()) + hex_value(b),
    decreases b.len(),
{
    if b.len() == 0 {
        assert(a + b =~= a);
        assert(pow16(0) == 1) by {
            lemma_pow0(16);
        }
    } else {
        lemma_hex_value_concat(a, b.drop_last());
        assert((a + b).drop_last() =~= a + b.drop_last());
        assert((a + b).last() == b.last());
        let p = pow16(b.drop_last().len());
        assert(pow16(b.len()) == 16 * p) by {
            lemma_pow16_unfold(b.len());
        }
        assert((hex_value(a) * p + hex_value(b.drop_last())) * 16 + hex_digit_value(b.last())
            == hex_value(a) * (p * 16) + (hex_value(b.drop_last()) * 16 + hex_digit_value(
            b.last(),
        ))) by (nonlinear_arith) {}
    }
}

/// The shortest rendering is made of hexadecimal digits, is never empty, and
/// reads back as the value it was printed from.
pub proof fn lemma_min_hex_correct(n: nat)
    ensures
        all_hex_digits(min_hex(n)),
        1 <= min_hex(n).len(),
        hex_value(min_hex(n)) == n,
    decreases n,
{
    if n < 16 {
        lemma_hex_digit_byte_of_value(n);
        let s = min_hex(n);
        assert(s.len() == 1);
        assert(s.last() == hex_digit_byte_of(n));
        assert(s.drop_last() =~= Seq::<u8>::empty());
        assert(hex_value(s) == hex_value(s.drop_last()) * 16 + hex_digit_value(s.last()));
        assert(hex_value(s.drop_last()) == 0);
        assert(forall|i: int| 0 <= i < s.len() ==> is_hex_digit(#[trigger] s[i]));
    } else {
        lemma_min_hex_correct(n / 16);
        lemma_hex_digit_byte_of_value(n % 16);
        lemma_fundamental_div_mod(n as int, 16);
        let s = min_hex(n);
        let t = min_hex(n / 16);
        assert(s == t.push(hex_digit_byte_of(n % 16)));
        assert(s.drop_last() =~= t);
        assert(s.last() == hex_digit_byte_of(n % 16));
        assert(forall|i: int| 0 <= i < s.len() ==> is_hex_digit(#[trigger] s[i])) by {
            assert(forall|i: int| 0 <= i < s.len() - 1 ==> s[i] == t[i]);
        }
        assert(hex_value(s) == hex_value(s.drop_last()) * 16 + hex_digit_value(s.last()));
        assert(hex_value(s) == (n / 16) * 16 + (n % 16));
    }
}

/// If `n < 16^k` (with `k` at least 1), the shortest rendering has at most
/// `k` digits.
pub proof fn lemma_min_hex_len(n: nat, k: nat)
    requires
        1 <= k,
        n < pow16(k),
    ensures
        min_hex(n).len() <= k,
    decreases n,
{
    if n < 16 {
    } else {
        if k == 1 {
            assert(pow16(1) == 16) by {
                lemma_pow1(16);
            }
        }
        assert(2 <= k);
        lemma_pow16_unfold(k);
        assert(n / 16 < pow16((k - 1) as nat)) by (nonlinear_arith)
            requires
                n < 16 * pow16((k - 1) as nat),
        {}
        lemma_min_hex_len(n / 16, (k - 1) as nat);
    }
}

/// The padded rendering has exactly `width` digits, all hexadecimal, and
/// reads back as the value it was printed from when that value fits.
pub proof fn lemma_padded_hex_correct(n: nat, width: nat)
    requires
        n < pow16(width),
    ensures
        padded_hex(n, width).len() == width,
        all_hex_digits(padded_hex(n, width)),
        hex_value(padded_hex(n, width)) == n,
    decreases width,
{
    if width == 0 {
        assert(pow16(0) == 1) by {
            lemma_pow0(16);
        }
    } else {
        lemma_pow16_unfold(width);
        assert(n / 16 < pow16((width - 1) as nat)) by (nonlinear_arith)
            requires
                n < 16 * pow16((width - 1) as nat),
        {}
        lemma_padded_hex_correct(n / 16, (width - 1) as nat);
        lemma_hex_digit_byte_of_value(n % 16);
        lemma_fundamental_div_mod(n as int, 16);
        let s = padded_hex(n, width);
        let t = padded_hex(n / 16, (width - 1) as nat);
        assert(s.drop_last() =~= t);
        assert(s.last() == hex_digit_byte_of(n % 16));
        assert(forall|i: int| 0 <= i < s.len() ==> is_hex_digit(#[trigger] s[i])) by {
            assert(forall|i: int| 0 <= i < s.len() - 1 ==> s[i] == t[i]);
        }
    }
}

/// The value denoted by a digit string only grows when more digits follow.
pub proof fn lemma_hex_value_prefix_bound(s: Seq<u8>, i: int)
    requires
        0 <= i <= s.len(),
    ensures
        hex_value(s.take(i)) <= hex_value(s),
{
    assert(s =~= s.take(i) + s.skip(i));
    lemma_hex_value_concat(s.take(i), s.skip(i));
    let p = pow16(s.skip(i).len());
    assert(1 <= p) by {
        lemma_pow_positive(16, s.skip(i).len());
    }
    assert(hex_value(s.take(i)) * 1 <= hex_value(s.take(i)) * p) by (nonlinear_arith)
        requires
            1 <= p,
    {}
}

/// Reads one byte as a hexadecimal digit.
pub fn hex_digit_of(b: u8) -> (r: Option<u8>)
    ensures
        r is Some <==> is_hex_digit(b),
        r matches Some(d) ==> d < 16 && d as nat == hex_digit_value(b),
{
    if 48 <= b && b <= 57 {
        Some(b - 48)
    } else if 97 <= b && b <= 102 {
        Some(b - 87)
    } else if 65 <= b && b <= 70 {
        Some(b - 55)
    } else {
        None
    }
}

/// Parses a whole byte string as big-endian hexadecimal, accepting any
/// number of digits as long as the value fits in 64 bits.
pub fn parse_hex_u64(s: &[u8]) -> (r: Option<u64>)
    ensures
        r is Some <==> 1 <= s@.len() && all_hex_digits(s@) && hex_value(s@) <= u64::MAX,
        r matches Some(v) ==> v as nat == hex_value(s@),
{
    if s.len() == 0 {
        return None;
    }
    let mut acc: u64 = 0;
    let mut i: usize = 0;
    while i < s.len()
        invariant
            0 <= i <= s@.len(),
            all_hex_digits(s@.take(i as int)),
            acc as nat == hex_value(s@.take(i as int)),
        decreases s@.len() - i,
    {
        let b = *vstd::slice::slice_index_get(s, i);
        let d = match hex_digit_of(b) {
            Some(d) => d,
            None => {
                proof {
                    assert(!is_hex_digit(s@[i as int]));
                }
                return None;
            },
        };
        proof {
            assert(s@.take(i + 1).drop_last() =~= s@.take(i as int));
            assert(s@.take(i + 1).last() == s@[i as int]);
        }
        if acc > (u64::MAX - (d as u64)) / 16 {
            proof {
                lemma_fundamental_div_mod((u64::MAX - (d as u64)) as int, 16);
                assert((acc as nat) * 16 + (d as nat) > u64::MAX);
                lemma_hex_value_prefix_bound(s@, i + 1);
                assert(hex_value(s@) > u64::MAX);
            }
            return None;
        }
        proof {
            lemma_fundamental_div_mod((u64::MAX - (d as u64)) as int, 16);
            assert((acc as nat) * 16 + (d as nat) <= u64::MAX);
        }
        acc = acc * 16 + (d as u64);
        i = i + 1;
    }
    proof {
        assert(s@.take(s@.len() as int) =~= s@);
    }
    Some(acc)
}

/// Parses a whole byte string as big-endian hexadecimal into a byte,
/// accepting any number of digits as long as the value fits in 8 bits.
pub fn parse_hex_u8(s: &[u8]) -> (r: Option<u8>)
    ensures
        r is Some <==> 1 <= s@.len() && all_hex_digits(s@) && hex_value(s@) <= u8::MAX,
        r matches Some(v) ==> v as nat == hex_value(s@),
{
    match parse_hex_u64(s) {
        Some(v) => {
            if v <= 255 {
                Some(v as u8)
            } else {
                None
            }
        },
        None => None,
    }
}

/// Appends the digit byte for a value below 16.
pub fn push_hex_digit(out: &mut Vec<u8>, d: u8)
    requires
        d < 16,
    ensures
        final(out)@ == old(out)@.push(hex_digit_byte_of(d as nat)),
{
    if d < 10 {
        out.push(48 + d);
    } else {
        out.push(87 + d);
    }
}

/// Appends the shortest lowercase hexadecimal rendering of `n`.
pub fn push_min_hex(out: &mut Vec<u8>, n: u64)
    ensures
        final(out)@ == old(out)@ + min_hex(n as nat),
    decreases n,
{
    if n < 16 {
        push_hex_digit(out, n as u8);
        proof {
            assert(final(out)@ =~= old(out)@ + min_hex(n as nat));
        }
    } else {
        push_min_hex(out, n / 16);
        push_hex_digit(out, (n % 16) as u8);
        proof {
            assert((n / 16) as nat == (n as nat) / 16);
            assert((n % 16) as nat == (n as nat) % 16);
            assert(final(out)@ =~= old(out)@ + min_hex(n as nat));
        }
    }
}

/// Appends exactly `width` lowercase hexadecimal digits of `n`, zero padded.
pub fn push_padded_hex(out: &mut Vec<u8>, n: u64, width: usize)
    ensures
        final(out)@ == old(out)@ + padded_hex(n as nat, width as nat),
    decreases width,
{
    if width > 0 {
        push_padded_hex(out, n / 16, width - 1);
        push_hex_digit(out, (n % 16) as u8);
        proof {
            assert((n / 16) as nat == (n as nat) / 16);
            assert((n % 16) as nat == (n as nat) % 16);
            assert(final(out)@ =~= old(out)@ + padded_hex(n as nat, width as nat));
        }
    } else {
        proof {
            assert(final(out)@ =~= old(out)@ + padded_hex(n as nat, 0));
        }
    }
}

} // verus!
