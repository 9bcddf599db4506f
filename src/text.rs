//! Hexadecimal and decimal text, built and read one character at a time.

use vstd::prelude::*;

verus! {

/// The lowercase hexadecimal digit for `d < 16`.
pub open spec fn hex_char(d: nat) -> char {
    if d < 10 {
        ((48 + d) as u8) as char
    } else {
        ((87 + d) as u8) as char
    }
}

/// The last `n` hexadecimal digits of `v`, most significant first, zero-padded.
pub open spec fn hex_fixed(v: nat, n: nat) -> Seq<char>
    decreases n,
{
    if n == 0 {
        Seq::empty()
    } else {
        hex_fixed(v / 16, (n - 1) as nat).push(hex_char(v % 16))
    }
}

/// The decimal digit for `d < 10`.
pub open spec fn dec_char(d: nat) -> char {
    ((48 + d) as u8) as char
}

/// The decimal text of `v`, without leading zeros.
pub open spec fn dec_text(v: nat) -> Seq<char>
    decreases v,
{
    if v < 10 {
        seq![dec_char(v)]
    } else {
        dec_text(v / 10).push(dec_char(v % 10))
    }
}

/// A byte that is a hexadecimal digit, in either case.
pub open spec fn is_hex_byte(b: u8) -> bool {
    (48 <= b <= 57) || (97 <= b <= 102) || (65 <= b <= 70)
}

/// The value of a hexadecimal digit byte.
pub open spec fn hex_byte_value(b: u8) -> nat {
    if 48 <= b <= 57 {
        (b - 48) as nat
    } else if 97 <= b <= 102 {
        (b - 87) as nat
    } else {
        (b - 55) as nat
    }
}

/// Every byte of `s` is a hexadecimal digit.
pub open spec fn all_hex(s: Seq<u8>) -> bool {
    forall|i: int| 0 <= i < s.len() ==> is_hex_byte(#[trigger] s[i])
}

/// The number that the hexadecimal digits `s` spell, most significant first.
pub open spec fn hex_value(s: Seq<u8>) -> nat
    decreases s.len(),
{
    if s.len() == 0 {
        0
    } else {
        hex_value(s.drop_last()) * 16 + hex_byte_value(s.last())
    }
}

/// `16^n`.
pub open spec fn pow16(n: nat) -> nat
    decreases n,
{
    if n == 0 {
        1
    } else {
        16 * pow16((n - 1) as nat)
    }
}

pub proof fn lemma_pow16_values()
    ensures
        pow16(8) == 0x1_0000_0000,
        pow16(32) == u128::MAX as nat + 1,
{
    reveal_with_fuel(pow16, 33);
}

pub proof fn lemma_hex_value_bound(s: Seq<u8>)
    requires
        all_hex(s),
    ensures
        hex_value(s) < pow16(s.len()),
    decreases s.len(),
{
    if s.len() > 0 {
        assert(all_hex(s.drop_last())) by {
            assert forall|i: int| 0 <= i < s.drop_last().len() implies is_hex_byte(
                #[trigger] s.drop_last()[i],
            ) by {
                assert(s.drop_last()[i] == s[i]);
            }
        }
        lemma_hex_value_bound(s.drop_last());
        assert(is_hex_byte(s[s.len() - 1]));
        let a = hex_value(s.drop_last());
        let p = pow16((s.len() - 1) as nat);
        assert(a * 16 + 15 < 16 * p) by (nonlinear_arith)
            requires
                a < p,
        ;
    }
}

/// Appends one character.
/// Relies on `String::push`: the character is added at the end.
#[verifier::external_body]
pub(crate) fn push_char(s: &mut String, c: char)
    ensures
        final(s)@ == old(s)@.push(c),
{
    s.push(c)
}

fn hex_digit_char(d: u128) -> (c: char)
    requires
        d < 16,
    ensures
        c == hex_char(d as nat),
{
    if d < 10 {
        ((48 + d) as u8) as char
    } else {
        ((87 + d) as u8) as char
    }
}

/// Appends the last `n` hexadecimal digits of `v`.
pub fn push_hex(s: &mut String, v: u128, n: u32)
    ensures
        final(s)@ == old(s)@ + hex_fixed(v as nat, n as nat),
    decreases n,
{
    if n > 0 {
        push_hex(s, v / 16, n - 1);
        let c = hex_digit_char(v % 16);
        push_char(s, c);
        proof {
            assert(final(s)@ =~= old(s)@ + hex_fixed(v as nat, n as nat));
        }
    } else {
        proof {
            assert(final(s)@ =~= old(s)@ + hex_fixed(v as nat, n as nat));
        }
    }
}

/// Appends the decimal text of `v`.
pub fn push_decimal(s: &mut String, v: u128)
    ensures
        final(s)@ == old(s)@ + dec_text(v as nat),
    decreases v,
{
    if v >= 10 {
        push_decimal(s, v / 10);
    }
    let c = ((48 + v % 10) as u8) as char;
    push_char(s, c);
    proof {
        assert(final(s)@ =~= old(s)@ + dec_text(v as nat));
    }
}

/// The decimal text of `v` as a new string.
pub fn decimal(v: u128) -> (r: String)
    ensures
        r@ == dec_text(v as nat),
{
    let mut s = String::new();
    push_decimal(&mut s, v);
    proof {
        assert(s@ =~= dec_text(v as nat));
    }
    s
}

fn hex_byte_to_value(b: u8) -> (r: u128)
    requires
        is_hex_byte(b),
    ensures
        r == hex_byte_value(b),
        r < 16,
{
    if 48 <= b && b <= 57 {
        (b - 48) as u128
    } else if 97 <= b && b <= 102 {
        (b - 87) as u128
    } else {
        (b - 55) as u128
    }
}

/// Whether `s[start..end]` holds hexadecimal digits only.
pub fn check_hex(s: &[u8], start: usize, end: usize) -> (r: bool)
    requires
        start <= end <= s@.len(),
    ensures
        r == all_hex(s@.subrange(start as int, end as int)),
{
    let mut i = start;
    while i < end
        invariant
            start <= i <= end <= s@.len(),
            all_hex(s@.subrange(start as int, i as int)),
        decreases end - i,
    {
        let b = s[i];
        if !((48 <= b && b <= 57) || (97 <= b && b <= 102) || (65 <= b && b <= 70)) {
            assert(s@.subrange(start as int, end as int)[i - start] == b);
            return false;
        }
        assert forall|k: int| 0 <= k < s@.subrange(start as int, i + 1).len() implies is_hex_byte(
            #[trigger] s@.subrange(start as int, i + 1)[k],
        ) by {
            if k < i - start {
                assert(s@.subrange(start as int, i + 1)[k] == s@.subrange(
                    start as int,
                    i as int,
                )[k]);
            }
        }
        i = i + 1;
    }
    true
}

/// The value of the hexadecimal digits `s[start..end]`, at most 32 of them.
pub fn parse_hex(s: &[u8], start: usize, end: usize) -> (r: u128)
    requires
        start <= end <= s@.len(),
        end - start <= 32,
        all_hex(s@.subrange(start as int, end as int)),
    ensures
        r == hex_value(s@.subrange(start as int, end as int)),
{
    let mut acc: u128 = 0;
    let mut i = start;
    proof {
        lemma_pow16_values();
    }
    while i < end
        invariant
            start <= i <= end <= s@.len(),
            end - start <= 32,
            all_hex(s@.subrange(start as int, end as int)),
            acc == hex_value(s@.subrange(start as int, i as int)),
            pow16(32) == u128::MAX as nat + 1,
        decreases end - i,
    {
        let ghost done = s@.subrange(start as int, i as int);
        let ghost next = s@.subrange(start as int, i + 1);
        assert(next.drop_last() =~= done);
        assert(next.last() == s@[i as int]);
        assert(s@[i as int] == s@.subrange(start as int, end as int)[i - start]);
        assert(all_hex(next)) by {
            assert forall|k: int| 0 <= k < next.len() implies is_hex_byte(#[trigger] next[k]) by {
                assert(next[k] == s@.subrange(start as int, end as int)[k]);
            }
        }
        proof {
            lemma_hex_value_bound(next);
            lemma_pow16_mono(next.len(), 32);
        }
        let d = hex_byte_to_value(s[i]);
        acc = acc * 16 + d;
        i = i + 1;
    }
    acc
}

pub proof fn lemma_pow16_mono(a: nat, b: nat)
    requires
        a <= b,
    ensures
        pow16(a) <= pow16(b),
    decreases b,
{
    if a < b {
        lemma_pow16_mono(a, (b - 1) as nat);
    }
}

} // verus!
