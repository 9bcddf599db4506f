//! 160-bit identifiers on the Chord ring, with modular distance and betweenness.

use vstd::prelude::*;
use vstd::arithmetic::power2::{lemma2_to64, lemma_pow2_adds, lemma_pow2_strictly_increases, lemma_pow2_unfold, pow2};
use vstd::utf8::encode_utf8;

use vstd::string::StringSliceAdditionalSpecFns;

use crate::error::Error;
use crate::text::{
    all_hex, check_hex, hex_char, hex_fixed, hex_value, is_hex_byte, lemma_pow16_values, parse_hex,
    pow16, push_char, push_hex,
};

verus! {

/// 2^128, the weight of the high limb of a `Did`.
pub open spec fn limb() -> int {
    u128::MAX as int + 1
}

/// 2^160, the size of the ring.
pub open spec fn ring() -> int {
    limb() * 0x1_0000_0000
}

/// Clockwise distance from `a` to `b` on the ring, for `a, b` in `[0, ring())`.
pub open spec fn dist(a: int, b: int) -> int {
    if a <= b {
        b - a
    } else {
        b - a + ring()
    }
}

/// Walking clockwise from `a`, `x` is reached strictly before `b`;
/// when `a == b` this is the whole ring but `a`.
pub open spec fn between_spec(a: int, x: int, b: int) -> bool {
    if a == b {
        x != a
    } else {
        x != a && dist(a, x) < dist(a, b)
    }
}

/// The text of an identifier: `0x` and 40 lowercase hexadecimal digits.
pub open spec fn did_text(d: Did) -> Seq<char> {
    seq!['0', 'x'] + hex_fixed(d.hi as nat, 8) + hex_fixed(d.lo as nat, 32)
}

/// The digits of identifier text: what follows an optional `0x` or `0X`.
pub open spec fn did_digits(b: Seq<u8>) -> Seq<u8> {
    if b.len() == 42 && b[0] == 48 && (b[1] == 120 || b[1] == 88) {
        b.skip(2)
    } else {
        b
    }
}

/// Bytes that spell an identifier: 40 hexadecimal digits, optionally after `0x`.
pub open spec fn is_did_text(b: Seq<u8>) -> bool {
    did_digits(b).len() == 40 && all_hex(did_digits(b))
}

/// The identifier that text spells, if it is identifier text.
pub open spec fn did_from_text(b: Seq<u8>) -> Option<Did> {
    if is_did_text(b) {
        Some(
            Did {
                hi: hex_value(did_digits(b).take(8)) as u32,
                lo: hex_value(did_digits(b).skip(8)) as u128,
            },
        )
    } else {
        None
    }
}

/// The number that big-endian bytes spell.
pub open spec fn be_value(s: Seq<u8>) -> nat
    decreases s.len(),
{
    if s.len() == 0 {
        0
    } else {
        be_value(s.drop_last()) * 256 + s.last() as nat
    }
}

/// `256^n`.
pub open spec fn pow256(n: nat) -> nat
    decreases n,
{
    if n == 0 {
        1
    } else {
        256 * pow256((n - 1) as nat)
    }
}

pub proof fn lemma_be_value_bound(s: Seq<u8>)
    ensures
        be_value(s) < pow256(s.len()),
    decreases s.len(),
{
    if s.len() > 0 {
        lemma_be_value_bound(s.drop_last());
        let a = be_value(s.drop_last());
        let p = pow256((s.len() - 1) as nat);
        let l = s.last() as nat;
        assert(a * 256 + l < 256 * p) by (nonlinear_arith)
            requires
                a < p,
                l < 256,
        ;
    }
}

pub proof fn lemma_pow256_mono(a: nat, b: nat)
    requires
        a <= b,
    ensures
        pow256(a) <= pow256(b),
    decreases b,
{
    if a < b {
        lemma_pow256_mono(a, (b - 1) as nat);
    }
}

/// The value of the big-endian bytes `s[start..end]`, at most 16 of them.
pub fn parse_be(s: &[u8], start: usize, end: usize) -> (r: u128)
    requires
        start <= end <= s@.len(),
        end - start <= 16,
    ensures
        r == be_value(s@.subrange(start as int, end as int)),
{
    let mut acc: u128 = 0;
    let mut i = start;
    proof {
        reveal_with_fuel(pow256, 17);
    }
    while i < end
        invariant
            start <= i <= end <= s@.len(),
            end - start <= 16,
            acc == be_value(s@.subrange(start as int, i as int)),
            pow256(16) == u128::MAX as nat + 1,
        decreases end - i,
    {
        let ghost next = s@.subrange(start as int, i + 1);
        assert(next.drop_last() =~= s@.subrange(start as int, i as int));
        assert(next.last() == s@[i as int]);
        proof {
            lemma_be_value_bound(next);
            lemma_pow256_mono(next.len(), 16);
        }
        acc = acc * 256 + s[i] as u128;
        i = i + 1;
    }
    acc
}

/// A 160-bit identifier: `hi` holds the top 32 bits, `lo` the low 128.
#[derive(Clone, Copy, Debug, PartialEq, Eq, Hash, Structural)]
pub struct Did {
    pub hi: u32,
    pub lo: u128,
}

impl Did {
    /// The identifier as a number in `[0, 2^160)`.
    pub open spec fn value(self) -> int {
        self.hi as int * limb() + self.lo as int
    }

    pub proof fn lemma_value_range(self)
        ensures
            0 <= self.value() < ring(),
    {
        assert(self.hi as int * limb() <= (0xffff_ffffint) * limb()) by (nonlinear_arith)
            requires
                self.hi as int <= 0xffff_ffff,
                limb() > 0,
        ;
        assert(0 <= self.hi as int * limb()) by (nonlinear_arith)
            requires
                self.hi as int >= 0,
                limb() > 0,
        ;
    }

    /// Two identifiers are equal exactly when their numbers are.
    pub proof fn lemma_value_injective(self, other: Did)
        ensures
            (self.value() == other.value()) <==> (self == other),
    {
        if self.hi < other.hi {
            lemma_limb_order(self.hi as int, self.lo as int, other.hi as int, other.lo as int);
        } else if self.hi > other.hi {
            lemma_limb_order(other.hi as int, other.lo as int, self.hi as int, self.lo as int);
        }
    }

    /// Builds an identifier from its value.
    pub fn new(hi: u32, lo: u128) -> (r: Did)
        ensures
            r.hi == hi,
            r.lo == lo,
    {
        Did { hi, lo }
    }

    /// The identifier spelt by 20 big-endian bytes, such as the low bytes of a hash.
    pub fn from_bytes(b: &[u8]) -> (r: Did)
        requires
            b@.len() == 20,
        ensures
            r.hi == be_value(b@.take(4)),
            r.lo == be_value(b@.skip(4)),
    {
        proof {
            reveal_with_fuel(pow256, 5);
            lemma_be_value_bound(b@.subrange(0, 4));
        }
        let hi = parse_be(b, 0, 4) as u32;
        let lo = parse_be(b, 4, 20);
        assert(b@.take(4) =~= b@.subrange(0, 4));
        assert(b@.skip(4) =~= b@.subrange(4, 20));
        Did { hi, lo }
    }

    /// The identifier as text: `0x` and 40 lowercase hexadecimal digits.
    pub fn to_string(&self) -> (r: String)
        ensures
            r@ == did_text(*self),
    {
        let mut s = String::new();
        push_char(&mut s, '0');
        push_char(&mut s, 'x');
        push_hex(&mut s, self.hi as u128, 8);
        push_hex(&mut s, self.lo, 32);
        proof {
            assert(s@ =~= did_text(*self));
        }
        s
    }

    /// Reads identifier text: 40 hexadecimal digits in either case, optionally after `0x`.
    pub fn from_str(s: &str) -> (r: Result<Did, Error>)
        ensures
            r == match did_from_text(s.spec_bytes()) {
                Some(d) => Ok::<Did, Error>(d),
                None => Err::<Did, Error>(Error::InvalidDid),
            },
    {
        let b = s.as_bytes();
        let start: usize = if b.len() == 42 && b[0] == 48 && (b[1] == 120 || b[1] == 88) {
            2
        } else {
            0
        };
        let ghost digits = did_digits(b@);
        assert(digits =~= b@.subrange(start as int, b@.len() as int));
        if b.len() - start != 40 {
            return Err(Error::InvalidDid);
        }
        if !check_hex(b, start, b.len()) {
            return Err(Error::InvalidDid);
        }
        assert(all_hex(b@.subrange(start as int, start + 8))) by {
            assert forall|k: int| 0 <= k < 8 implies crate::text::is_hex_byte(
                #[trigger] b@.subrange(start as int, start + 8)[k],
            ) by {
                assert(b@.subrange(start as int, start + 8)[k] == digits[k]);
            }
        }
        assert(all_hex(b@.subrange(start + 8, start + 40))) by {
            assert forall|k: int| 0 <= k < 32 implies crate::text::is_hex_byte(
                #[trigger] b@.subrange(start + 8, start + 40)[k],
            ) by {
                assert(b@.subrange(start + 8, start + 40)[k] == digits[k + 8]);
            }
        }
        proof {
            lemma_pow16_values();
            crate::text::lemma_hex_value_bound(b@.subrange(start as int, start + 8));
            crate::text::lemma_hex_value_bound(b@.subrange(start + 8, start + 40));
        }
        let hi = parse_hex(b, start, start + 8) as u32;
        let lo = parse_hex(b, start + 8, start + 40);
        assert(digits.take(8) =~= b@.subrange(start as int, start + 8));
        assert(digits.skip(8) =~= b@.subrange(start + 8, start + 40));
        Ok(Did { hi, lo })
    }

    /// Numeric order of identifiers.
    pub fn lt(&self, other: &Did) -> (r: bool)
        ensures
            r == (self.value() < other.value()),
    {
        proof {
            if self.hi < other.hi {
                lemma_limb_order(self.hi as int, self.lo as int, other.hi as int, other.lo as int);
            } else if self.hi > other.hi {
                lemma_limb_order(other.hi as int, other.lo as int, self.hi as int, self.lo as int);
            }
        }
        self.hi < other.hi || (self.hi == other.hi && self.lo < other.lo)
    }

    /// Clockwise distance from `self` to `other`, that is `(other - self) mod 2^160`.
    pub fn distance(&self, other: &Did) -> (r: Did)
        ensures
            r.value() == dist(self.value(), other.value()),
    {
        let borrow: u32 = if other.lo < self.lo {
            1
        } else {
            0
        };
        let lo: u128 = if other.lo >= self.lo {
            other.lo - self.lo
        } else {
            (u128::MAX - self.lo) + other.lo + 1
        };
        let hi: u32 = if other.hi >= self.hi && other.hi - self.hi >= borrow {
            other.hi - self.hi - borrow
        } else if other.hi < self.hi {
            (u32::MAX - self.hi) + other.hi + 1 - borrow
        } else {
            u32::MAX
        };
        let r = Did { hi, lo };
        proof {
            let a = self.value();
            let b = other.value();
            self.lemma_value_range();
            other.lemma_value_range();
            r.lemma_value_range();
            let wrapped: int = if other.hi as int - self.hi as int - borrow as int >= 0 {
                0
            } else {
                1
            };
            assert(hi as int == other.hi as int - self.hi as int - borrow as int + wrapped
                * 0x1_0000_0000);
            assert(lo as int == other.lo as int - self.lo as int + borrow as int * limb());
            assert(r.value() == b - a + wrapped * ring()) by (nonlinear_arith)
                requires
                    hi as int == other.hi as int - self.hi as int - borrow as int + wrapped
                        * 0x1_0000_0000,
                    lo as int == other.lo as int - self.lo as int + borrow as int * limb(),
                    r.value() == hi as int * limb() + lo as int,
                    a == self.hi as int * limb() + self.lo as int,
                    b == other.hi as int * limb() + other.lo as int,
                    ring() == 0x1_0000_0000 * limb(),
            ;
        }
        r
    }

    /// `(self + other) mod 2^160`.
    pub fn add(&self, other: &Did) -> (r: Did)
        ensures
            r.value() == (if self.value() + other.value() < ring() {
                self.value() + other.value()
            } else {
                self.value() + other.value() - ring()
            }),
    {
        let carry: u32 = if other.lo > u128::MAX - self.lo {
            1
        } else {
            0
        };
        let lo: u128 = if carry == 0 {
            self.lo + other.lo
        } else {
            other.lo - (u128::MAX - self.lo) - 1
        };
        let wide: u64 = self.hi as u64 + other.hi as u64 + carry as u64;
        let hi: u32 = if wide > u32::MAX as u64 {
            (wide - u32::MAX as u64 - 1) as u32
        } else {
            wide as u32
        };
        let r = Did { hi, lo };
        proof {
            self.lemma_value_range();
            other.lemma_value_range();
            r.lemma_value_range();
            let wrapped: int = if wide > u32::MAX as u64 {
                1
            } else {
                0
            };
            assert(r.value() == self.value() + other.value() - wrapped * ring()) by (nonlinear_arith)
                requires
                    hi as int == self.hi as int + other.hi as int + carry as int - wrapped
                        * 0x1_0000_0000,
                    lo as int == self.lo as int + other.lo as int - carry as int * limb(),
                    r.value() == hi as int * limb() + lo as int,
                    self.value() == self.hi as int * limb() + self.lo as int,
                    other.value() == other.hi as int * limb() + other.lo as int,
                    ring() == 0x1_0000_0000 * limb(),
            ;
        }
        r
    }

    /// `2^i`, for a bit `i` of an identifier.
    pub fn pow2(i: u32) -> (r: Did)
        requires
            i < 160,
        ensures
            r.value() == pow2(i as nat),
    {
        proof {
            lemma2_to64();
            lemma_pow2_adds(64, 64);
        }
        if i < 128 {
            let mut lo: u128 = 1;
            let mut k: u32 = 0;
            while k < i
                invariant
                    k <= i < 128,
                    lo == pow2(k as nat),
                    pow2(128) == limb(),
                decreases i - k,
            {
                proof {
                    lemma_pow2_unfold((k + 1) as nat);
                    lemma_pow2_strictly_increases((k + 1) as nat, 128);
                }
                lo = lo * 2;
                k = k + 1;
            }
            Did { hi: 0, lo }
        } else {
            let mut hi: u32 = 1;
            let mut k: u32 = 0;
            while k < i - 128
                invariant
                    128 <= i < 160,
                    k <= i - 128,
                    hi == pow2(k as nat),
                    pow2(32) == 0x1_0000_0000,
                decreases i - 128 - k,
            {
                proof {
                    lemma_pow2_unfold((k + 1) as nat);
                    lemma_pow2_strictly_increases((k + 1) as nat, 32);
                }
                hi = hi * 2;
                k = k + 1;
            }
            proof {
                lemma_pow2_adds((i - 128) as nat, 128);
                assert((i - 128) as nat + 128 == i as nat);
            }
            Did { hi, lo: 0 }
        }
    }

    /// `(self + 2^i) mod 2^160`: the point that finger `i` follows.
    pub fn add_pow2(&self, i: u32) -> (r: Did)
        requires
            i < 160,
        ensures
            r.value() == (if self.value() + pow2(i as nat) < ring() {
                self.value() + pow2(i as nat)
            } else {
                self.value() + pow2(i as nat) - ring()
            }),
    {
        let p = Did::pow2(i);
        self.add(&p)
    }

    /// Whether walking clockwise from `a` reaches `x` strictly before `b`.
    pub fn between(a: &Did, x: &Did, b: &Did) -> (r: bool)
        ensures
            r == between_spec(a.value(), x.value(), b.value()),
    {
        proof {
            a.lemma_value_injective(*b);
            x.lemma_value_injective(*a);
        }
        if *a == *b {
            *x != *a
        } else {
            *x != *a && a.distance(x).lt(&a.distance(b))
        }
    }
}

/// A larger high limb gives a larger value, whatever the low limbs.
pub proof fn lemma_limb_order(h1: int, l1: int, h2: int, l2: int)
    requires
        0 <= h1 < h2,
        0 <= l1 < limb(),
        0 <= l2 < limb(),
    ensures
        h1 * limb() + l1 < h2 * limb() + l2,
{
    assert(h1 * limb() + limb() <= h2 * limb()) by (nonlinear_arith)
        requires
            h1 < h2,
            limb() > 0,
    ;
}

/// Distances in the two directions add up to a multiple of the ring size, and of
/// three distinct points, `x` lies on exactly one of the two arcs between `a` and `b`.
pub proof fn lemma_ring_symmetry(a: Did, b: Did, x: Did)
    requires
        a != b,
        x != a,
        x != b,
    ensures
        (dist(a.value(), b.value()) + dist(b.value(), a.value())) % ring() == 0,
        between_spec(a.value(), x.value(), b.value()) != between_spec(
            b.value(),
            x.value(),
            a.value(),
        ),
{
    a.lemma_value_range();
    b.lemma_value_range();
    x.lemma_value_range();
    a.lemma_value_injective(b);
    a.lemma_value_injective(x);
    b.lemma_value_injective(x);
    assert(dist(a.value(), b.value()) + dist(b.value(), a.value()) == ring());
}

/// Distances in the two directions always add up to a multiple of the ring size.
pub proof fn lemma_distance_sum(a: Did, b: Did)
    ensures
        (dist(a.value(), b.value()) + dist(b.value(), a.value())) % ring() == 0,
{
    a.lemma_value_range();
    b.lemma_value_range();
    if a.value() == b.value() {
        assert(dist(a.value(), b.value()) + dist(b.value(), a.value()) == 0);
    } else {
        assert(dist(a.value(), b.value()) + dist(b.value(), a.value()) == ring());
    }
}

/// The ASCII bytes of hexadecimal text spell its value, modulo the number of digits.
pub proof fn lemma_hex_fixed_bytes(v: nat, n: nat)
    ensures
        vstd::utf8::is_ascii_chars(hex_fixed(v, n)),
        hex_fixed(v, n).len() == n,
        all_hex(hex_fixed(v, n).map_values(|c: char| c as u8)),
        hex_value(hex_fixed(v, n).map_values(|c: char| c as u8)) == v % pow16(n),
    decreases n,
{
    let t = hex_fixed(v, n).map_values(|c: char| c as u8);
    if n == 0 {
        assert(t =~= Seq::<u8>::empty());
    } else {
        let m = (n - 1) as nat;
        lemma_hex_fixed_bytes(v / 16, m);
        let t0 = hex_fixed(v / 16, m).map_values(|c: char| c as u8);
        let c = hex_char(v % 16);
        assert(hex_fixed(v, n) == hex_fixed(v / 16, m).push(c));
        assert(t.drop_last() =~= t0);
        assert(t.last() == c as u8);
        assert(is_hex_byte(c as u8) && crate::text::hex_byte_value(c as u8) == v % 16);
        assert(all_hex(t)) by {
            assert forall|i: int| 0 <= i < t.len() implies is_hex_byte(#[trigger] t[i]) by {
                if i < t.len() - 1 {
                    assert(t[i] == t0[i]);
                }
            }
        }
        assert(vstd::utf8::is_ascii_chars(hex_fixed(v, n))) by {
            assert forall|i: int| 0 <= i < hex_fixed(v, n).len() implies '\0' <= #[trigger] hex_fixed(
                v,
                n,
            )[i] <= '\u{7f}' by {
                if i < hex_fixed(v, n).len() - 1 {
                    assert(hex_fixed(v, n)[i] == hex_fixed(v / 16, m)[i]);
                }
            }
        }
        crate::text::lemma_pow16_mono(0, m);
        vstd::arithmetic::div_mod::lemma_mod_breakdown(v as int, 16, pow16(m) as int);
        assert(pow16(n) == 16 * pow16(m));
    }
}

/// Reading back the text of an identifier gives the identifier.
pub proof fn lemma_did_text_round_trip(d: Did)
    ensures
        did_from_text(encode_utf8(did_text(d))) == Some(d),
{
    let h = hex_fixed(d.hi as nat, 8);
    let l = hex_fixed(d.lo as nat, 32);
    lemma_hex_fixed_bytes(d.hi as nat, 8);
    lemma_hex_fixed_bytes(d.lo as nat, 32);
    lemma_pow16_values();
    let text = did_text(d);
    assert(vstd::utf8::is_ascii_chars(text)) by {
        assert forall|i: int| 0 <= i < text.len() implies '\0' <= #[trigger] text[i] <= '\u{7f}' by {
            if i >= 2 && i < 10 {
                assert(text[i] == h[i - 2]);
            } else if i >= 10 {
                assert(text[i] == l[i - 10]);
            }
        }
    }
    vstd::utf8::is_ascii_chars_encode_utf8(text);
    let b = encode_utf8(text);
    let hb = h.map_values(|c: char| c as u8);
    let lb = l.map_values(|c: char| c as u8);
    assert(b.len() == 42);
    assert(b[0] == 48u8);
    assert(b[1] == 120u8);
    assert(did_digits(b) =~= hb + lb) by {
        assert forall|i: int| 0 <= i < 40 implies did_digits(b)[i] == (hb + lb)[i] by {
            assert(did_digits(b)[i] == b[i + 2]);
            if i < 8 {
                assert(text[i + 2] == h[i]);
            } else {
                assert(text[i + 2] == l[i - 8]);
            }
        }
    }
    vstd::arithmetic::div_mod::lemma_small_mod(d.hi as nat, pow16(8));
    vstd::arithmetic::div_mod::lemma_small_mod(d.lo as nat, pow16(32));
    assert(did_digits(b).take(8) =~= hb);
    assert(did_digits(b).skip(8) =~= lb);
    assert(all_hex(did_digits(b))) by {
        assert forall|i: int| 0 <= i < 40 implies is_hex_byte(#[trigger] did_digits(b)[i]) by {
            if i < 8 {
                assert(did_digits(b)[i] == hb[i]);
            } else {
                assert(did_digits(b)[i] == lb[i - 8]);
            }
        }
    }
}

} // verus!
