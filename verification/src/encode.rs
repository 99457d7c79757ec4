//! The canonical 26-character base-32 text form of a 128-bit identifier.
//!
//! Each of the 26 characters carries five bits of the value, most significant
//! first (the first character carries only the top three bits), drawn from the
//! Crockford alphabet `0-9A-HJKMNP-TV-Z`.  Because characters are emitted most
//! significant first and the alphabet is listed in increasing code-point
//! order, the text of a smaller value sorts lexicographically before the text
//! of a larger one.

use vstd::prelude::*;
use vstd::arithmetic::div_mod::{
    lemma_breakdown, lemma_div_is_ordered, lemma_fundamental_div_mod,
    lemma_fundamental_div_mod_converse_div, lemma_mod_division_less_than_divisor, lemma_mod_mod,
    lemma_small_mod,
};
use vstd::string::{StrSliceExecFns, StringExecFns};

verus! {

/// The base-32 alphabet, in increasing code-point order.
pub open spec fn alphabet() -> Seq<char> {
    "0123456789ABCDEFGHJKMNPQRSTVWXYZ"@
}

/// 32 raised to the power `k`.
pub open spec fn pow32(k: nat) -> nat
    decreases k,
{
    if k == 0 {
        1
    } else {
        32 * pow32((k - 1) as nat)
    }
}

pub proof fn lemma_pow32_pos(k: nat)
    ensures
        pow32(k) >= 1,
    decreases k,
{
    if k > 0 {
        lemma_pow32_pos((k - 1) as nat);
    }
}

/// The value (in `0..32`) carried by character `i` of the rendering of `v`,
/// counting from the most significant character.
pub open spec fn digit_at(v: u128, i: int) -> nat {
    ((v as nat) / pow32((25 - i) as nat)) % 32
}

/// The canonical 26-character rendering of a 128-bit value.
pub open spec fn encoding(v: u128) -> Seq<char> {
    Seq::new(26, |i: int| alphabet()[digit_at(v, i) as int])
}

/// Strict lexicographic order on character sequences, by code point.
pub open spec fn lex_lt(a: Seq<char>, b: Seq<char>) -> bool
    decreases a.len(),
{
    if b.len() == 0 {
        false
    } else if a.len() == 0 {
        true
    } else if a[0] != b[0] {
        (a[0] as int) < (b[0] as int)
    } else {
        lex_lt(a.skip(1), b.skip(1))
    }
}

/// Lexicographic order, allowing equality.
pub open spec fn lex_leq(a: Seq<char>, b: Seq<char>) -> bool {
    a == b || lex_lt(a, b)
}

/// The code point of the alphabet character for digit value `d`, written
/// piecewise: each piece is strictly increasing and each boundary jumps up,
/// so the whole map is strictly increasing.
spec fn char_code(d: int) -> int {
    if d < 10 {
        48 + d  // '0' to '9'
    } else if d < 18 {
        55 + d  // 'A' to 'H'
    } else if d < 20 {
        56 + d  // 'J', 'K'
    } else if d < 22 {
        57 + d  // 'M', 'N'
    } else if d < 27 {
        58 + d  // 'P' to 'T'
    } else {
        59 + d  // 'V' to 'Z'
    }
}

proof fn lemma_alphabet_char_code(d: int)
    requires
        0 <= d < 32,
    ensures
        alphabet()[d] as int == char_code(d),
{
    reveal_strlit("0123456789ABCDEFGHJKMNPQRSTVWXYZ");
}

proof fn lemma_alphabet_strictly_sorted(d1: int, d2: int)
    requires
        0 <= d1 < d2 < 32,
    ensures
        (alphabet()[d1] as int) < (alphabet()[d2] as int),
{
    lemma_alphabet_char_code(d1);
    lemma_alphabet_char_code(d2);
}

/// Extracting digit `i` needs only the value's remainder modulo `32^(26-i)`:
/// `(x % (32 * p)) / p == (x / p) % 32`.
proof fn lemma_digit_from_remainder(x: nat, p: nat)
    requires
        p >= 1,
    ensures
        (x % (32 * p)) / p == (x / p) % 32,
{
    let q = ((x / p) % 32) as int;
    let r = (x % p) as int;
    lemma_breakdown(x as int, p as int, 32);
    lemma_mod_division_less_than_divisor(x as int, p as int);
    vstd::arithmetic::mul::lemma_mul_is_commutative(p as int, q);
    assert((x as int) % ((p as int) * 32) == q * (p as int) + r);
    assert((32 * p) as int == (p as int) * 32);
    lemma_fundamental_div_mod_converse_div((x % (32 * p)) as int, p as int, q, r);
}

/// If the values' remainders below character `i` are ordered, so are the
/// renderings from character `i` on.
proof fn lemma_order_from(a: u128, b: u128, i: int)
    requires
        0 <= i <= 26,
        (a as nat) % pow32((26 - i) as nat) < (b as nat) % pow32((26 - i) as nat),
    ensures
        lex_lt(encoding(a).skip(i), encoding(b).skip(i)),
    decreases 26 - i,
{
    let an = a as nat;
    let bn = b as nat;
    if i == 26 {
        lemma_mod_division_less_than_divisor(an as int, 1);
        lemma_mod_division_less_than_divisor(bn as int, 1);
        assert(false);
    } else {
        let p = pow32((25 - i) as nat);
        lemma_pow32_pos((25 - i) as nat);
        assert(pow32((26 - i) as nat) == 32 * p);
        let ra = an % (32 * p);
        let rb = bn % (32 * p);
        let da = digit_at(a, i);
        let db = digit_at(b, i);
        lemma_digit_from_remainder(an, p);
        lemma_digit_from_remainder(bn, p);
        assert(da == ra / p);
        assert(db == rb / p);
        lemma_mod_division_less_than_divisor((an / p) as int, 32);
        lemma_mod_division_less_than_divisor((bn / p) as int, 32);
        let ea = encoding(a).skip(i);
        let eb = encoding(b).skip(i);
        assert(ea[0] == alphabet()[da as int]);
        assert(eb[0] == alphabet()[db as int]);
        lemma_div_is_ordered(ra as int, rb as int, p as int);
        if da == db {
            assert(ea[0] == eb[0]);
            lemma_fundamental_div_mod(ra as int, p as int);
            lemma_fundamental_div_mod(rb as int, p as int);
            assert(ra % p < rb % p);
            lemma_mod_mod(an as int, p as int, 32);
            lemma_mod_mod(bn as int, p as int, 32);
            assert(an % pow32((26 - (i + 1)) as nat) < bn % pow32((26 - (i + 1)) as nat));
            lemma_order_from(a, b, i + 1);
            assert(ea.skip(1) =~= encoding(a).skip(i + 1));
            assert(eb.skip(1) =~= encoding(b).skip(i + 1));
            assert(lex_lt(ea, eb));
        } else {
            assert(da < db);
            lemma_alphabet_strictly_sorted(da as int, db as int);
            assert(ea[0] != eb[0]);
            assert(lex_lt(ea, eb));
        }
    }
}

/// The rendering of a smaller value sorts strictly before the rendering of a
/// larger one: textual sort order matches value order.
pub proof fn lemma_encoding_preserves_order(a: u128, b: u128)
    requires
        a < b,
    ensures
        lex_lt(encoding(a), encoding(b)),
{
    assert(pow32(26) == 0x400000000000000000000000000000000) by {
        reveal_with_fuel(pow32, 27);
    }
    lemma_small_mod(a as nat, pow32(26));
    lemma_small_mod(b as nat, pow32(26));
    lemma_order_from(a, b, 0);
    assert(encoding(a).skip(0) =~= encoding(a));
    assert(encoding(b).skip(0) =~= encoding(b));
}

proof fn lemma_lex_lt_asymmetric(x: Seq<char>, y: Seq<char>)
    requires
        lex_lt(x, y),
    ensures
        !lex_lt(y, x),
        x != y,
    decreases x.len(),
{
    if x.len() == 0 {
        assert(y.len() > 0);
    } else if x[0] == y[0] {
        lemma_lex_lt_asymmetric(x.skip(1), y.skip(1));
    }
}

/// Identifiers generated at a time `t1` no later than `t2` hold values
/// `a <= b`, and their renderings sort accordingly.
pub proof fn lemma_encoding_monotonic(a: u128, b: u128)
    requires
        a <= b,
    ensures
        lex_leq(encoding(a), encoding(b)),
{
    if a < b {
        lemma_encoding_preserves_order(a, b);
    }
}

/// Textual order agrees exactly with value order; in particular the
/// rendering is injective.
pub proof fn lemma_encoding_order_exact(a: u128, b: u128)
    ensures
        lex_leq(encoding(a), encoding(b)) <==> a <= b,
{
    if a <= b {
        lemma_encoding_monotonic(a, b);
    } else {
        lemma_encoding_preserves_order(b, a);
        lemma_lex_lt_asymmetric(encoding(b), encoding(a));
    }
}

/// The rendering is always exactly 26 characters, each drawn from the
/// 32-character alphabet.
pub proof fn lemma_encoding_shape(v: u128)
    ensures
        encoding(v).len() == 26,
        forall|i: int| 0 <= i < 26 ==> alphabet().contains(#[trigger] encoding(v)[i]),
{
    reveal_strlit("0123456789ABCDEFGHJKMNPQRSTVWXYZ");
    assert forall|i: int| 0 <= i < 26 implies alphabet().contains(encoding(v)[i]) by {
        let p = pow32((25 - i) as nat);
        lemma_pow32_pos((25 - i) as nat);
        lemma_mod_division_less_than_divisor(((v as nat) / p) as int, 32);
        assert(encoding(v)[i] == alphabet()[digit_at(v, i) as int]);
    }
}

/// Renders `v` as its canonical 26-character text form.
pub fn encode_value(v: u128) -> (r: String)
    ensures
        r@ == encoding(v),
{
    let alpha = "0123456789ABCDEFGHJKMNPQRSTVWXYZ";
    proof {
        reveal_strlit("0123456789ABCDEFGHJKMNPQRSTVWXYZ");
        assert(pow32(25) == 0x20000000000000000000000000000000) by {
            reveal_with_fuel(pow32, 26);
        }
    }
    let mut out = String::new();
    let mut p: u128 = 0x20000000000000000000000000000000;
    let mut i: usize = 0;
    proof {
        assert(out@ =~= encoding(v).subrange(0, 0));
    }
    while i < 26
        invariant
            i <= 26,
            alpha@ == alphabet(),
            alpha@.len() == 32,
            i < 26 ==> p as nat == pow32((25 - i) as nat),
            out@ == encoding(v).subrange(0, i as int),
        decreases 26 - i,
    {
        proof {
            lemma_pow32_pos((25 - i) as nat);
            lemma_mod_division_less_than_divisor((v / p) as int, 32);
        }
        let d = ((v / p) % 32) as usize;
        let c = alpha.substring_char(d, d + 1);
        out.append(c);
        proof {
            assert(digit_at(v, i as int) == d as nat);
            assert(c@ =~= seq![alphabet()[d as int]]);
            assert(encoding(v)[i as int] == alphabet()[d as int]);
            assert(out@ =~= encoding(v).subrange(0, i as int + 1));
        }
        if i < 25 {
            proof {
                assert(pow32((25 - i) as nat) == 32 * pow32((24 - i) as nat));
                lemma_pow32_pos((24 - i) as nat);
                vstd::arithmetic::div_mod::lemma_div_multiples_vanish(
                    pow32((24 - i) as nat) as int,
                    32,
                );
            }
            p = p / 32;
        }
        i = i + 1;
    }
    proof {
        assert(encoding(v).subrange(0, 26) =~= encoding(v));
    }
    out
}

} // verus!
