//! The estimate `floor(2^(lgn + 5.4 + ones / 32))`, computed in fixed point
//! from a table of the fractional powers. It is exact while `lgn + 5 <= 62`;
//! beyond that the table's 62 fraction bits bound its precision, and a result
//! past `u64::MAX` is capped there.

use vstd::prelude::*;
use vstd::arithmetic::div_mod::{lemma_div_multiples_vanish, lemma_div_multiples_vanish_quotient};
use vstd::arithmetic::power2::{lemma2_to64, lemma_pow2_adds, lemma_pow2_pos, lemma_pow2_strictly_increases, pow2};
use vstd::bits::lemma_u64_shr_is_div;

verus! {

/// Entry `i` is `floor(2^(62 + 0.4 + i / 32))`: the fractional part of the
/// exponent, with 62 bits after the binary point, for each count of set
/// buckets from 0 to 32.
pub open spec fn fraction_table() -> Seq<u64> {
    seq![
        6085156183315689749u64,
        6218403752845270687u64,
        6354569064212640608u64,
        6493716007644555910u64,
        6635909872381565827u64,
        6781217377312425409u64,
        6929706702279314816u64,
        7081447520068553639u64,
        7236511029101820657u64,
        7394969986843218087u64,
        7556898743937855290u64,
        7722373279097970114u64,
        7891471234752956830u64,
        8064271953480028019u64,
        8240856515232604090u64,
        8421307775383898366u64,
        8605710403603548214u64,
        8794150923585533546u64,
        8986717753646023454u64,
        9183501248210199935u64,
        9384593740207524749u64,
        9590089584395341753u64,
        9800085201631142585u64,
        10014679124114268734u64,
        10233972041618277888u64,
        10458066848735667275u64,
        10687068693157121742u64,
        10921085025007939698u64,
        11160225647264786114u64,
        11404602767276428659u64,
        11654331049412631053u64,
        11909527668865907062u64,
        12170312366631379499u64,
    ]
}

/// The estimate for scale exponent `lgn` and `ones` buckets set:
/// `fraction_table()[ones] * 2^(lgn + 5) / 2^62`, rounded down, and capped at
/// the largest `u64`.
pub open spec fn estimate_of(lgn: nat, ones: nat) -> u64
    recommends
        ones <= 32,
{
    let v = (fraction_table()[ones as int] as nat) * pow2(lgn + 5) / pow2(62);
    if v > u64::MAX {
        u64::MAX
    } else {
        v as u64
    }
}

/// Looks up `fraction_table()[ones]`.
fn fraction(ones: u32) -> (r: u64)
    requires
        ones <= 32,
    ensures
        r == fraction_table()[ones as int],
        r >= 0x4000_0000_0000_0000,
{
    match ones {
        0 => 6085156183315689749u64,
        1 => 6218403752845270687u64,
        2 => 6354569064212640608u64,
        3 => 6493716007644555910u64,
        4 => 6635909872381565827u64,
        5 => 6781217377312425409u64,
        6 => 6929706702279314816u64,
        7 => 7081447520068553639u64,
        8 => 7236511029101820657u64,
        9 => 7394969986843218087u64,
        10 => 7556898743937855290u64,
        11 => 7722373279097970114u64,
        12 => 7891471234752956830u64,
        13 => 8064271953480028019u64,
        14 => 8240856515232604090u64,
        15 => 8421307775383898366u64,
        16 => 8605710403603548214u64,
        17 => 8794150923585533546u64,
        18 => 8986717753646023454u64,
        19 => 9183501248210199935u64,
        20 => 9384593740207524749u64,
        21 => 9590089584395341753u64,
        22 => 9800085201631142585u64,
        23 => 10014679124114268734u64,
        24 => 10233972041618277888u64,
        25 => 10458066848735667275u64,
        26 => 10687068693157121742u64,
        27 => 10921085025007939698u64,
        28 => 11160225647264786114u64,
        29 => 11404602767276428659u64,
        30 => 11654331049412631053u64,
        31 => 11909527668865907062u64,
        _ => 12170312366631379499u64,
    }
}

/// Computes `estimate_of(lgn, ones)`.
pub fn estimate(lgn: u8, ones: u32) -> (r: u64)
    requires
        ones <= 32,
    ensures
        r == estimate_of(lgn as nat, ones as nat),
{
    let f = fraction(ones);
    let ghost e = lgn as nat + 5;
    proof {
        lemma2_to64();
        lemma_pow2_pos(e);
    }
    let ghost p62 = pow2(62);
    let ghost pe = pow2(e);
    if lgn <= 57 {
        let shift: u64 = 57 - lgn as u64;
        let ghost ps = pow2(shift as nat);
        proof {
            lemma_u64_shr_is_div(f, shift);
            lemma_pow2_adds(e, shift as nat);
            lemma_pow2_pos(shift as nat);
            assert(p62 == pe * ps);
            lemma_div_multiples_vanish_quotient(pe as int, f as int, ps as int);
            assert(f as nat * pe == pe * f as nat) by (nonlinear_arith);
            assert(f as nat / ps <= f) by (nonlinear_arith)
                requires
                    ps > 0,
            ;
            assert(estimate_of(lgn as nat, ones as nat) == f as nat / ps);
        }
        f >> shift
    } else if lgn == 58 && f < 0x8000_0000_0000_0000 {
        proof {
            lemma_pow2_adds(62, 1);
            assert(pe == p62 * 2);
            assert(f as nat * (p62 * 2) == p62 * (2 * f as nat)) by (nonlinear_arith);
            lemma_div_multiples_vanish(2 * f as int, p62 as int);
            assert(estimate_of(lgn as nat, ones as nat) == 2 * f);
        }
        f * 2
    } else {
        let ghost d = (e - 62) as nat;
        proof {
            lemma_pow2_adds(62, d);
            assert(pe == p62 * pow2(d));
            assert(f as nat * (p62 * pow2(d)) == p62 * (f as nat * pow2(d))) by (nonlinear_arith);
            lemma_div_multiples_vanish((f as nat * pow2(d)) as int, p62 as int);
            if lgn == 58 {
                assert(pow2(d) == 2);
                assert(f as nat * 2 > u64::MAX);
            } else {
                if d > 2 {
                    lemma_pow2_strictly_increases(2, d);
                }
                assert(pow2(d) >= 4);
                assert(f as nat * pow2(d) >= 0x4000_0000_0000_0000 * 4) by (nonlinear_arith)
                    requires
                        f >= 0x4000_0000_0000_0000,
                        pow2(d) >= 4,
                ;
            }
        }
        u64::MAX
    }
}

} // verus!
