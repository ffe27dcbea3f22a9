//! Exact comparison of fractions whose cross products do not fit a
//! machine word: whole parts first, then the remainders.

use vstd::prelude::*;

verus! {

/// A fraction whose numerator magnitude stays below `2^120` and whose
/// denominator is positive and below `2^64`.
pub open spec fn small_fraction(num: int, den: int) -> bool {
    -0x100_0000_0000_0000_0000_0000_0000_0000 < num < 0x100_0000_0000_0000_0000_0000_0000_0000 && 0 < den
        < 0x1_0000_0000_0000_0000
}

proof fn lemma_floor_compare(a: int, da: int, b: int, db: int, qa: int, ra: int, qb: int, rb: int)
    by (nonlinear_arith)
    requires
        da > 0,
        db > 0,
        a == qa * da + ra,
        b == qb * db + rb,
        0 <= ra < da,
        0 <= rb < db,
        qa >= 0,
        qb >= 0,
    ensures
        qa < qb ==> a * db < b * da,
        qb < qa ==> !(a * db < b * da),
        qa == qb ==> (a * db < b * da <==> ra * db < rb * da),
{
    if qa < qb {
        assert(a * db == qa * da * db + ra * db);
        assert(b * da == qb * db * da + rb * da);
        assert(ra * db < da * db);
        assert((qa + 1) * da * db <= qb * da * db);
    } else if qb < qa {
        assert(a * db == qa * da * db + ra * db);
        assert(b * da == qb * db * da + rb * da);
        assert(rb * da < db * da);
        assert((qb + 1) * da * db <= qa * da * db);
    } else {
        assert(a * db == qa * da * db + ra * db);
        assert(b * da == qa * db * da + rb * da);
    }
}

/// `a / da < b / db` for non-negative numerators.
fn unsigned_less(a: u128, da: u128, b: u128, db: u128) -> (r: bool)
    requires
        0 < da < 0x1_0000_0000_0000_0000,
        0 < db < 0x1_0000_0000_0000_0000,
    ensures
        r == (a * db < b * da),
{
    let qa = a / da;
    let ra = a % da;
    let qb = b / db;
    let rb = b % db;
    proof {
        vstd::arithmetic::div_mod::lemma_fundamental_div_mod(a as int, da as int);
        vstd::arithmetic::div_mod::lemma_fundamental_div_mod(b as int, db as int);
        assert(a as int == qa * da + ra) by (nonlinear_arith)
            requires a as int == da * (a as int / da as int) + (a as int % da as int), qa == a as int / da as int, ra == a as int % da as int;
        assert(b as int == qb * db + rb) by (nonlinear_arith)
            requires b as int == db * (b as int / db as int) + (b as int % db as int), qb == b as int / db as int, rb == b as int % db as int;
        lemma_floor_compare(a as int, da as int, b as int, db as int, qa as int, ra as int, qb as int, rb as int);
        assert(ra * db < 0x1_0000_0000_0000_0000 * 0x1_0000_0000_0000_0000) by (nonlinear_arith)
            requires ra < 0x1_0000_0000_0000_0000, db < 0x1_0000_0000_0000_0000;
        assert(rb * da < 0x1_0000_0000_0000_0000 * 0x1_0000_0000_0000_0000) by (nonlinear_arith)
            requires rb < 0x1_0000_0000_0000_0000, da < 0x1_0000_0000_0000_0000;
    }
    if qa != qb {
        qa < qb
    } else {
        ra * db < rb * da
    }
}

/// `an / ad < bn / bd`, exactly.
pub fn fraction_less(an: i128, ad: u128, bn: i128, bd: u128) -> (r: bool)
    requires
        small_fraction(an as int, ad as int),
        small_fraction(bn as int, bd as int),
    ensures
        r == (an * bd < bn * ad),
{
    if an < 0 && bn >= 0 {
        assert(an * bd < 0) by (nonlinear_arith)
            requires an < 0, bd > 0;
        assert(bn * ad >= 0) by (nonlinear_arith)
            requires bn >= 0, ad > 0;
        true
    } else if an >= 0 && bn < 0 {
        assert(an * bd >= 0) by (nonlinear_arith)
            requires an >= 0, bd > 0;
        assert(bn * ad < 0) by (nonlinear_arith)
            requires bn < 0, ad > 0;
        false
    } else if an >= 0 {
        unsigned_less(an as u128, ad, bn as u128, bd)
    } else {
        let r = unsigned_less((-bn) as u128, bd, (-an) as u128, ad);
        assert((-bn) * ad < (-an) * bd <==> an * bd < bn * ad) by (nonlinear_arith);
        r
    }
}

} // verus!
