//! Filament length to mass, exactly, in integer units. Lengths are whole
//! micrometres. Masses are counted in mass units of `1 / UNITS_PER_UG`
//! micrograms, fine enough that the mass of every whole number of
//! micrometres is a whole number of units. A filament is a cylinder, so its
//! mass is `pi * r^2 * length * density`.
use vstd::prelude::*;

verus! {

/// Numerator of the rational value used for pi: its first sixteen digits.
pub const PI_NUM: u128 = 3141592653589793;

/// Denominator of the rational value used for pi.
pub const PI_DEN: u128 = 1000000000000000;

/// Filament radius in centimetres, as `RADIUS_NUM / RADIUS_DEN` (0.0875 cm).
pub const RADIUS_NUM: u128 = 875;

pub const RADIUS_DEN: u128 = 10000;

/// Material density in grams per cubic centimetre, as `DENSITY_NUM / DENSITY_DEN` (1.25).
pub const DENSITY_NUM: u128 = 5;

pub const DENSITY_DEN: u128 = 4;

/// `r^2 * 100 * density` in lowest terms: grams per metre is `pi` times this
/// ratio, and so is micrograms per micrometre.
pub const SECTION_NUM: u128 = 245;

pub const SECTION_DEN: u128 = 256;

/// Mass units in a microgram.
pub const UNITS_PER_UG: u128 = PI_DEN * SECTION_DEN;

/// Mass units in a gram.
pub const UNITS_PER_GRAM: u128 = UNITS_PER_UG * 1000000;

/// Mass units in `len_um` micrometres of filament:
/// `len_um * pi * 245 / 256` micrograms, exactly.
pub open spec fn mass_of_length(len_um: int) -> int {
    len_um * (PI_NUM * SECTION_NUM)
}

/// Mass, in mass units, of `len_um` micrometres of filament.
pub fn length_to_mass(len_um: u64) -> (r: u128)
    ensures
        r == mass_of_length(len_um as int),
{
    let n: u128 = len_um as u128;
    assert(n * (PI_NUM * SECTION_NUM) <= 18446744073709551615u128 * (PI_NUM * SECTION_NUM))
        by (nonlinear_arith)
        requires
            n <= 18446744073709551615u128,
    ;
    n * (PI_NUM * SECTION_NUM)
}

/// The converted mass is exactly the cylinder's mass
/// `pi * r^2 * (100 * L) * density` grams, with L in metres and r in
/// centimetres, and pi taken to sixteen digits. Stated over micrometres and
/// micrograms, where micrograms per micrometre equal grams per metre:
/// `mass / UNITS_PER_UG == len_um * pi * r^2 * 100 * density`.
/// No length gives no mass.
pub proof fn lemma_mass_is_cylinder(len_um: nat)
    ensures
        mass_of_length(len_um as int) * (PI_DEN * (RADIUS_DEN * RADIUS_DEN) * DENSITY_DEN)
            == len_um * PI_NUM * (RADIUS_NUM * RADIUS_NUM) * 100 * DENSITY_NUM * UNITS_PER_UG,
        mass_of_length(0) == 0,
{
    let l = len_um as int;
    assert(UNITS_PER_UG == 256000000000000000u128);
    assert(PI_DEN * (RADIUS_DEN * RADIUS_DEN) * DENSITY_DEN * SECTION_NUM
        == 98000000000000000000000000int);
    assert((RADIUS_NUM * RADIUS_NUM) * 100 * DENSITY_NUM * UNITS_PER_UG
        == 98000000000000000000000000int);
    assert(PI_DEN * (RADIUS_DEN * RADIUS_DEN) * DENSITY_DEN * SECTION_NUM == (RADIUS_NUM
        * RADIUS_NUM) * 100 * DENSITY_NUM * UNITS_PER_UG);
    assert(l * (PI_NUM * SECTION_NUM) * (PI_DEN * (RADIUS_DEN * RADIUS_DEN) * DENSITY_DEN) == l
        * PI_NUM * ((RADIUS_NUM * RADIUS_NUM) * 100 * DENSITY_NUM * UNITS_PER_UG))
        by (nonlinear_arith)
        requires
            PI_DEN * (RADIUS_DEN * RADIUS_DEN) * DENSITY_DEN * SECTION_NUM == (RADIUS_NUM
                * RADIUS_NUM) * 100 * DENSITY_NUM * UNITS_PER_UG,
    ;
    assert(l * PI_NUM * ((RADIUS_NUM * RADIUS_NUM) * 100 * DENSITY_NUM * UNITS_PER_UG) == l
        * PI_NUM * (RADIUS_NUM * RADIUS_NUM) * 100 * DENSITY_NUM * UNITS_PER_UG)
        by (nonlinear_arith);
}

/// Mass is linear in length: the mass of two lengths together is the sum of
/// their masses, and `k` times a length has `k` times its mass.
pub proof fn lemma_mass_is_linear(a: nat, b: nat, k: nat)
    ensures
        mass_of_length((a + b) as int) == mass_of_length(a as int) + mass_of_length(b as int),
        mass_of_length((k * a) as int) == k * mass_of_length(a as int),
{
    assert((a + b) * (PI_NUM * SECTION_NUM) == a * (PI_NUM * SECTION_NUM) + b * (PI_NUM
        * SECTION_NUM)) by (nonlinear_arith);
    assert((k * a) * (PI_NUM * SECTION_NUM) == k * (a * (PI_NUM * SECTION_NUM)))
        by (nonlinear_arith);
}

/// `n / d` rounded to the nearest integer, halves away from zero.
pub open spec fn round_div(n: int, d: int) -> int {
    if n >= 0 {
        (2 * n + d) / (2 * d)
    } else {
        -((-2 * n + d) / (2 * d))
    }
}

/// `n / d` rounded to the nearest integer, halves rounded up.
pub fn round_div_u128(n: u128, d: u128) -> (r: u128)
    requires
        d > 0,
    ensures
        r == round_div(n as int, d as int),
{
    let q = n / d;
    let rem = n % d;
    let up: bool = rem >= d - rem;
    proof {
        let ni = n as int;
        let di = d as int;
        assert(ni == q * di + rem && 0 <= rem < di) by (nonlinear_arith)
            requires
                q == ni / di,
                rem == ni % di,
                di > 0,
        ;
        let t: int = if up { q as int + 1 } else { q as int };
        assert((2 * ni + di) / (2 * di) == t) by (nonlinear_arith)
            requires
                ni == q * di + rem,
                0 <= rem < di,
                di > 0,
                up == (rem >= di - rem),
                t == if up { q as int + 1 } else { q as int },
        {
            let s = 2 * ni + di;
            assert(s == t * (2 * di) + (if up { 2 * rem - di } else { 2 * rem + di }));
            vstd::arithmetic::div_mod::lemma_fundamental_div_mod_converse(
                s,
                2 * di,
                t,
                if up { 2 * rem - di } else { 2 * rem + di },
            );
        };
    }
    if up {
        assert(q < 0xffff_ffff_ffff_ffff_ffff_ffff_ffff_ffffu128) by (nonlinear_arith)
            requires
                n as int == q * d + rem,
                rem >= d - rem,
                d > 0,
                n <= 0xffff_ffff_ffff_ffff_ffff_ffff_ffff_ffffu128,
        ;
        q + 1
    } else {
        q
    }
}

} // verus!
