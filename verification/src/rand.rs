//! A deterministic, explicitly-seeded random source.
//!
//! The random source is an injectable parameter of every sampling routine,
//! so renders are reproducible and each execution unit can carry its own
//! stream. The generator is a 64-bit xorshift; draws in `[0, ONE)` come
//! from the low decimal digits of the state.

use vstd::prelude::*;
use crate::fixed::{ONE, TWO};
use crate::vec3::{v3, v_dot_s, v_sub_s, v_scale_s, Vec3, V3};
use crate::types::Point;

verus! {

/// Fallback seed used when a zero seed is supplied; a xorshift state must
/// never be zero.
pub const DEFAULT_SEED: u64 = 0x9e37_79b9_7f4a_7c15;

/// How many rejection-sampling rounds are attempted before falling back to
/// the origin (which lies strictly inside the unit ball and disk).
pub const SAMPLE_ATTEMPTS: u64 = 64;

#[derive(Clone, Copy, Debug, PartialEq, Eq, Structural)]
pub struct Rng {
    pub state: u64,
}

impl View for Rng {
    type V = u64;

    open spec fn view(&self) -> u64 {
        self.state
    }
}

/// One xorshift step of the generator state.
pub open spec fn next_state_s(s: u64) -> u64 {
    let a = s ^ (s << 13u64);
    let b = a ^ (a >> 7u64);
    b ^ (b << 17u64)
}

/// The scaled value in `[0, ONE)` extracted from a generator state.
pub open spec fn unit_of_s(s: u64) -> int {
    (s % (ONE as u64)) as int
}

pub open spec fn seed_state_s(seed: u64) -> u64 {
    if seed == 0 {
        DEFAULT_SEED
    } else {
        seed
    }
}

/// One candidate point of the unit-ball rejection sampler: three draws,
/// scaled into the cube `[-1, 1)^3`.
pub open spec fn cube_candidate_s(s: u64) -> (V3, u64) {
    let s1 = next_state_s(s);
    let s2 = next_state_s(s1);
    let s3 = next_state_s(s2);
    let p = v_sub_s(
        v_scale_s(2 * (ONE as int), v3(unit_of_s(s1), unit_of_s(s2), unit_of_s(s3))),
        v3(ONE as int, ONE as int, ONE as int),
    );
    (p, s3)
}

/// Rejection sampling in the unit ball, at most `fuel` rounds.
pub open spec fn in_unit_sphere_s(s: u64, fuel: nat) -> (V3, u64)
    decreases fuel,
{
    if fuel == 0 {
        (v3(0, 0, 0), s)
    } else {
        let (p, s3) = cube_candidate_s(s);
        if v_dot_s(p, p) < ONE as int {
            (p, s3)
        } else {
            in_unit_sphere_s(s3, (fuel - 1) as nat)
        }
    }
}

/// One candidate point of the unit-disk rejection sampler: two draws,
/// scaled into the square `[-1, 1)^2` of the xy-plane.
pub open spec fn square_candidate_s(s: u64) -> (V3, u64) {
    let s1 = next_state_s(s);
    let s2 = next_state_s(s1);
    let p = v_sub_s(
        v_scale_s(2 * (ONE as int), v3(unit_of_s(s1), unit_of_s(s2), 0)),
        v3(ONE as int, ONE as int, 0),
    );
    (p, s2)
}

/// Rejection sampling in the unit disk, at most `fuel` rounds.
pub open spec fn in_unit_disk_s(s: u64, fuel: nat) -> (V3, u64)
    decreases fuel,
{
    if fuel == 0 {
        (v3(0, 0, 0), s)
    } else {
        let (p, s2) = square_candidate_s(s);
        if v_dot_s(p, p) < ONE as int {
            (p, s2)
        } else {
            in_unit_disk_s(s2, (fuel - 1) as nat)
        }
    }
}

impl Rng {
    pub fn new(seed: u64) -> (r: Rng)
        ensures
            r@ == seed_state_s(seed),
    {
        Rng { state: if seed == 0 { DEFAULT_SEED } else { seed } }
    }
}

/// Advances the generator and returns a scaled value in `[0, ONE)`.
pub fn rand_unit(rng: &mut Rng) -> (r: i64)
    ensures
        final(rng)@ == next_state_s(old(rng)@),
        r as int == unit_of_s(final(rng)@),
        0 <= r < ONE,
{
    let s: u64 = rng.state;
    let a: u64 = s ^ (s << 13u64);
    let b: u64 = a ^ (a >> 7u64);
    let c: u64 = b ^ (b << 17u64);
    rng.state = c;
    (c % (ONE as u64)) as i64
}

fn sphere_candidate(rng: &mut Rng) -> (p: Vec3)
    ensures
        (p@, final(rng)@) == cube_candidate_s(old(rng)@),
{
    let x: i64 = rand_unit(rng);
    let y: i64 = rand_unit(rng);
    let z: i64 = rand_unit(rng);
    Vec3::new(x, y, z).scale(TWO).sub(Vec3::new(ONE, ONE, ONE))
}

fn sample_in_unit_sphere(rng: &mut Rng, fuel: u64) -> (p: Vec3)
    ensures
        (p@, final(rng)@) == in_unit_sphere_s(old(rng)@, fuel as nat),
        v_dot_s(p@, p@) < ONE as int,
    decreases fuel,
{
    if fuel == 0 {
        let p = Vec3::init();
        assert(v_dot_s(p@, p@) == 0);
        p
    } else {
        let p = sphere_candidate(rng);
        if Vec3::dot(&p, &p) < ONE {
            p
        } else {
            sample_in_unit_sphere(rng, fuel - 1)
        }
    }
}

/// A point strictly inside the unit ball, drawn by rejection sampling.
pub fn random_in_unit_sphere(rng: &mut Rng) -> (p: Vec3)
    ensures
        (p@, final(rng)@) == in_unit_sphere_s(old(rng)@, SAMPLE_ATTEMPTS as nat),
        v_dot_s(p@, p@) < ONE as int,
{
    sample_in_unit_sphere(rng, SAMPLE_ATTEMPTS)
}

fn disk_candidate(rng: &mut Rng) -> (p: Vec3)
    ensures
        (p@, final(rng)@) == square_candidate_s(old(rng)@),
{
    let x: i64 = rand_unit(rng);
    let y: i64 = rand_unit(rng);
    Vec3::new(x, y, 0).scale(TWO).sub(Vec3::new(ONE, ONE, 0))
}

fn sample_in_unit_disk(rng: &mut Rng, fuel: u64) -> (p: Vec3)
    ensures
        (p@, final(rng)@) == in_unit_disk_s(old(rng)@, fuel as nat),
        v_dot_s(p@, p@) < ONE as int,
    decreases fuel,
{
    if fuel == 0 {
        let p = Vec3::init();
        assert(v_dot_s(p@, p@) == 0);
        p
    } else {
        let p = disk_candidate(rng);
        if Vec3::dot(&p, &p) < ONE {
            p
        } else {
            sample_in_unit_disk(rng, fuel - 1)
        }
    }
}

/// A point strictly inside the unit disk of the xy-plane, drawn by
/// rejection sampling.
pub fn random_in_unit_disk(rng: &mut Rng) -> (p: Point)
    ensures
        (p@, final(rng)@) == in_unit_disk_s(old(rng)@, SAMPLE_ATTEMPTS as nat),
        v_dot_s(p@, p@) < ONE as int,
{
    sample_in_unit_disk(rng, SAMPLE_ATTEMPTS)
}

} // verus!
