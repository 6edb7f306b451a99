//! Shattering: iterative multi-plane splitting of a mesh into many shards,
//! used for the destroy-completely effect once fragments age out, with
//! randomized shard masses and a fixed despawn delay.

use vstd::prelude::*;
use crate::vec3::{Vec3i, in_box, NORMAL_LIMIT};
use crate::mesh::Mesh;
use crate::plane::Plane;
use crate::slicer::slice;
use crate::rng::random_in_range;
use crate::timers::{TimedEntity, timed_kept, timed_fired, tick_timed};

verus! {

/// How long a shard lies around before it despawns.
pub const SHARDS_DESPAWN_DELAY_MS: u64 = 3000;

/// How many rounds of binary splitting a shatter performs.
pub const SHATTER_ITERATION_COUNT: u32 = 6;

/// Smallest shard mass, in micro-units (a millionth of the engine's mass
/// unit). Masses are drawn uniformly, not computed from volume.
pub const FIXED_MIN_SHARD_MASS_MICRO: u64 = 40000;

/// Largest shard mass (exclusive), in micro-units.
pub const FIXED_MAX_SHARD_MASS_MICRO: u64 = 80000;

/// Request to shatter an entity, with the impulse every shard receives.
#[derive(Clone, Copy, Debug, PartialEq, Eq, Structural)]
pub struct ShatterEntity {
    pub entity: u64,
    pub impulse: Vec3i,
}

/// Two to the `n`th: the most shards `n` rounds of splitting can produce.
pub open spec fn pow2(n: nat) -> nat
    decreases n,
{
    if n == 0 {
        1
    } else {
        2 * pow2((n - 1) as nat)
    }
}

pub proof fn lemma_pow2_pos(n: nat)
    ensures
        pow2(n) >= 1,
    decreases n,
{
    if n > 0 {
        lemma_pow2_pos((n - 1) as nat);
    }
}

pub proof fn lemma_pow2_monotone(a: nat, b: nat)
    requires
        a <= b,
    ensures
        pow2(a) <= pow2(b),
    decreases b,
{
    if a < b {
        lemma_pow2_monotone(a, (b - 1) as nat);
        lemma_pow2_pos((b - 1) as nat);
    }
}

proof fn lemma_pow2_16()
    ensures
        pow2(16) == 65536,
{
    assert(pow2(0) == 1);
    assert(pow2(1) == 2);
    assert(pow2(2) == 4);
    assert(pow2(3) == 8);
    assert(pow2(4) == 16);
    assert(pow2(5) == 32);
    assert(pow2(6) == 64);
    assert(pow2(7) == 128);
    assert(pow2(8) == 256);
    assert(pow2(9) == 512);
    assert(pow2(10) == 1024);
    assert(pow2(11) == 2048);
    assert(pow2(12) == 4096);
    assert(pow2(13) == 8192);
    assert(pow2(14) == 16384);
    assert(pow2(15) == 32768);
    assert(pow2(16) == 65536);
}

/// A random cut direction with small integer components; the x axis when
/// the draw comes up zero, so that a cut plane always exists.
fn random_cut_normal() -> (r: Vec3i)
    ensures
        !r.is_zero(),
        in_box(r@, NORMAL_LIMIT as int),
{
    let x = random_in_range(0, 17) as i64 - 8;
    let y = random_in_range(0, 17) as i64 - 8;
    let z = random_in_range(0, 17) as i64 - 8;
    if x == 0 && y == 0 && z == 0 {
        Vec3i { x: 1, y: 0, z: 0 }
    } else {
        Vec3i { x, y, z }
    }
}

/// Splits `mesh` into up to `2^iteration_count` shard meshes by repeated
/// binary cuts along random planes through each piece's bounding-box
/// centre. A piece whose random plane misses it, or one grown too large to
/// cut safely, is carried through unsplit, so fewer shards may come out;
/// at least one always does, and every shard is well-formed.
pub fn shatter(mesh: Mesh, iteration_count: u32) -> (shards: Vec<Mesh>)
    requires
        mesh.wf(),
        iteration_count <= 16,
    ensures
        1 <= shards@.len() <= pow2(iteration_count as nat),
        forall|k: int| 0 <= k < shards@.len() ==> (#[trigger] shards@[k]).wf(),
{
    let mut pieces: Vec<Mesh> = Vec::new();
    pieces.push(mesh);
    let mut round: u32 = 0;
    proof {
        lemma_pow2_pos(iteration_count as nat);
    }
    while round < iteration_count
        invariant
            round <= iteration_count <= 16,
            1 <= pieces@.len(),
            pieces@.len() <= pow2(round as nat),
            forall|k: int| 0 <= k < pieces@.len() ==> (#[trigger] pieces@[k]).wf(),
        decreases iteration_count - round,
    {
        proof {
            lemma_pow2_monotone(round as nat, 16);
            lemma_pow2_16();
        }
        let ghost n0 = pieces@.len();
        let mut next: Vec<Mesh> = Vec::new();
        while pieces.len() > 0
            invariant
                forall|k: int| 0 <= k < pieces@.len() ==> (#[trigger] pieces@[k]).wf(),
                forall|k: int| 0 <= k < next@.len() ==> (#[trigger] next@[k]).wf(),
                pieces@.len() <= n0,
                n0 <= 65536,
                next@.len() + 2 * pieces@.len() <= 2 * n0,
                next@.len() + pieces@.len() >= n0,
            decreases pieces@.len(),
        {
            let piece = pieces.pop().unwrap();
            let splittable = piece.verts.len() > 0 && piece.verts.len() <= 0x10000000
                && piece.tris.len() <= 0x10000000;
            if splittable {
                let center = piece.aabb_center();
                let normal = random_cut_normal();
                match Plane::from_point_normal(center, normal) {
                    None => {
                        next.push(piece);
                    },
                    Some(plane) => {
                        match slice(&plane, &piece) {
                            None => {
                                next.push(piece);
                            },
                            Some((top, bottom)) => {
                                next.push(top);
                                next.push(bottom);
                            },
                        }
                    },
                }
            } else {
                next.push(piece);
            }
        }
        pieces = next;
        round = round + 1;
        proof {
            assert(pow2(round as nat) == 2 * pow2((round - 1) as nat));
        }
    }
    pieces
}

/// A shard's mass, drawn uniformly from the fixed range, in micro-units.
pub fn random_shard_mass() -> (m: u64)
    ensures
        FIXED_MIN_SHARD_MASS_MICRO <= m < FIXED_MAX_SHARD_MASS_MICRO,
{
    random_in_range(FIXED_MIN_SHARD_MASS_MICRO, FIXED_MAX_SHARD_MASS_MICRO)
}

/// One tick of the shards' despawn countdowns: returns the shards whose
/// time ran out, which are to be despawned.
pub fn despawn_shards(shards: &mut Vec<TimedEntity>, dt_ms: u64) -> (to_despawn: Vec<u64>)
    ensures
        final(shards)@ == timed_kept(old(shards)@, dt_ms, old(shards)@.len() as int),
        to_despawn@ == timed_fired(old(shards)@, dt_ms, old(shards)@.len() as int),
{
    tick_timed(shards, dt_ms)
}

} // verus!
