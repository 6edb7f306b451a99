use arena_core::vec3::Vec3i;
use arena_core::mesh::{Mesh, Tri};
use arena_core::gesture::SliceAttempt;
use arena_core::resolver::{derive_cut_plane, resolve_slice_attempt, Target};
use arena_core::fragments::{
    fragment_impulse, fragment_torque_impulse, shatter_fragments, FragmentationQueue,
    SlicedFragment, PLAYER_SLICE_FRAGMENTATION_DELAY_MS, SLICED_FRAGMENTS_SHATTER_DELAY_MS,
};
use arena_core::shatter::{
    despawn_shards, random_shard_mass, shatter, FIXED_MAX_SHARD_MASS_MICRO,
    FIXED_MIN_SHARD_MASS_MICRO, SHATTER_ITERATION_COUNT,
};
use arena_core::timers::TimedEntity;
use arena_core::collisions::{handle_player_collision, handle_shield_collision, CollisionStarted};
use arena_core::score::ScoreActionType;
use arena_core::throwers::ThrowersData;
use arena_core::arena::ArenaMode;
use arena_core::dummies::{despawn_dummies, spawn_dummy_slots, ActiveDummy, DummiesModeData};
use arena_core::slot_pool::SlotPool;

fn v(x: i64, y: i64, z: i64) -> Vec3i {
    Vec3i { x, y, z }
}

fn tri(a: usize, b: usize, c: usize) -> Tri {
    Tri { a, b, c }
}

fn cube(h: i64) -> Mesh {
    let verts = vec![
        v(-h, -h, -h),
        v(h, -h, -h),
        v(h, h, -h),
        v(-h, h, -h),
        v(-h, -h, h),
        v(h, -h, h),
        v(h, h, h),
        v(-h, h, h),
    ];
    let tris = vec![
        tri(0, 3, 2),
        tri(0, 2, 1),
        tri(4, 5, 6),
        tri(4, 6, 7),
        tri(0, 1, 5),
        tri(0, 5, 4),
        tri(2, 3, 7),
        tri(2, 7, 6),
        tri(0, 4, 7),
        tri(0, 7, 3),
        tri(1, 2, 6),
        tri(1, 6, 5),
    ];
    Mesh { verts, tris }
}

#[test]
fn cut_plane_comes_from_the_view_rays() {
    let begin = v(0, 1000, 0);
    let end = v(1000, 1000, 0);
    let camera = v(500, 1000, -5000);
    let plane = derive_cut_plane(begin, end, camera, v(0, 0, 0)).expect("not degenerate");
    assert_eq!(plane.point, begin);
    // qr x qs with qr = begin - camera and qs = end - camera.
    let qr = begin.sub(camera);
    let qs = end.sub(camera);
    assert_eq!(plane.normal, qr.cross(qs));
}

#[test]
fn degenerate_gesture_yields_no_plane() {
    let p = v(100, 200, 300);
    let camera = v(0, 0, -5000);
    // Equal endpoints: the rays are parallel.
    assert!(derive_cut_plane(p, p, camera, v(0, 0, 0)).is_none());
    // Endpoints collinear with the camera: q = camera + 2 * (p - camera).
    let q = v(200, 400, 5600);
    assert!(derive_cut_plane(p, q, camera, v(0, 0, 0)).is_none());
}

#[test]
fn resolving_a_slice_cuts_once_and_strips_the_tag() {
    let mut target = Target {
        entity: 42,
        translation: v(100, 0, 0),
        mesh: cube(1000),
        sliceable: true,
    };
    let mut queue = FragmentationQueue::new();
    let attempt = SliceAttempt { begin: v(-900, 0, 0), end: v(1100, 0, 0), target: 42 };
    let camera = v(100, 0, -8000);
    let event = resolve_slice_attempt(&attempt, camera, &mut target, &mut queue)
        .expect("a drag across the cube must cut");
    assert_eq!(event.entity, 42);
    assert_eq!(event.pos, v(100, 0, 0));
    assert!(!target.sliceable);
    assert_eq!(queue.jobs.len(), 1);
    assert_eq!(queue.timers, vec![PLAYER_SLICE_FRAGMENTATION_DELAY_MS]);
    let job = &queue.jobs[0];
    assert_eq!(job.sliced_entity, 42);
    assert_eq!(job.slice_begin, attempt.begin);
    assert_eq!(job.slice_end, attempt.end);
    assert!(job.frag_top.tris.len() > 0);
    assert!(job.frag_bottom.tris.len() > 0);
    // The tag is stripped: the same target cannot be sliced twice.
    let second = resolve_slice_attempt(&attempt, camera, &mut target, &mut queue);
    assert!(second.is_none());
    assert_eq!(queue.jobs.len(), 1);
}

#[test]
fn resolving_against_the_wrong_entity_is_a_no_op() {
    let mut target = Target {
        entity: 42,
        translation: v(0, 0, 0),
        mesh: cube(1000),
        sliceable: true,
    };
    let mut queue = FragmentationQueue::new();
    let attempt = SliceAttempt { begin: v(-900, 0, 0), end: v(1100, 0, 0), target: 41 };
    let r = resolve_slice_attempt(&attempt, v(0, 0, -8000), &mut target, &mut queue);
    assert!(r.is_none());
    assert!(target.sliceable);
    assert_eq!(queue.jobs.len(), 0);
}

#[test]
fn missed_cut_leaves_the_target_sliceable() {
    let mut target = Target {
        entity: 42,
        translation: v(0, 0, 0),
        mesh: cube(10),
        sliceable: true,
    };
    let mut queue = FragmentationQueue::new();
    // A drag far above the tiny cube: the plane misses its mesh.
    let attempt = SliceAttempt { begin: v(-900, 5000, 0), end: v(1100, 5000, 0), target: 42 };
    let r = resolve_slice_attempt(&attempt, v(0, 5000, -8000), &mut target, &mut queue);
    assert!(r.is_none());
    assert!(target.sliceable);
    assert_eq!(queue.jobs.len(), 0);
}

#[test]
fn fragmentation_queue_fires_after_its_delay() {
    let mut target = Target {
        entity: 9,
        translation: v(0, 0, 0),
        mesh: cube(1000),
        sliceable: true,
    };
    let mut queue = FragmentationQueue::new();
    let attempt = SliceAttempt { begin: v(-900, 0, 0), end: v(1100, 0, 0), target: 9 };
    resolve_slice_attempt(&attempt, v(0, 0, -8000), &mut target, &mut queue).unwrap();
    // Before the delay has passed nothing fires.
    assert_eq!(queue.tick(50).len(), 0);
    assert_eq!(queue.jobs.len(), 1);
    // The tick that completes the delay fires the job exactly once.
    let fired = queue.tick(35);
    assert_eq!(fired.len(), 1);
    assert_eq!(fired[0].sliced_entity, 9);
    assert_eq!(queue.jobs.len(), 0);
    assert_eq!(queue.tick(1000).len(), 0);
}

#[test]
fn fragment_impulses_follow_the_cut() {
    let begin = v(0, 0, 0);
    let end = v(100, 0, 0);
    let translation = v(10, 0, 0);
    let frag_center = v(0, 50, 0);
    let impulse = fragment_impulse(frag_center, begin, end, translation);
    // Local slice centre is (50,0,0) - (10,0,0) = (40,0,0); separation is
    // 12 * ((0,50,0) - (40,0,0)); follow-through is 11 * (100,0,0).
    assert_eq!(impulse, v(12 * -40 + 11 * 100, 12 * 50, 0));
    assert_eq!(fragment_torque_impulse(), v(3, 0, 0));
}

#[test]
fn fragments_shatter_when_their_countdown_ends() {
    assert_eq!(SlicedFragment::new().shatter_remaining_ms, SLICED_FRAGMENTS_SHATTER_DELAY_MS);
    let mut fragments = vec![
        TimedEntity { entity: 1, remaining_ms: 2000 },
        TimedEntity { entity: 2, remaining_ms: 500 },
    ];
    let fired = shatter_fragments(&mut fragments, 1000);
    assert_eq!(fired, vec![2]);
    assert_eq!(fragments, vec![TimedEntity { entity: 1, remaining_ms: 1000 }]);
    let fired = shatter_fragments(&mut fragments, 1000);
    assert_eq!(fired, vec![1]);
    assert!(fragments.is_empty());
}

#[test]
fn shattering_a_cube_yields_bounded_shards() {
    let shards = shatter(cube(1000), SHATTER_ITERATION_COUNT);
    assert!(shards.len() >= 1);
    assert!(shards.len() <= 64);
    for shard in &shards {
        assert!(shard.verts.len() > 0);
    }
}

#[test]
fn shard_masses_stay_in_their_range() {
    for _ in 0..100 {
        let m = random_shard_mass();
        assert!(FIXED_MIN_SHARD_MASS_MICRO <= m && m < FIXED_MAX_SHARD_MASS_MICRO);
    }
}

#[test]
fn shards_despawn_after_their_delay() {
    let mut shards = vec![TimedEntity { entity: 5, remaining_ms: 3000 }];
    assert_eq!(despawn_shards(&mut shards, 2999).len(), 0);
    assert_eq!(despawn_shards(&mut shards, 1), vec![5]);
}

#[test]
fn shield_collision_scores_good_and_shatters_the_jug() {
    let out = handle_shield_collision(
        CollisionStarted { e1: 3, e2: 7 },
        7,
        v(0, 0, 0),
        v(10, 0, 0),
    )
    .expect("the shield is involved");
    assert_eq!(out.action.action, ScoreActionType::Good);
    assert_eq!(out.action.pos, v(0, 0, 0));
    assert_eq!(out.shatter.entity, 3);
    // Away from the shield: -2 * ((0,0,0) - (10,0,0)).
    assert_eq!(out.shatter.impulse, v(20, 0, 0));
    let miss = handle_shield_collision(
        CollisionStarted { e1: 3, e2: 4 },
        7,
        v(0, 0, 0),
        v(10, 0, 0),
    );
    assert!(miss.is_none());
}

#[test]
fn player_collision_scores_bad_and_shatters_the_jug() {
    let out = handle_player_collision(
        CollisionStarted { e1: 8, e2: 2 },
        8,
        v(0, 0, 0),
        v(10, 0, 0),
    )
    .expect("the player is involved");
    assert_eq!(out.action.action, ScoreActionType::Bad);
    assert_eq!(out.shatter.entity, 2);
    // Through the impact: 2 * ((0,0,0) - (10,0,0)).
    assert_eq!(out.shatter.impulse, v(-20, 0, 0));
}

#[test]
fn throwers_pick_someone_when_the_timer_runs_out() {
    let mut throwers = ThrowersData::default();
    throwers.add_thrower(11);
    throwers.add_thrower(12);
    assert_eq!(throwers.throwers, vec![11, 12]);
    assert_eq!(throwers.throw_jugs(100), None);
    assert_eq!(throwers.next_throw_remaining_ms, 1400);
    let who = throwers.throw_jugs(1400).expect("the timer ran out");
    assert!(who < 2);
    let next = throwers.next_throw_remaining_ms;
    assert!((500..1500).contains(&next));
}

#[test]
fn dummy_spawner_respects_timer_pool_and_capacity() {
    let mut data = DummiesModeData::default();
    spawn_dummy_slots(&mut data.pool);
    assert_eq!(data.pool.positions.len(), 6);
    assert_eq!(data.pool.positions[0], v(4000, 0, 1000));
    // The spawn timer still runs: nothing spawns.
    assert!(data.spawn_dummies(100, ArenaMode::Sword).is_none());
    // Once it has run out, dummies spawn up to the capacity of four.
    let mut seen = Vec::new();
    for _ in 0..4 {
        let sd = data.spawn_dummies(5000, ArenaMode::Sword).expect("a free slot exists");
        assert!(sd.slot_index < 6);
        assert_eq!(sd.scope, ArenaMode::Sword);
        assert_eq!(sd.pos, data.pool.positions[sd.slot_index]);
        assert!(!seen.contains(&sd.slot_index));
        seen.push(sd.slot_index);
    }
    assert!(data.spawn_dummies(5000, ArenaMode::Sword).is_none());
    assert_eq!(data.pool.occupied_count, 4);
}

#[test]
fn expired_dummies_leave_the_field_in_order() {
    let mut dummies = vec![
        ActiveDummy { entity: 1, pos: v(0, 0, 0), slot_index: 0, despawn_remaining_ms: 3000 },
        ActiveDummy { entity: 2, pos: v(1, 0, 0), slot_index: 1, despawn_remaining_ms: 100 },
        ActiveDummy { entity: 3, pos: v(2, 0, 0), slot_index: 2, despawn_remaining_ms: 50 },
    ];
    let expired = despawn_dummies(&mut dummies, 100);
    assert_eq!(expired.len(), 2);
    assert_eq!(expired[0].entity, 2);
    assert_eq!(expired[1].entity, 3);
    assert_eq!(dummies.len(), 1);
    assert_eq!(dummies[0].despawn_remaining_ms, 2900);
}

#[test]
fn expired_dummies_cool_down_and_score_a_miss() {
    let mut data = DummiesModeData::default();
    spawn_dummy_slots(&mut data.pool);
    let sd = data.spawn_dummies(5000, ArenaMode::Sword).unwrap();
    let mut standing = vec![ActiveDummy {
        entity: 21,
        pos: sd.pos,
        slot_index: sd.slot_index,
        despawn_remaining_ms: 3000,
    }];
    let expired = despawn_dummies(&mut standing, 3000);
    assert_eq!(expired.len(), 1);
    let actions = arena_core::dummies::handle_expired_dummies(&mut data.pool, &expired);
    assert_eq!(actions.len(), 1);
    assert_eq!(actions[0].action, ScoreActionType::Bad);
    assert_eq!(actions[0].pos, sd.pos);
    // The slot is pending, not free: the cooldown applies to expiry too.
    assert!(data.pool.pending.iter().any(|p| p.index == sd.slot_index));
    assert!(!data.pool.free.contains(&sd.slot_index));
    assert_eq!(arena_core::dummies::free_dummy_slots(&mut data.pool, 2999).len(), 0);
    assert_eq!(
        arena_core::dummies::free_dummy_slots(&mut data.pool, 1),
        vec![sd.slot_index]
    );
}

#[test]
fn sliced_dummy_slot_cools_down_before_respawn() {
    let mut data = DummiesModeData::default();
    spawn_dummy_slots(&mut data.pool);
    let sd = data.spawn_dummies(5000, ArenaMode::Sword).unwrap();
    arena_core::dummies::queue_dummy_slot_free(&mut data.pool, sd.slot_index);
    // During the cooldown the slot is neither free nor occupied.
    assert_eq!(arena_core::dummies::free_dummy_slots(&mut data.pool, 2999).len(), 0);
    let freed = arena_core::dummies::free_dummy_slots(&mut data.pool, 1);
    assert_eq!(freed, vec![sd.slot_index]);
}

#[test]
fn thrower_ring_has_eight_positions() {
    let ring = arena_core::throwers::jug_thrower_positions();
    assert_eq!(ring.len(), 8);
    assert_eq!(ring[0], v(-12000, 0, 0));
    assert_eq!(ring[2], v(9000, 0, 9000));
    assert_eq!(ring[7], v(0, 0, -12000));
}

#[test]
fn unused_pool_is_untouched_by_ticks() {
    let mut pool = SlotPool::new(3);
    assert_eq!(pool.tick(1000).len(), 0);
    assert_eq!(pool.try_admit(), None);
}
