use arena_core::vec3::Vec3i;
use arena_core::slot_pool::{SlotPool, SlotState};

fn v(x: i64, y: i64, z: i64) -> Vec3i {
    Vec3i { x, y, z }
}

fn pool_with_slots(n: usize, capacity: usize) -> SlotPool {
    let mut pool = SlotPool::new(capacity);
    let mut i: i64 = 0;
    while (i as usize) < n {
        pool.register_slot(v(i, 0, 0));
        i += 1;
    }
    pool
}

fn occupied(pool: &SlotPool) -> usize {
    pool.state.iter().filter(|s| **s == SlotState::Occupied).count()
}

#[test]
fn admission_never_exceeds_capacity() {
    let mut pool = pool_with_slots(5, 2);
    let a = pool.try_admit().expect("first admission");
    let b = pool.try_admit().expect("second admission");
    assert_ne!(a, b);
    assert!(a < 5 && b < 5);
    // The capacity is reached: admission refuses although slots are free.
    assert_eq!(pool.try_admit(), None);
    assert_eq!(pool.occupied_count, 2);
    assert_eq!(occupied(&pool), 2);
    assert_eq!(pool.free.len(), 3);
}

#[test]
fn admission_refuses_without_free_slots() {
    let mut pool = pool_with_slots(1, 4);
    let a = pool.try_admit().expect("the only slot");
    assert_eq!(a, 0);
    assert_eq!(pool.try_admit(), None);
}

#[test]
fn every_slot_is_in_exactly_one_place() {
    let mut pool = pool_with_slots(3, 3);
    let a = pool.try_admit().unwrap();
    pool.queue_release(a, 1000);
    let b = pool.try_admit().unwrap();
    // One slot pending, one occupied, one free.
    assert_eq!(pool.free.len(), 1);
    assert_eq!(pool.pending.len(), 1);
    assert_eq!(pool.occupied_count, 1);
    for i in 0..3usize {
        let in_free = pool.free.contains(&i);
        let in_pending = pool.pending.iter().any(|p| p.index == i);
        let is_occupied = pool.state[i] == SlotState::Occupied;
        let places = [in_free, in_pending, is_occupied]
            .iter()
            .filter(|x| **x)
            .count();
        assert_eq!(places, 1, "slot {i} must be in exactly one place");
    }
    let _ = b;
}

#[test]
fn deferred_release_waits_for_the_cooldown() {
    let mut pool = pool_with_slots(1, 1);
    let a = pool.try_admit().unwrap();
    pool.queue_release(a, 3000);
    // Ticks summing to less than the cooldown do not free the slot.
    assert_eq!(pool.tick(1000), Vec::<usize>::new());
    assert_eq!(pool.tick(1999), Vec::<usize>::new());
    assert_eq!(pool.free.len(), 0);
    assert_eq!(pool.try_admit(), None);
    // The tick that reaches the cooldown frees it exactly once.
    assert_eq!(pool.tick(1), vec![a]);
    assert_eq!(pool.free, vec![a]);
    assert_eq!(pool.tick(1000), Vec::<usize>::new());
    assert_eq!(pool.free, vec![a]);
}

#[test]
fn one_tick_covering_the_whole_cooldown_frees_once() {
    let mut pool = pool_with_slots(2, 2);
    let a = pool.try_admit().unwrap();
    pool.queue_release(a, 500);
    assert_eq!(pool.tick(10000), vec![a]);
    assert_eq!(pool.pending.len(), 0);
}

#[test]
fn ticks_free_in_queue_order() {
    let mut pool = pool_with_slots(3, 3);
    let a = pool.try_admit().unwrap();
    let b = pool.try_admit().unwrap();
    pool.queue_release(a, 100);
    pool.queue_release(b, 100);
    assert_eq!(pool.tick(100), vec![a, b]);
}

#[test]
fn partition_and_capacity_hold_over_many_random_operations() {
    let mut pool = pool_with_slots(7, 3);
    let mut admitted: Vec<usize> = Vec::new();
    for step in 0..500u64 {
        match step % 4 {
            0 | 1 => {
                if let Some(idx) = pool.try_admit() {
                    admitted.push(idx);
                }
            }
            2 => {
                if let Some(idx) = admitted.pop() {
                    pool.queue_release(idx, 1 + step % 5);
                }
            }
            _ => {
                pool.tick(step % 3);
            }
        }
        // The partition invariant: every slot in exactly one place.
        assert!(occupied(&pool) <= 3);
        assert_eq!(occupied(&pool), pool.occupied_count);
        for i in 0..7usize {
            let in_free = pool.free.contains(&i);
            let in_pending = pool.pending.iter().any(|p| p.index == i);
            let is_occupied = pool.state[i] == SlotState::Occupied;
            let places = [in_free, in_pending, is_occupied]
                .iter()
                .filter(|x| **x)
                .count();
            assert_eq!(places, 1, "slot {i} must be in exactly one place at step {step}");
        }
    }
}

#[test]
fn a_freed_slot_can_cycle_again() {
    let mut pool = pool_with_slots(1, 1);
    let a = pool.try_admit().unwrap();
    pool.queue_release(a, 200);
    assert_eq!(pool.tick(200), vec![a]);
    let again = pool.try_admit().unwrap();
    assert_eq!(again, a);
}
