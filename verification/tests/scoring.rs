use arena_core::vec3::Vec3i;
use arena_core::arena::{ArenaMode, ImageKey};
use arena_core::cycle::{detect_game_over, setup_cycle, Cycle, NEXT_WEAPON_CYCLE_INTERVAL};
use arena_core::score::{
    setup_score, update_difficulty, Difficulty, Score, ScoreActionType,
};

#[test]
fn good_action_at_base_difficulty_scores_ten() {
    let (mut score, difficulty) = setup_score();
    assert_eq!(difficulty.difficulty_factor(), 1000);
    let delta = score.apply_action(ScoreActionType::Good, &difficulty);
    assert_eq!(delta, 10);
    assert_eq!(score.current, 10);
    // 10 beats the old highscore of 0.
    assert_eq!(score.highscore, 10);
}

#[test]
fn good_action_at_double_difficulty_scores_five() {
    let mut score = Score { highscore: 0, current: 0 };
    // 100 seconds of play reach the factor ceiling of 2.0.
    let difficulty = Difficulty { time_elapsed_ms: 100_000 };
    assert_eq!(difficulty.difficulty_factor(), 2000);
    let delta = score.apply_action(ScoreActionType::Good, &difficulty);
    assert_eq!(delta, 5);
    assert_eq!(score.current, 5);
}

#[test]
fn good_action_at_factor_one_and_a_half_rounds_up_to_seven() {
    let mut score = Score { highscore: 0, current: 0 };
    // 50 seconds of play put the factor at 1.5.
    let difficulty = Difficulty { time_elapsed_ms: 50_000 };
    assert_eq!(difficulty.difficulty_factor(), 1500);
    // 10 / 1.5 = 6.67 rounds to 7, not down to 6.
    let delta = score.apply_action(ScoreActionType::Good, &difficulty);
    assert_eq!(delta, 7);
    assert_eq!(score.current, 7);
}

#[test]
fn penalties_round_to_the_nearest_point_too() {
    let mut score = Score { highscore: 0, current: 0 };
    // Factor 1.25: -10 * 1.25 = -12.5 rounds away from zero to -13.
    let difficulty = Difficulty { time_elapsed_ms: 25_000 };
    assert_eq!(difficulty.difficulty_factor(), 1250);
    let delta = score.apply_action(ScoreActionType::Bad, &difficulty);
    assert_eq!(delta, -13);
    assert_eq!(score.current, -13);
}

#[test]
fn perfect_action_scores_fifteen_at_base_difficulty() {
    let (mut score, difficulty) = setup_score();
    let delta = score.apply_action(ScoreActionType::Perfect, &difficulty);
    assert_eq!(delta, 15);
    assert_eq!(score.current, 15);
    assert_eq!(score.highscore, 15);
}

#[test]
fn bad_action_at_double_difficulty_costs_twenty() {
    let mut score = Score { highscore: 0, current: 0 };
    let difficulty = Difficulty { time_elapsed_ms: 100_000 };
    let delta = score.apply_action(ScoreActionType::Bad, &difficulty);
    assert_eq!(delta, -20);
    assert_eq!(score.current, -20);
    assert_eq!(score.highscore, 0);
}

#[test]
fn bad_action_from_three_triggers_game_over() {
    let mut score = Score { highscore: 3, current: 3 };
    let difficulty = Difficulty { time_elapsed_ms: 0 };
    let delta = score.apply_action(ScoreActionType::Bad, &difficulty);
    assert_eq!(delta, -10);
    assert_eq!(score.current, -7);
    assert!(score.is_game_over());
    let mut cycle = setup_cycle();
    assert!(detect_game_over(&score, &mut cycle));
    assert_eq!(cycle.current_mode, ArenaMode::GameOver);
    assert!(cycle.timer_paused);
    // The terminal state has no further transitions: the cycle is frozen.
    let frozen = cycle;
    cycle.update_cycle(60_000);
    assert_eq!(cycle, frozen);
}

#[test]
fn positive_score_does_not_trigger_game_over() {
    let score = Score { highscore: 5, current: 5 };
    let mut cycle = setup_cycle();
    let before = cycle;
    assert!(!detect_game_over(&score, &mut cycle));
    assert_eq!(cycle, before);
}

#[test]
fn highscore_only_increases() {
    let mut score = Score { highscore: 50, current: 0 };
    let difficulty = Difficulty { time_elapsed_ms: 0 };
    score.apply_action(ScoreActionType::Good, &difficulty);
    assert_eq!(score.current, 10);
    assert_eq!(score.highscore, 50);
}

#[test]
fn difficulty_ramps_linearly_and_caps() {
    assert_eq!(Difficulty { time_elapsed_ms: 0 }.difficulty_factor(), 1000);
    // 0.01 per second: after 10 s the factor is 1.1.
    assert_eq!(Difficulty { time_elapsed_ms: 10_000 }.difficulty_factor(), 1100);
    assert_eq!(Difficulty { time_elapsed_ms: 50_000 }.difficulty_factor(), 1500);
    assert_eq!(Difficulty { time_elapsed_ms: 99_900 }.difficulty_factor(), 1999);
    assert_eq!(Difficulty { time_elapsed_ms: 100_000 }.difficulty_factor(), 2000);
    // Beyond the cap nothing grows.
    assert_eq!(Difficulty { time_elapsed_ms: 500_000 }.difficulty_factor(), 2000);
    assert_eq!(Difficulty { time_elapsed_ms: 30_000 }.difficulty_factor_0_1(), 300);
}

#[test]
fn difficulty_is_monotone_over_sampled_times() {
    let mut last = 0;
    let mut t: u64 = 0;
    while t <= 200_000 {
        let f = Difficulty { time_elapsed_ms: t }.difficulty_factor();
        assert!(f >= last);
        assert!(f <= 2000);
        last = f;
        t += 7_321;
    }
}

#[test]
fn difficulty_freezes_in_game_over() {
    let mut difficulty = Difficulty { time_elapsed_ms: 1000 };
    update_difficulty(&mut difficulty, ArenaMode::Sword, 500);
    assert_eq!(difficulty.time_elapsed_ms, 1500);
    update_difficulty(&mut difficulty, ArenaMode::GameOver, 500);
    assert_eq!(difficulty.time_elapsed_ms, 1500);
}

#[test]
fn action_labels_and_bases() {
    assert_eq!(ScoreActionType::Bad.to_properties(), (-10, "Miss"));
    assert_eq!(ScoreActionType::Good.to_properties(), (10, "Good"));
    assert_eq!(ScoreActionType::Perfect.to_properties(), (15, "Perfect"));
}

#[test]
fn cycle_switches_to_the_queued_mode() {
    let mut cycle = setup_cycle();
    assert_ne!(cycle.current_mode, cycle.next_mode);
    assert_eq!(cycle.timer_remaining_ms, NEXT_WEAPON_CYCLE_INTERVAL);
    let queued = cycle.next_mode;
    cycle.update_cycle(NEXT_WEAPON_CYCLE_INTERVAL);
    assert_eq!(cycle.current_mode, queued);
    assert_ne!(cycle.next_mode, queued);
    assert_eq!(cycle.timer_remaining_ms, NEXT_WEAPON_CYCLE_INTERVAL);
}

#[test]
fn cycle_counts_down_between_switches() {
    let mut cycle = setup_cycle();
    let mode = cycle.current_mode;
    cycle.update_cycle(1000);
    assert_eq!(cycle.current_mode, mode);
    assert_eq!(cycle.timer_remaining_ms, NEXT_WEAPON_CYCLE_INTERVAL - 1000);
}

#[test]
fn mode_icons() {
    assert_eq!(ArenaMode::Sword.to_image_key(), ImageKey::Sword);
    assert_eq!(ArenaMode::Shield.to_image_key(), ImageKey::Shield);
    assert_eq!(ArenaMode::Inactive.to_image_key(), ImageKey::Sword);
    assert_eq!(ArenaMode::GameOver.to_image_key(), ImageKey::Sword);
}

#[test]
fn slicing_a_dummy_scores_good_and_nothing_else_scores() {
    let pos = Vec3i { x: 1, y: 2, z: 3 };
    let action = arena_core::score::update_score(true, pos).expect("dummies score");
    assert_eq!(action.action, ScoreActionType::Good);
    assert_eq!(action.pos, pos);
    assert!(arena_core::score::update_score(false, pos).is_none());
}

#[test]
fn next_mode_is_always_a_different_playable_mode() {
    for mode in [ArenaMode::Sword, ArenaMode::Shield, ArenaMode::Inactive, ArenaMode::GameOver] {
        for _ in 0..20 {
            let next = arena_core::cycle::get_random_different_mode(&mode);
            assert_ne!(next, mode);
            assert!(next == ArenaMode::Sword || next == ArenaMode::Shield);
        }
    }
}

#[test]
fn current_may_go_deeply_negative_without_breaking() {
    let mut score = Score { highscore: 0, current: i32::MIN + 5 };
    let difficulty = Difficulty { time_elapsed_ms: 100_000 };
    let delta = score.apply_action(ScoreActionType::Bad, &difficulty);
    assert_eq!(delta, -20);
    // The current score saturates instead of wrapping.
    assert_eq!(score.current, i32::MIN);
    let _ = Vec3i { x: 0, y: 0, z: 0 };
}
