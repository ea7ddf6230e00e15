use conquest_strategy::logic::classify::filter_bases;
use conquest_strategy::logic::strategy::{
    attack, best_target_base, decide, orders_against, sum_of_survivors,
};
use conquest_strategy::models::base::Base;
use conquest_strategy::models::base_level::BaseLevel;
use conquest_strategy::models::board_action::BoardAction;
use conquest_strategy::models::game::Game;
use conquest_strategy::models::game_config::GameConfig;
use conquest_strategy::models::game_state::GameState;
use conquest_strategy::models::path_config::PathConfig;
use conquest_strategy::models::player_action::PlayerAction;
use conquest_strategy::models::position::Position;
use conquest_strategy::models::progress::Progress;

fn base_at(uid: u32, player: u32, population: u32, x: i32, y: i32, z: i32) -> Base {
    Base {
        position: Position { x, y, z },
        uid,
        player,
        population,
        level: 0,
    }
}

fn config_with(grace_period: u32, death_rate: u32) -> GameConfig {
    GameConfig {
        base_levels: vec![BaseLevel { spawn_rate: 1 }],
        paths: PathConfig { grace_period, death_rate },
    }
}

fn state_of(player: u32, bases: Vec<Base>, config: GameConfig) -> GameState {
    GameState {
        actions: Vec::new(),
        bases,
        config,
        game: Game { remaining_players: 3, player },
    }
}

fn uids(bases: &[Base]) -> Vec<u32> {
    bases.iter().map(|b| b.uid).collect()
}

#[test]
fn decide_test() {
    let want: Vec<PlayerAction> = Vec::new();

    let result = decide(GameState::default());

    assert!(want == result)
}

#[test]
fn a_state_without_bases_gives_no_default_order() {
    let result = decide(GameState::default());
    assert_ne!(result, vec![PlayerAction::default()]);
    assert!(result.is_empty());
}

#[test]
fn one_base_attacks_a_neutral_base_within_the_grace_period() {
    let owned = base_at(11, 1, 20, 0, 0, 0);
    let neutral = base_at(22, 0, 3, 3, 4, 0);
    let result = decide(state_of(1, vec![owned, neutral], config_with(10, 1)));
    assert_eq!(result, vec![PlayerAction { src: 11, dest: 22, amount: 15 }]);
}

#[test]
fn one_base_stays_when_the_way_kills_all() {
    let owned = base_at(11, 1, 20, 0, 0, 0);
    let neutral = base_at(22, 0, 3, 12, 16, 0);
    let result = decide(state_of(1, vec![owned, neutral], config_with(10, 2)));
    assert_eq!(result, Vec::new());
}

#[test]
fn no_owned_base_gives_no_order() {
    let bases = vec![base_at(1, 2, 50, 0, 0, 0), base_at(2, 0, 3, 1, 1, 1), base_at(3, 3, 9, 2, 2, 2)];
    assert_eq!(decide(state_of(1, bases, config_with(10, 1))), Vec::new());
}

#[test]
fn no_owned_base_gives_no_order_even_without_levels() {
    let config = GameConfig {
        base_levels: Vec::new(),
        paths: PathConfig { grace_period: 0, death_rate: 0 },
    };
    let state = state_of(1, Vec::new(), config);
    assert!(state.is_well_formed());
    assert_eq!(decide(state), Vec::new());
}

#[test]
fn only_owned_bases_give_no_order() {
    let bases = vec![base_at(1, 1, 50, 0, 0, 0), base_at(2, 1, 30, 1, 1, 1)];
    assert_eq!(decide(state_of(1, bases, config_with(10, 1))), Vec::new());
}

#[test]
fn classification_keeps_the_order_and_loses_no_base() {
    let bases = vec![
        base_at(1, 2, 0, 0, 0, 0),
        base_at(2, 1, 0, 0, 0, 0),
        base_at(3, 0, 0, 0, 0, 0),
        base_at(4, 1, 0, 0, 0, 0),
        base_at(5, 3, 0, 0, 0, 0),
        base_at(6, 0, 0, 0, 0, 0),
        base_at(7, 2, 0, 0, 0, 0),
    ];
    let (owned, hostile, neutral) = filter_bases(&bases, 1);
    assert_eq!(uids(&owned), vec![2, 4]);
    assert_eq!(uids(&hostile), vec![1, 5, 7]);
    assert_eq!(uids(&neutral), vec![3, 6]);
    assert_eq!(owned.len() + hostile.len() + neutral.len(), bases.len());
    for b in &owned {
        assert!(!hostile.contains(b) && !neutral.contains(b));
    }
    for b in &hostile {
        assert!(!neutral.contains(b));
    }
}

#[test]
fn classification_of_no_bases() {
    let (owned, hostile, neutral) = filter_bases(&[], 1);
    assert!(owned.is_empty() && hostile.is_empty() && neutral.is_empty());
}

#[test]
fn classification_for_player_zero_counts_unclaimed_bases_as_owned() {
    let bases = vec![base_at(1, 0, 0, 0, 0, 0), base_at(2, 1, 0, 0, 0, 0)];
    let (owned, hostile, neutral) = filter_bases(&bases, 0);
    assert_eq!(uids(&owned), vec![1]);
    assert_eq!(uids(&hostile), vec![2]);
    assert!(neutral.is_empty());
}

#[test]
fn sum_of_survivors_adds_up_over_the_owned_bases() {
    let owned = vec![base_at(1, 1, 20, 0, 0, 0), base_at(2, 1, 30, 0, 0, 5)];
    let target = base_at(3, 2, 0, 0, 0, 20);
    // 15 - (20 - 10) and 25 - (15 - 10)
    assert_eq!(sum_of_survivors(&target, &[], &owned, &[], 2, &config_with(10, 1)), 25);
}

#[test]
fn sum_of_survivors_counts_negative_parts() {
    let owned = vec![base_at(1, 1, 20, 0, 0, 0), base_at(2, 1, 8, 0, 0, 0)];
    let target = base_at(3, 2, 0, 0, 0, 20);
    // 15 - 10 and 3 - 10
    assert_eq!(sum_of_survivors(&target, &[], &owned, &[], 2, &config_with(10, 1)), 0);
    // 15 - 6 and 3 - 6
    assert_eq!(sum_of_survivors(&target, &[], &owned, &[], 2, &config_with(14, 1)), 6);
}

#[test]
fn sum_of_survivors_is_zero_where_the_sum_is_negative() {
    let owned = vec![base_at(1, 1, 20, 0, 0, 0), base_at(2, 1, 8, 0, 0, 0)];
    let target = base_at(3, 2, 0, 0, 0, 1000);
    assert_eq!(sum_of_survivors(&target, &[], &owned, &[], 2, &config_with(10, 1)), 0);
    assert_eq!(sum_of_survivors(&target, &[], &[], &[], 2, &config_with(10, 1)), 0);
}

#[test]
fn sum_of_survivors_with_huge_losses() {
    let far = base_at(1, 1, 20, i32::MIN, i32::MIN, i32::MIN);
    let near = base_at(2, 1, u32::MAX, i32::MAX, i32::MAX, i32::MAX);
    let target = base_at(3, 2, 0, i32::MAX, i32::MAX, i32::MAX);
    let config = config_with(0, u32::MAX);
    assert_eq!(sum_of_survivors(&target, &[], &[near], &[], 2, &config), 4_294_967_290);
    assert_eq!(sum_of_survivors(&target, &[], &[near, far], &[], 2, &config), 0);
    assert_eq!(sum_of_survivors(&target, &[], &[far, near], &[], 2, &config), 0);
}

#[test]
fn the_target_with_the_greatest_sum_is_chosen() {
    let owned = vec![base_at(1, 1, 20, 0, 0, 0)];
    let candidates = vec![
        base_at(2, 2, 0, 0, 0, 14),
        base_at(3, 2, 0, 0, 0, 11),
        base_at(4, 2, 0, 0, 0, 12),
    ];
    let target = best_target_base(&candidates, &owned, &[], 2, &config_with(10, 1));
    assert_eq!(target, Some(candidates[1]));
}

#[test]
fn the_first_of_equal_targets_is_chosen() {
    let owned = vec![base_at(1, 1, 20, 0, 0, 0)];
    let candidates = vec![
        base_at(2, 2, 0, 0, 0, 14),
        base_at(3, 2, 0, 0, 12, 0),
        base_at(4, 0, 0, 12, 0, 0),
        base_at(5, 2, 0, 0, 0, 12),
    ];
    let target = best_target_base(&candidates, &owned, &[], 2, &config_with(10, 1));
    assert_eq!(target.map(|b| b.uid), Some(3));
}

#[test]
fn no_target_where_no_sum_is_positive() {
    let owned = vec![base_at(1, 1, 20, 0, 0, 0)];
    let candidates = vec![base_at(2, 2, 0, 0, 0, 25), base_at(3, 2, 0, 0, 0, 30)];
    // 15 - 15 = 0 and 15 - 20 = -5
    assert_eq!(best_target_base(&candidates, &owned, &[], 2, &config_with(10, 1)), None);
    assert_eq!(attack(&candidates, &owned, &[], 2, &config_with(10, 1)), Vec::new());
    assert_eq!(best_target_base(&[], &owned, &[], 2, &config_with(10, 1)), None);
    assert_eq!(best_target_base(&candidates, &[], &[], 2, &config_with(10, 1)), None);
}

#[test]
fn orders_come_in_the_order_of_the_owned_bases_and_are_positive() {
    let owned = vec![
        base_at(1, 1, 20, 0, 0, 0),
        base_at(2, 1, 5, 0, 0, 0),
        base_at(3, 1, 9, 0, 0, 8),
        base_at(4, 1, 12, 0, 0, -7),
        base_at(5, 1, 100, 0, 0, 3),
    ];
    let target = base_at(9, 2, 50, 0, 0, 10);
    let orders = orders_against(&target, &[], &owned, &[], 2, &config_with(10, 1));
    assert_eq!(
        orders,
        vec![
            PlayerAction { src: 1, dest: 9, amount: 15 },
            PlayerAction { src: 3, dest: 9, amount: 4 },
            PlayerAction { src: 5, dest: 9, amount: 95 },
        ]
    );
    assert!(orders.iter().all(|order| order.amount > 0));
}

#[test]
fn a_base_with_nothing_to_send_gets_no_order() {
    let owned = vec![base_at(1, 1, 5, 0, 0, 0), base_at(2, 1, 6, 0, 0, 0)];
    let target = base_at(9, 2, 50, 0, 0, 1);
    let orders = orders_against(&target, &[], &owned, &[], 2, &config_with(10, 1));
    assert_eq!(orders, vec![PlayerAction { src: 2, dest: 9, amount: 1 }]);
}

#[test]
fn attack_sends_every_base_with_survivors_to_one_target() {
    let owned = vec![base_at(1, 1, 20, 0, 0, 0), base_at(2, 1, 30, 0, 0, 40)];
    let candidates = vec![base_at(3, 2, 0, 0, 0, 20), base_at(4, 0, 0, 0, 0, 42)];
    // to 3: 15 - 10 and 25 - 10, sum 20; to 4: 15 - 32 and 25 - 0, sum 8
    let orders = attack(&candidates, &owned, &[], 2, &config_with(10, 1));
    assert_eq!(
        orders,
        vec![
            PlayerAction { src: 1, dest: 3, amount: 5 },
            PlayerAction { src: 2, dest: 3, amount: 15 },
        ]
    );
}

#[test]
fn a_target_may_be_chosen_though_one_base_cannot_reach_it() {
    let owned = vec![base_at(1, 1, 20, 0, 0, 0), base_at(2, 1, 100, 0, 0, 40)];
    let candidates = vec![base_at(3, 2, 0, 0, 0, 20), base_at(4, 0, 0, 0, 0, 42)];
    // to 3: 5 and 85, sum 90; to 4: -17 and 95, sum 78
    let orders = attack(&candidates[1..], &owned, &[], 2, &config_with(10, 1));
    assert_eq!(orders, vec![PlayerAction { src: 2, dest: 4, amount: 95 }]);
}

#[test]
fn hostile_bases_come_before_neutral_ones_among_equal_targets() {
    let bases = vec![
        base_at(1, 0, 0, 0, 0, 12),
        base_at(2, 1, 20, 0, 0, 0),
        base_at(3, 2, 0, 0, 12, 0),
    ];
    let orders = decide(state_of(1, bases, config_with(10, 1)));
    assert_eq!(orders, vec![PlayerAction { src: 2, dest: 3, amount: 13 }]);
}

#[test]
fn decide_with_several_bases() {
    let bases = vec![
        base_at(1, 1, 20, 0, 0, 0),
        base_at(2, 2, 7, 0, 0, 20),
        base_at(3, 0, 1, 0, 0, 42),
        base_at(4, 1, 30, 0, 0, 40),
        base_at(5, 3, 3, 100, 100, 100),
    ];
    let orders = decide(state_of(1, bases, config_with(10, 1)));
    assert_eq!(
        orders,
        vec![
            PlayerAction { src: 1, dest: 2, amount: 5 },
            PlayerAction { src: 4, dest: 2, amount: 15 },
        ]
    );
}

#[test]
fn decide_ignores_the_orders_under_way() {
    let bases = vec![base_at(11, 1, 20, 0, 0, 0), base_at(22, 0, 3, 3, 4, 0)];
    let mut state = state_of(1, bases, config_with(10, 1));
    state.actions = vec![BoardAction {
        src: 5,
        dest: 11,
        amount: 1_000_000,
        progress: Progress { distance: 9, traveled: 8 },
    }];
    assert_eq!(decide(state), vec![PlayerAction { src: 11, dest: 22, amount: 15 }]);
}

#[test]
fn every_order_of_a_turn_is_positive() {
    for death_rate in 0..6u32 {
        for grace_period in [0u32, 3, 10, 50] {
            let bases = vec![
                base_at(1, 1, 20, 0, 0, 0),
                base_at(2, 1, 5, 3, 3, 3),
                base_at(3, 2, 7, 0, 0, 20),
                base_at(4, 0, 1, 9, 9, 9),
                base_at(5, 1, 6, 0, 0, 40),
            ];
            let orders = decide(state_of(1, bases, config_with(grace_period, death_rate)));
            assert!(orders.iter().all(|order| order.amount > 0));
            assert!(orders.len() <= 3);
        }
    }
}

#[test]
fn a_level_outside_the_table_is_found() {
    let mut bases = vec![base_at(1, 1, 20, 0, 0, 0), base_at(2, 0, 3, 3, 4, 0)];
    assert!(state_of(1, bases.clone(), config_with(10, 1)).is_well_formed());
    bases[1].level = 1;
    assert!(!state_of(1, bases.clone(), config_with(10, 1)).is_well_formed());
    bases[1].level = u32::MAX;
    assert!(!state_of(1, bases, config_with(10, 1)).is_well_formed());
    assert!(GameState::default().is_well_formed());
}
