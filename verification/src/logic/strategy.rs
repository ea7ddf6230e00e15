//! Which base to attack, and with how many troops from each base.

use vstd::prelude::*;
use crate::logic::attrition::{survivors, survivors_spec};
use crate::logic::classify::{filter_bases, hostile_bases, neutral_bases, owned_bases};
use crate::models::base::{level_is_known, Base};
use crate::models::base_level::BaseLevel;
use crate::models::board_action::BoardAction;
use crate::models::game_config::GameConfig;
use crate::models::game_state::GameState;
use crate::models::player_action::PlayerAction;

verus! {

/// The level of each of `bases` is an index into `levels`.
pub open spec fn levels_are_known(bases: Seq<Base>, levels: Seq<BaseLevel>) -> bool {
    forall|i: int| 0 <= i < bases.len() ==> level_is_known(#[trigger] bases[i], levels)
}

/// The troops that would arrive at `target` if every base of `owned` attacked
/// it: the sum of what arrives from each, negative results included.
pub open spec fn sum_survivors(owned: Seq<Base>, target: Base, config: GameConfig) -> int
    decreases owned.len(),
{
    if owned.len() == 0 {
        0
    } else {
        sum_survivors(owned.drop_last(), target, config) + survivors_spec(
            owned.last(),
            target,
            config,
        )
    }
}

/// `x` where it is positive, and 0 elsewhere.
pub open spec fn positive_part(x: int) -> int {
    if x > 0 {
        x
    } else {
        0
    }
}

/// `candidates[k]` is the base to attack: its sum of survivors is positive,
/// no candidate has a greater one, and every candidate before it has a
/// smaller one.
pub open spec fn is_best_target(
    candidates: Seq<Base>,
    owned: Seq<Base>,
    config: GameConfig,
    k: int,
) -> bool {
    &&& 0 <= k < candidates.len()
    &&& sum_survivors(owned, candidates[k], config) > 0
    &&& forall|j: int|
        0 <= j < candidates.len() ==> sum_survivors(owned, #[trigger] candidates[j], config)
            <= sum_survivors(owned, candidates[k], config)
    &&& forall|j: int|
        0 <= j < k ==> sum_survivors(owned, #[trigger] candidates[j], config) < sum_survivors(
            owned,
            candidates[k],
            config,
        )
}

/// No candidate has a positive sum of survivors.
pub open spec fn no_target_pays(candidates: Seq<Base>, owned: Seq<Base>, config: GameConfig) -> bool {
    forall|j: int|
        0 <= j < candidates.len() ==> sum_survivors(owned, #[trigger] candidates[j], config) <= 0
}

/// The base to attack: the first of the candidates with the greatest sum of
/// survivors, if that sum is positive; none otherwise.
pub open spec fn best_target_spec(
    candidates: Seq<Base>,
    owned: Seq<Base>,
    config: GameConfig,
) -> Option<Base> {
    if exists|k: int| is_best_target(candidates, owned, config, k) {
        Some(candidates[choose|k: int| is_best_target(candidates, owned, config, k)])
    } else {
        None
    }
}

/// The order that `src` gets against `target`: all that would arrive, if
/// that is positive; none otherwise.
pub open spec fn order_from(target: Base, config: GameConfig) -> spec_fn(Base) -> Option<
    PlayerAction,
> {
    |src: Base|
        {
            let arriving = survivors_spec(src, target, config);
            if arriving > 0 {
                Some(PlayerAction { src: src.uid, dest: target.uid, amount: arriving as u32 })
            } else {
                None
            }
        }
}

/// The orders against `target`: one from each base of `owned` that has one,
/// in the order of `owned`; none where there is no target.
pub open spec fn orders_spec(target: Option<Base>, owned: Seq<Base>, config: GameConfig) -> Seq<
    PlayerAction,
> {
    match target {
        Some(t) => owned.filter_map(order_from(t, config)),
        None => Seq::empty(),
    }
}

/// The bases that `player` may attack: first those of other players, then
/// those that nobody holds.
pub open spec fn candidate_targets(bases: Seq<Base>, player: u32) -> Seq<Base> {
    hostile_bases(bases, player) + neutral_bases(bases, player)
}

/// The orders of a turn: the bases of the acting player attack the best
/// target among the bases that are not its own.
pub open spec fn decide_spec(game_state: GameState) -> Seq<PlayerAction> {
    let owned = owned_bases(game_state.bases@, game_state.game.player);
    let candidates = candidate_targets(game_state.bases@, game_state.game.player);
    orders_spec(best_target_spec(candidates, owned, game_state.config), owned, game_state.config)
}

/// At most one candidate is the base to attack.
pub proof fn lemma_best_target_unique(
    candidates: Seq<Base>,
    owned: Seq<Base>,
    config: GameConfig,
    k1: int,
    k2: int,
)
    requires
        is_best_target(candidates, owned, config, k1),
        is_best_target(candidates, owned, config, k2),
    ensures
        k1 == k2,
{
    if k1 < k2 {
        assert(sum_survivors(owned, candidates[k1], config) < sum_survivors(
            owned,
            candidates[k2],
            config,
        ));
    } else if k2 < k1 {
        assert(sum_survivors(owned, candidates[k2], config) < sum_survivors(
            owned,
            candidates[k1],
            config,
        ));
    }
}

/// There is a base to attack if and only if some candidate has a positive sum
/// of survivors.
pub proof fn lemma_no_target_stability(candidates: Seq<Base>, owned: Seq<Base>, config: GameConfig)
    ensures
        no_target_pays(candidates, owned, config) ==> best_target_spec(candidates, owned, config)
            is None,
        no_target_pays(candidates, owned, config) ==> orders_spec(
            best_target_spec(candidates, owned, config),
            owned,
            config,
        ).len() == 0,
{
    if no_target_pays(candidates, owned, config) {
        if exists|k: int| is_best_target(candidates, owned, config, k) {
            let k = choose|k: int| is_best_target(candidates, owned, config, k);
            assert(sum_survivors(owned, candidates[k], config) <= 0);
        }
    }
}

/// Every order sends a positive number of troops, from one of the bases of
/// `owned` to the target.
pub proof fn lemma_orders_positive(target: Option<Base>, owned: Seq<Base>, config: GameConfig)
    ensures
        forall|i: int|
            0 <= i < orders_spec(target, owned, config).len() ==> (#[trigger] orders_spec(
                target,
                owned,
                config,
            )[i]).amount > 0,
        forall|i: int|
            0 <= i < orders_spec(target, owned, config).len() ==> target is Some
                && (#[trigger] orders_spec(target, owned, config)[i]).dest == target.unwrap().uid,
        orders_spec(target, owned, config).len() <= owned.len(),
    decreases owned.len(),
{
    match target {
        Some(t) => {
            if owned.len() > 0 {
                lemma_orders_positive(target, owned.drop_last(), config);
                let arriving = survivors_spec(owned.last(), t, config);
                assert(arriving <= 0xFFFF_FFFF);
            }
        },
        None => {},
    }
}

/// The troops that would arrive at `target_base` if every base of
/// `our_bases` attacked it, or 0 where that sum is not positive.
///
/// The sum itself may lie below any machine integer, so the troops that set
/// out and those that are missing are added up apart, the latter up to the
/// largest value that can be held: beyond it the sum is negative in any case.
pub fn sum_of_survivors(
    target_base: &Base,
    other_bases: &[Base],
    our_bases: &[Base],
    actions: &[BoardAction],
    remaining_players: u32,
    config: &GameConfig,
) -> (total: u128)
    requires
        levels_are_known(our_bases@, config.base_levels@),
    ensures
        total == positive_part(sum_survivors(our_bases@, *target_base, *config)),
{
    let mut gained: u128 = 0;
    let mut missing: u128 = 0;
    let mut i: usize = 0;
    while i < our_bases.len()
        invariant
            i <= our_bases.len(),
            levels_are_known(our_bases@, config.base_levels@),
            gained <= i * 0xFFFF_FFFF,
            gained - sum_survivors(our_bases@.take(i as int), *target_base, *config) >= 0,
            missing == if gained - sum_survivors(our_bases@.take(i as int), *target_base, *config)
                > u128::MAX {
                u128::MAX as int
            } else {
                gained - sum_survivors(our_bases@.take(i as int), *target_base, *config)
            },
        decreases our_bases.len() - i,
    {
        proof {
            assert(our_bases@.take(i + 1).drop_last() =~= our_bases@.take(i as int));
        }
        let arriving: i128 = survivors(
            &our_bases[i],
            target_base,
            other_bases,
            actions,
            remaining_players,
            config,
        );
        if arriving > 0 {
            gained = gained + arriving as u128;
        } else {
            missing = missing.saturating_add((-arriving) as u128);
        }
        i = i + 1;
    }
    proof {
        assert(our_bases@.take(i as int) =~= our_bases@);
    }
    if gained > missing {
        gained - missing
    } else {
        0
    }
}

/// The base to attack: the first of `other_bases` with the greatest sum of
/// survivors over `our_bases`, if that sum is positive. A later base with
/// the same sum does not take its place. Where no base of `other_bases` has a
/// positive sum, there is none.
pub fn best_target_base(
    other_bases: &[Base],
    our_bases: &[Base],
    actions: &[BoardAction],
    remaining_players: u32,
    config: &GameConfig,
) -> (target: Option<Base>)
    requires
        levels_are_known(our_bases@, config.base_levels@),
    ensures
        target == best_target_spec(other_bases@, our_bases@, *config),
        target is None <==> no_target_pays(other_bases@, our_bases@, *config),
        target is Some ==> exists|k: int|
            is_best_target(other_bases@, our_bases@, *config, k) && target == Some(
                other_bases@[k],
            ),
{
    let mut best_target_base: Option<Base> = None;
    let mut most_survivors: u128 = 0;
    let ghost mut best: int = 0;
    let mut i: usize = 0;
    while i < other_bases.len()
        invariant
            i <= other_bases.len(),
            levels_are_known(our_bases@, config.base_levels@),
            forall|j: int|
                0 <= j < i ==> sum_survivors(our_bases@, #[trigger] other_bases@[j], *config)
                    <= most_survivors,
            most_survivors == 0 ==> best_target_base is None,
            most_survivors > 0 ==> {
                &&& 0 <= best < i
                &&& best_target_base == Some(other_bases@[best])
                &&& sum_survivors(our_bases@, other_bases@[best], *config) == most_survivors
                &&& forall|j: int|
                    0 <= j < best ==> sum_survivors(our_bases@, #[trigger] other_bases@[j], *config)
                        < most_survivors
            },
        decreases other_bases.len() - i,
    {
        let sum_survivors: u128 = sum_of_survivors(
            &other_bases[i],
            other_bases,
            our_bases,
            actions,
            remaining_players,
            config,
        );
        if sum_survivors > most_survivors {
            most_survivors = sum_survivors;
            best_target_base = Some(other_bases[i]);
            proof {
                best = i as int;
            }
        }
        i = i + 1;
    }
    proof {
        if most_survivors > 0 {
            assert(is_best_target(other_bases@, our_bases@, *config, best));
            let k = choose|k: int| is_best_target(other_bases@, our_bases@, *config, k);
            lemma_best_target_unique(other_bases@, our_bases@, *config, k, best);
        } else {
            lemma_no_target_stability(other_bases@, our_bases@, *config);
        }
    }
    best_target_base
}

/// The orders against `target_base`: each base of `our_bases` from which a
/// positive number of troops would arrive sends exactly that number. The
/// orders stand in the order of `our_bases`.
pub fn orders_against(
    target_base: &Base,
    other_bases: &[Base],
    our_bases: &[Base],
    actions: &[BoardAction],
    remaining_players: u32,
    config: &GameConfig,
) -> (attack_list: Vec<PlayerAction>)
    requires
        levels_are_known(our_bases@, config.base_levels@),
    ensures
        attack_list@ == orders_spec(Some(*target_base), our_bases@, *config),
{
    let mut attack_list: Vec<PlayerAction> = Vec::new();
    let mut i: usize = 0;
    proof {
        assert(our_bases@.take(0).len() == 0);
    }
    while i < our_bases.len()
        invariant
            i <= our_bases.len(),
            levels_are_known(our_bases@, config.base_levels@),
            attack_list@ == our_bases@.take(i as int).filter_map(order_from(*target_base, *config)),
        decreases our_bases.len() - i,
    {
        let src_base: &Base = &our_bases[i];
        let arriving: i128 = survivors(
            src_base,
            target_base,
            other_bases,
            actions,
            remaining_players,
            config,
        );
        proof {
            our_bases@.lemma_filter_map_take_succ(order_from(*target_base, *config), i as int);
        }
        if arriving > 0 {
            attack_list.push(
                PlayerAction { src: src_base.uid, dest: target_base.uid, amount: arriving as u32 },
            );
        }
        i = i + 1;
    }
    proof {
        assert(our_bases@.take(i as int) =~= our_bases@);
    }
    attack_list
}

/// The orders of `our_bases` against the best target among `other_bases`;
/// none where no target has a positive sum of survivors.
pub fn attack(
    other_bases: &[Base],
    our_bases: &[Base],
    actions: &[BoardAction],
    remaining_players: u32,
    config: &GameConfig,
) -> (attack_list: Vec<PlayerAction>)
    requires
        levels_are_known(our_bases@, config.base_levels@),
    ensures
        attack_list@ == orders_spec(
            best_target_spec(other_bases@, our_bases@, *config),
            our_bases@,
            *config,
        ),
        no_target_pays(other_bases@, our_bases@, *config) ==> attack_list@.len() == 0,
        forall|i: int| 0 <= i < attack_list@.len() ==> (#[trigger] attack_list@[i]).amount > 0,
{
    proof {
        lemma_orders_positive(
            best_target_spec(other_bases@, our_bases@, *config),
            our_bases@,
            *config,
        );
    }
    match best_target_base(other_bases, our_bases, actions, remaining_players, config) {
        Some(target_base) => orders_against(
            &target_base,
            other_bases,
            our_bases,
            actions,
            remaining_players,
            config,
        ),
        None => Vec::new(),
    }
}

/// The orders of a turn. The bases of the acting player attack one target:
/// the first base, among those of other players followed by those that nobody
/// holds, with the greatest sum of survivors. Each base from which a positive
/// number of troops would arrive sends that number. Where no target has a
/// positive sum, and so where the player has no base, there are no orders.
pub fn decide(game_state: GameState) -> (orders: Vec<PlayerAction>)
    requires
        game_state.well_formed(),
    ensures
        orders@ == decide_spec(game_state),
        no_target_pays(
            candidate_targets(game_state.bases@, game_state.game.player),
            owned_bases(game_state.bases@, game_state.game.player),
            game_state.config,
        ) ==> orders@.len() == 0,
        owned_bases(game_state.bases@, game_state.game.player).len() == 0 ==> orders@.len() == 0,
        forall|i: int| 0 <= i < orders@.len() ==> (#[trigger] orders@[i]).amount > 0,
{
    let our_player: u32 = game_state.game.player;
    let (our_bases, other_bases, mut empty_bases) = filter_bases(
        game_state.bases.as_slice(),
        our_player,
    );
    let mut targets: Vec<Base> = other_bases;
    targets.append(&mut empty_bases);
    proof {
        assert(targets@ =~= candidate_targets(game_state.bases@, our_player));
        assert forall|i: int| 0 <= i < our_bases@.len() implies level_is_known(
            #[trigger] our_bases@[i],
            game_state.config.base_levels@,
        ) by {
            assert(our_bases@.contains(our_bases@[i]));
        }
        lemma_orders_positive(
            best_target_spec(targets@, our_bases@, game_state.config),
            our_bases@,
            game_state.config,
        );
    }
    attack(
        targets.as_slice(),
        our_bases.as_slice(),
        game_state.actions.as_slice(),
        game_state.game.remaining_players,
        &game_state.config,
    )
}

} // verus!
