//! How many troops a base can send, and how many of them arrive.

use vstd::prelude::*;
use crate::logic::geometry::{distance, get_base_distance};
use crate::models::base::{level_is_known, Base};
use crate::models::base_level::BaseLevel;
use crate::models::board_action::BoardAction;
use crate::models::game_config::GameConfig;

verus! {

/// The garrison that every base keeps back when it attacks.
pub const MIN_DEFENDERS: u32 = 5;

/// The troops that a base of the given population can send: what exceeds the
/// garrison, and nothing where the population does not exceed it.
pub open spec fn available_force(population: u32) -> int {
    if population > MIN_DEFENDERS {
        population - MIN_DEFENDERS
    } else {
        0
    }
}

/// The troops that die on a journey of length `dist`: `death_rate` for each
/// unit of distance beyond `grace_period`.
pub open spec fn travel_deaths(dist: int, grace_period: int, death_rate: int) -> int {
    let raw = (dist - grace_period) * death_rate;
    if raw > 0 {
        raw
    } else {
        0
    }
}

/// The troops that die on the way from `src` to `dest`.
pub open spec fn deaths_between(src: Base, dest: Base, config: GameConfig) -> int {
    travel_deaths(
        distance(src.position, dest.position),
        config.paths.grace_period as int,
        config.paths.death_rate as int,
    )
}

/// The troops that would arrive at `dest` if `src` attacked it. A value that
/// is not positive means that `src` should not attack.
pub open spec fn survivors_spec(src: Base, dest: Base, config: GameConfig) -> int {
    available_force(src.population) - deaths_between(src, dest, config)
}

/// The troops of all orders in `actions` that are under way to the base
/// `dest_uid`.
pub open spec fn incoming_pressure(dest_uid: u32, actions: Seq<BoardAction>) -> int
    decreases actions.len(),
{
    if actions.len() == 0 {
        0
    } else {
        incoming_pressure(dest_uid, actions.drop_last()) + if actions.last().dest == dest_uid {
            actions.last().amount as int
        } else {
            0
        }
    }
}

/// No more arrive than the source holds, and a source that holds no more than
/// the garrison has nothing to send.
pub proof fn lemma_garrison_floor(src: Base, dest: Base, config: GameConfig)
    ensures
        survivors_spec(src, dest, config) <= src.population,
        survivors_spec(src, dest, config) <= available_force(src.population),
        src.population <= MIN_DEFENDERS ==> available_force(src.population) == 0,
        src.population <= MIN_DEFENDERS ==> survivors_spec(src, dest, config) <= 0,
{
}

/// A journey no longer than the grace period costs no troops, whatever the
/// death rate.
pub proof fn lemma_grace_period_immunity(dist: int, grace_period: int, death_rate: int)
    requires
        dist <= grace_period,
        0 <= death_rate,
    ensures
        travel_deaths(dist, grace_period, death_rate) == 0,
{
    assert((dist - grace_period) * death_rate <= 0) by (nonlinear_arith)
        requires
            dist <= grace_period,
            0 <= death_rate,
    ;
}

/// Within the grace period all the troops that a base can send arrive.
pub proof fn lemma_grace_period_survivors(src: Base, dest: Base, config: GameConfig)
    requires
        distance(src.position, dest.position) <= config.paths.grace_period,
    ensures
        deaths_between(src, dest, config) == 0,
        survivors_spec(src, dest, config) == available_force(src.population),
{
    lemma_grace_period_immunity(
        distance(src.position, dest.position),
        config.paths.grace_period as int,
        config.paths.death_rate as int,
    );
}

/// A longer journey never costs fewer troops, as long as the death rate is not
/// negative.
pub proof fn lemma_deaths_monotonic(d1: int, d2: int, grace_period: int, death_rate: int)
    requires
        d1 <= d2,
        0 <= death_rate,
    ensures
        travel_deaths(d1, grace_period, death_rate) <= travel_deaths(
            d2,
            grace_period,
            death_rate,
        ),
{
    assert((d1 - grace_period) * death_rate <= (d2 - grace_period) * death_rate)
        by (nonlinear_arith)
        requires
            d1 <= d2,
            0 <= death_rate,
    ;
}

/// Beyond the grace period each further unit of distance costs exactly
/// `death_rate` troops.
pub proof fn lemma_deaths_beyond_grace(dist: int, grace_period: int, death_rate: int)
    requires
        grace_period <= dist,
        0 <= death_rate,
    ensures
        travel_deaths(dist, grace_period, death_rate) == (dist - grace_period) * death_rate,
{
    assert((dist - grace_period) * death_rate >= 0) by (nonlinear_arith)
        requires
            grace_period <= dist,
            0 <= death_rate,
    ;
}

/// The level-table entry of `base`.
pub fn get_base_level<'a>(base: &Base, base_levels: &'a [BaseLevel]) -> (level: &'a BaseLevel)
    requires
        level_is_known(*base, base_levels@),
    ensures
        *level == base_levels@[base.level as int],
{
    &base_levels[base.level as usize]
}

/// The garrison that `our_base` keeps back. It is the same for every base;
/// the enemy bases and the number of players are taken for later refinement.
#[allow(unused_variables)]
pub fn get_min_defenders(our_base: Base, enemy_bases: &[Base], remaining_players: u32) -> (n: u32)
    ensures
        n == MIN_DEFENDERS,
{
    MIN_DEFENDERS
}

/// The troops that are under way to attack `base`.
pub fn get_total_attacking_bits(base: Base, actions: &[BoardAction]) -> (total: u128)
    ensures
        total == incoming_pressure(base.uid, actions@),
{
    let mut total: u128 = 0;
    let mut i: usize = 0;
    while i < actions.len()
        invariant
            i <= actions.len(),
            total == incoming_pressure(base.uid, actions@.take(i as int)),
            total <= i * 0xFFFF_FFFF,
        decreases actions.len() - i,
    {
        proof {
            assert(actions@.take(i + 1).drop_last() =~= actions@.take(i as int));
        }
        if actions[i].dest == base.uid {
            total = total + actions[i].amount as u128;
        }
        i = i + 1;
    }
    proof {
        assert(actions@.take(i as int) =~= actions@);
    }
    total
}

/// The troops that die on the way from `src_base` to `dest_base`.
pub fn deaths_on_path(src_base: &Base, dest_base: &Base, config: &GameConfig) -> (deaths: u128)
    ensures
        deaths == deaths_between(*src_base, *dest_base, *config),
        deaths < 0x1_0000_0000_0000_0000_0000_0000,
{
    let dist: u64 = get_base_distance(src_base, dest_base);
    let grace_period: u64 = config.paths.grace_period as u64;
    if dist > grace_period {
        let beyond: u128 = (dist - grace_period) as u128;
        let death_rate: u128 = config.paths.death_rate as u128;
        proof {
            lemma_deaths_beyond_grace(dist as int, grace_period as int, death_rate as int);
            assert(beyond * death_rate < 0x1_0000_0000_0000_0000_0000_0000) by (nonlinear_arith)
                requires
                    0 <= beyond < 0x1_0000_0000_0000_0000,
                    0 <= death_rate < 0x1_0000_0000,
            ;
        }
        beyond * death_rate
    } else {
        proof {
            lemma_grace_period_immunity(
                dist as int,
                grace_period as int,
                config.paths.death_rate as int,
            );
        }
        0
    }
}

/// The troops that would arrive at `dest_base` if `src_base` attacked it:
/// what `src_base` holds beyond its garrison, less those that die on the way.
/// The result is exact and may be negative; a source with a result that is not
/// positive should not attack.
///
/// The enemy bases, the orders under way and the number of players do not
/// enter the result.
pub fn survivors(
    src_base: &Base,
    dest_base: &Base,
    enemy_bases: &[Base],
    actions: &[BoardAction],
    remaining_players: u32,
    config: &GameConfig,
) -> (arriving: i128)
    requires
        level_is_known(*src_base, config.base_levels@),
    ensures
        arriving == survivors_spec(*src_base, *dest_base, *config),
        -0x1_0000_0000_0000_0000_0000_0000 < arriving <= src_base.population,
        src_base.population <= MIN_DEFENDERS ==> arriving <= 0,
{
    let deaths: u128 = deaths_on_path(src_base, dest_base, config);
    let _total_attacking_bits: u128 = get_total_attacking_bits(*src_base, actions);
    let _spawn_rate: u32 = get_base_level(src_base, config.base_levels.as_slice()).spawn_rate;
    let available: u32 = if src_base.population > MIN_DEFENDERS {
        src_base.population - MIN_DEFENDERS
    } else {
        0
    };
    available as i128 - deaths as i128
}

/// The troops that defend `dest_base` after `dest_time` units of time, if
/// nothing but its own production changes its population.
pub open spec fn defenders_at_time_spec(dest_time: u32, dest_base: Base, config: GameConfig) -> int {
    dest_base.population + dest_time * config.base_levels@[dest_base.level as int].spawn_rate
}

/// The troops that defend `dest_base` after `dest_time` units of time.
pub fn defenders_at_time(dest_time: u32, dest_base: &Base, config: &GameConfig) -> (defenders: u64)
    requires
        level_is_known(*dest_base, config.base_levels@),
    ensures
        defenders == defenders_at_time_spec(dest_time, *dest_base, *config),
{
    let spawn_rate: u64 = get_base_level(dest_base, config.base_levels.as_slice()).spawn_rate as u64;
    proof {
        assert(dest_time * spawn_rate <= 0xFFFF_FFFF * 0xFFFF_FFFF) by (nonlinear_arith)
            requires
                0 <= dest_time <= 0xFFFF_FFFF,
                0 <= spawn_rate <= 0xFFFF_FFFF,
        ;
    }
    dest_base.population as u64 + dest_time as u64 * spawn_rate
}

/// By how many troops `attackers` exceed the defenders of `dest_base` at the
/// time `dest_time`; negative where the defenders are more.
pub fn attack_decision(attackers: u32, dest_base: &Base, config: &GameConfig, dest_time: u32) -> (margin: i128)
    requires
        level_is_known(*dest_base, config.base_levels@),
    ensures
        margin == attackers - defenders_at_time_spec(dest_time, *dest_base, *config),
{
    attackers as i128 - defenders_at_time(dest_time, dest_base, config) as i128
}

/// The sum of the populations of `bases`.
pub open spec fn total_population(bases: Seq<&Base>) -> int
    decreases bases.len(),
{
    if bases.len() == 0 {
        0
    } else {
        total_population(bases.drop_last()) + bases.last().population
    }
}

/// The mean population of `bases`, rounded down.
pub fn population_average(bases: &[&Base]) -> (mean: u32)
    requires
        bases@.len() > 0,
    ensures
        mean == total_population(bases@) / (bases@.len() as int),
{
    let mut total: u128 = 0;
    let mut i: usize = 0;
    while i < bases.len()
        invariant
            i <= bases.len(),
            total == total_population(bases@.take(i as int)),
            total <= i * 0xFFFF_FFFF,
        decreases bases.len() - i,
    {
        proof {
            assert(bases@.take(i + 1).drop_last() =~= bases@.take(i as int));
        }
        total = total + bases[i].population as u128;
        i = i + 1;
    }
    let count: u128 = bases.len() as u128;
    proof {
        assert(bases@.take(i as int) =~= bases@);
        assert(total / count <= 0xFFFF_FFFF) by (nonlinear_arith)
            requires
                0 < count,
                0 <= total <= count * 0xFFFF_FFFF,
        ;
    }
    (total / count) as u32
}

} // verus!
