//! Whose base is whose, as seen by the acting player.

use vstd::prelude::*;
use crate::models::base::Base;

verus! {

/// The bases that `player` holds.
pub open spec fn is_owned(player: u32) -> spec_fn(Base) -> bool {
    |b: Base| b.player == player
}

/// The bases that a player other than `player` holds.
pub open spec fn is_hostile(player: u32) -> spec_fn(Base) -> bool {
    |b: Base| b.player != player && b.player != 0
}

/// The bases that nobody holds, as far as `player` does not count them as
/// its own.
pub open spec fn is_neutral(player: u32) -> spec_fn(Base) -> bool {
    |b: Base| b.player != player && b.player == 0
}

/// The bases of `player` among `bases`, in their order.
pub open spec fn owned_bases(bases: Seq<Base>, player: u32) -> Seq<Base> {
    bases.filter(is_owned(player))
}

/// The bases of other players among `bases`, in their order.
pub open spec fn hostile_bases(bases: Seq<Base>, player: u32) -> Seq<Base> {
    bases.filter(is_hostile(player))
}

/// The unclaimed bases among `bases`, in their order.
pub open spec fn neutral_bases(bases: Seq<Base>, player: u32) -> Seq<Base> {
    bases.filter(is_neutral(player))
}

/// Every base falls into exactly one of the three classes.
pub proof fn lemma_one_class_each(b: Base, player: u32)
    ensures
        is_owned(player)(b) || is_hostile(player)(b) || is_neutral(player)(b),
        !(is_owned(player)(b) && is_hostile(player)(b)),
        !(is_owned(player)(b) && is_neutral(player)(b)),
        !(is_hostile(player)(b) && is_neutral(player)(b)),
{
}

/// The three classes hold as many bases as there are.
pub proof fn lemma_classes_cover(bases: Seq<Base>, player: u32)
    ensures
        owned_bases(bases, player).len() + hostile_bases(bases, player).len() + neutral_bases(
            bases,
            player,
        ).len() == bases.len(),
    decreases bases.len(),
{
    reveal(Seq::filter);
    if bases.len() > 0 {
        lemma_classes_cover(bases.drop_last(), player);
    }
}

/// No base stands in two of the three classes.
pub proof fn lemma_classes_disjoint(bases: Seq<Base>, player: u32)
    ensures
        forall|b: Base|
            !(owned_bases(bases, player).contains(b) && hostile_bases(bases, player).contains(b)),
        forall|b: Base|
            !(owned_bases(bases, player).contains(b) && neutral_bases(bases, player).contains(b)),
        forall|b: Base|
            !(hostile_bases(bases, player).contains(b) && neutral_bases(bases, player).contains(
                b,
            )),
{
    lemma_class_members(bases, player);
}

/// What holds of the members of each class: each is one of `bases`, and its
/// owner is what the class says.
pub proof fn lemma_class_members(bases: Seq<Base>, player: u32)
    ensures
        forall|b: Base| #[trigger]
            owned_bases(bases, player).contains(b) ==> bases.contains(b) && b.player == player,
        forall|b: Base| #[trigger]
            hostile_bases(bases, player).contains(b) ==> bases.contains(b) && b.player != player
                && b.player != 0,
        forall|b: Base| #[trigger]
            neutral_bases(bases, player).contains(b) ==> bases.contains(b) && b.player != player
                && b.player == 0,
{
    assert forall|b: Base| #[trigger]
        owned_bases(bases, player).contains(b) implies bases.contains(b) && b.player
        == player by {
        bases.lemma_filter_contains_rev(is_owned(player), b);
        let i = choose|i: int|
            0 <= i < owned_bases(bases, player).len() && owned_bases(bases, player)[i] == b;
        bases.lemma_filter_pred(is_owned(player), i);
    }
    assert forall|b: Base| #[trigger]
        hostile_bases(bases, player).contains(b) implies bases.contains(b) && b.player != player
        && b.player != 0 by {
        bases.lemma_filter_contains_rev(is_hostile(player), b);
        let i = choose|i: int|
            0 <= i < hostile_bases(bases, player).len() && hostile_bases(bases, player)[i] == b;
        bases.lemma_filter_pred(is_hostile(player), i);
    }
    assert forall|b: Base| #[trigger]
        neutral_bases(bases, player).contains(b) implies bases.contains(b) && b.player != player
        && b.player == 0 by {
        bases.lemma_filter_contains_rev(is_neutral(player), b);
        let i = choose|i: int|
            0 <= i < neutral_bases(bases, player).len() && neutral_bases(bases, player)[i] == b;
        bases.lemma_filter_pred(is_neutral(player), i);
    }
}

/// Splits `bases` into those of `our_player`, those of other players and
/// those that nobody holds, in this order. Each part keeps the order of
/// `bases`, and every base goes to exactly one part.
pub fn filter_bases(bases: &[Base], our_player: u32) -> (parts: (Vec<Base>, Vec<Base>, Vec<Base>))
    ensures
        parts.0@ == owned_bases(bases@, our_player),
        parts.1@ == hostile_bases(bases@, our_player),
        parts.2@ == neutral_bases(bases@, our_player),
        parts.0@.len() + parts.1@.len() + parts.2@.len() == bases@.len(),
        forall|b: Base| #[trigger]
            parts.0@.contains(b) ==> bases@.contains(b) && b.player == our_player,
        forall|b: Base| #[trigger]
            parts.1@.contains(b) ==> bases@.contains(b) && b.player != our_player && b.player
                != 0,
        forall|b: Base| #[trigger]
            parts.2@.contains(b) ==> bases@.contains(b) && b.player != our_player && b.player
                == 0,
{
    let mut our_bases: Vec<Base> = Vec::new();
    let mut other_bases: Vec<Base> = Vec::new();
    let mut empty_bases: Vec<Base> = Vec::new();
    let mut i: usize = 0;
    proof {
        reveal(Seq::filter);
        assert(bases@.take(0).len() == 0);
    }
    while i < bases.len()
        invariant
            i <= bases.len(),
            our_bases@ == owned_bases(bases@.take(i as int), our_player),
            other_bases@ == hostile_bases(bases@.take(i as int), our_player),
            empty_bases@ == neutral_bases(bases@.take(i as int), our_player),
        decreases bases.len() - i,
    {
        let base: Base = bases[i];
        proof {
            let seen = bases@.take(i as int);
            assert(bases@.take(i + 1) =~= seen.push(base));
            seen.lemma_filter_push(base, is_owned(our_player));
            seen.lemma_filter_push(base, is_hostile(our_player));
            seen.lemma_filter_push(base, is_neutral(our_player));
        }
        if base.player == our_player {
            our_bases.push(base);
        } else if base.player == 0 {
            empty_bases.push(base);
        } else {
            other_bases.push(base);
        }
        i = i + 1;
    }
    proof {
        assert(bases@.take(i as int) =~= bases@);
        lemma_classes_cover(bases@, our_player);
        lemma_class_members(bases@, our_player);
    }
    (our_bases, other_bases, empty_bases)
}

} // verus!
