//! Health bookkeeping and actor lifecycle.
//!
//! Once per tick, after combat and knockback have resolved, every actor
//! with health at or below zero is removed, together with its decorative
//! child (owned by the actor's own struct, so the removal cascades by
//! construction).  Removal is unconditional and immediate: no death
//! animation, no grace period.

use vstd::prelude::*;
use crate::player::Player;
use crate::enemy::{Enemy, EnemyModel, views_of};

verus! {

/// The agents that survive a lifecycle sweep: exactly those with
/// positive health, in the order they stood in before the sweep.
pub open spec fn live_enemies(s: Seq<EnemyModel>) -> Seq<EnemyModel>
    decreases s.len(),
{
    if s.len() == 0 {
        s
    } else {
        let rest = live_enemies(s.drop_last());
        if s.last().health > 0 {
            rest.push(s.last())
        } else {
            rest
        }
    }
}

/// The player survives a lifecycle sweep only with positive health.
pub open spec fn live_player(p: Option<Player>) -> Option<Player> {
    match p {
        None => None,
        Some(q) => if q@.health > 0 {
            Some(q)
        } else {
            None
        },
    }
}

/// Every agent left after the sweep has positive health: an actor whose
/// health was driven to zero or below is absent from the set the sweep
/// returns.
pub proof fn lemma_live_enemies_positive(s: Seq<EnemyModel>)
    ensures
        forall|i: int| 0 <= i < live_enemies(s).len() ==> live_enemies(s)[i].health > 0,
    decreases s.len(),
{
    if s.len() > 0 {
        lemma_live_enemies_positive(s.drop_last());
    }
}

/// A lifecycle sweep never invents an agent: it returns no more agents
/// than it was given, and each survivor is one of them.
pub proof fn lemma_live_enemies_sub(s: Seq<EnemyModel>)
    ensures
        live_enemies(s).len() <= s.len(),
        forall|j: int|
            0 <= j < live_enemies(s).len() ==> exists|i: int|
                0 <= i < s.len() && #[trigger] live_enemies(s)[j] == s[i],
    decreases s.len(),
{
    if s.len() > 0 {
        lemma_live_enemies_sub(s.drop_last());
        let live = live_enemies(s);
        let prev = live_enemies(s.drop_last());
        assert forall|j: int| 0 <= j < live.len() implies exists|i: int|
            0 <= i < s.len() && #[trigger] live[j] == s[i] by {
            if j < prev.len() {
                let i = choose|i: int| 0 <= i < s.drop_last().len() && prev[j] == s.drop_last()[i];
                assert(0 <= i < s.len() && live[j] == s[i]);
            } else {
                assert(live[j] == s[s.len() - 1]);
            }
        }
    }
}

/// The lifecycle sweep: remove every actor whose health is zero or
/// below.  An actor's decorative child lives inside its struct, so it
/// leaves with its owner.
pub fn health_check(player: &mut Option<Player>, enemies: &mut Vec<Enemy>)
    ensures
        *final(player) == live_player(*old(player)),
        views_of(final(enemies)@) == live_enemies(views_of(old(enemies)@)),
{
    match player {
        Some(p) => {
            if p.health <= 0 {
                *player = None;
            }
        },
        None => {},
    }

    let ghost orig: Seq<Enemy> = enemies@;
    let mut kept: Vec<Enemy> = Vec::new();
    let mut idx: usize = 0;
    while idx < enemies.len()
        invariant
            0 <= idx <= enemies.len(),
            enemies@ == orig,
            views_of(kept@) == live_enemies(views_of(orig).subrange(0, idx as int)),
        decreases enemies.len() - idx,
    {
        proof {
            assert(views_of(orig).subrange(0, idx as int + 1).drop_last() =~= views_of(
                orig,
            ).subrange(0, idx as int));
            assert(views_of(orig).subrange(0, idx as int + 1).last() == orig[idx as int]@);
        }
        let e = enemies[idx];
        if e.health > 0 {
            kept.push(e);
            proof {
                assert(views_of(kept@) =~= views_of(kept@.drop_last()).push(e@));
            }
        }
        idx = idx + 1;
    }
    proof {
        assert(views_of(orig).subrange(0, orig.len() as int) =~= views_of(orig));
    }
    *enemies = kept;
}

} // verus!
