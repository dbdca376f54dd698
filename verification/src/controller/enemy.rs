//! Enemies: their kinds, what touching them costs, and the stages of their life.
use vstd::prelude::*;

verus! {

/// The fruit an enemy is.
#[derive(Debug, Copy, Clone, PartialEq, Eq, Structural)]
pub enum EnemyKind {
    Apple,
    Pear,
}

impl EnemyKind {
    /// The kind a random roll picks: apple for an even roll, pear for an odd one.
    pub fn from_roll(roll: u32) -> (r: EnemyKind)
        ensures
            r == (if roll % 2 == 0 { EnemyKind::Apple } else { EnemyKind::Pear }),
    {
        if roll % 2 == 0 {
            EnemyKind::Apple
        } else {
            EnemyKind::Pear
        }
    }

    /// The health the player loses on touching an enemy of this kind.
    pub fn contact_damage(&self) -> (r: usize)
        ensures
            r == 3,
    {
        match self {
            EnemyKind::Apple => 3,
            EnemyKind::Pear => 3,
        }
    }
}

/// Where an enemy is in its life: growing in, idle (and shooting), shrinking away, or gone.
#[derive(Debug, Copy, Clone, PartialEq, Eq, Structural)]
pub enum EnemyState {
    Spawn,
    Idle,
    Despawn,
    Gone,
}

/// What a frame of an enemy's life decides.
#[derive(Debug, Copy, Clone, PartialEq, Eq, Structural)]
pub struct EnemyTick {
    /// The state after the frame.
    pub state: EnemyState,
    /// The enemy's timer starts again from zero.
    pub reset_timer: bool,
    /// The enemy fires a bullet from where it stands.
    pub shoots: bool,
}

/// A frame of an enemy's life, given whether half a second has passed on its timer: it
/// finishes spawning, shoots every half second while idle, and is gone after shrinking.
pub open spec fn enemy_next(state: EnemyState, half_second_passed: bool) -> EnemyTick {
    match state {
        EnemyState::Spawn => if half_second_passed {
            EnemyTick { state: EnemyState::Idle, reset_timer: true, shoots: false }
        } else {
            EnemyTick { state, reset_timer: false, shoots: false }
        },
        EnemyState::Idle => EnemyTick { state, reset_timer: half_second_passed, shoots: half_second_passed },
        EnemyState::Despawn => EnemyTick {
            state: if half_second_passed { EnemyState::Gone } else { state },
            reset_timer: false,
            shoots: false,
        },
        EnemyState::Gone => EnemyTick { state, reset_timer: false, shoots: false },
    }
}

/// A frame of an enemy's life (see `enemy_next`).
pub fn enemy_tick(state: EnemyState, half_second_passed: bool) -> (r: EnemyTick)
    ensures
        r == enemy_next(state, half_second_passed),
{
    match state {
        EnemyState::Spawn => {
            if half_second_passed {
                EnemyTick { state: EnemyState::Idle, reset_timer: true, shoots: false }
            } else {
                EnemyTick { state, reset_timer: false, shoots: false }
            }
        },
        EnemyState::Idle => EnemyTick { state, reset_timer: half_second_passed, shoots: half_second_passed },
        EnemyState::Despawn => {
            let next = if half_second_passed { EnemyState::Gone } else { state };
            EnemyTick { state: next, reset_timer: false, shoots: false }
        },
        EnemyState::Gone => EnemyTick { state, reset_timer: false, shoots: false },
    }
}

/// Only an idle enemy shoots, and it stays idle when it does; a gone enemy stays gone.
pub proof fn lemma_enemy_shoots_only_when_idle(state: EnemyState, passed: bool)
    ensures
        enemy_next(state, passed).shoots ==> state == EnemyState::Idle && enemy_next(state, passed).state
            == EnemyState::Idle,
        state == EnemyState::Gone ==> enemy_next(state, passed).state == EnemyState::Gone,
{
}

} // verus!
