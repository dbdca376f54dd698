//! Bullets: who fired them, and the stages of their flight.
use vstd::prelude::*;

verus! {

/// Who fired a bullet; a bullet does not hit the side that fired it.
#[derive(Debug, Copy, Clone, PartialEq, Eq, Structural)]
pub enum BulletKind {
    FromPlayer,
    FromEnemy,
}

impl BulletKind {
    /// Whether a bullet of this kind can hit the player.
    pub fn hits_player(&self) -> (r: bool)
        ensures
            r == (*self == BulletKind::FromEnemy),
    {
        match self {
            BulletKind::FromPlayer => false,
            BulletKind::FromEnemy => true,
        }
    }
}

/// Where a bullet is in its flight: flying, shrinking away, or gone.
#[derive(Debug, Copy, Clone, PartialEq, Eq, Structural)]
pub enum BulletState {
    Flying,
    Despawn,
    Gone,
}

/// A frame of a bullet's flight, given whether its current state has run its time (three
/// seconds of flying, a quarter second of shrinking): the state after, and whether the
/// bullet's timer starts again.
pub open spec fn bullet_next(state: BulletState, time_up: bool) -> (BulletState, bool) {
    match state {
        BulletState::Flying => if time_up { (BulletState::Despawn, true) } else { (state, false) },
        BulletState::Despawn => if time_up { (BulletState::Gone, false) } else { (state, false) },
        BulletState::Gone => (state, false),
    }
}

/// A frame of a bullet's flight (see `bullet_next`).
pub fn bullet_tick(state: BulletState, time_up: bool) -> (r: (BulletState, bool))
    ensures
        r == bullet_next(state, time_up),
{
    match state {
        BulletState::Flying => if time_up { (BulletState::Despawn, true) } else { (state, false) },
        BulletState::Despawn => if time_up { (BulletState::Gone, false) } else { (state, false) },
        BulletState::Gone => (state, false),
    }
}

/// A bullet only ever moves on from flying to shrinking to gone, never back.
pub proof fn lemma_bullet_never_returns(state: BulletState, time_up: bool)
    ensures
        state == BulletState::Despawn ==> bullet_next(state, time_up).0 != BulletState::Flying,
        state == BulletState::Gone ==> bullet_next(state, time_up).0 == BulletState::Gone,
{
}

} // verus!
