//! Powerups: their kinds and colours, and the stages of their life.
use vstd::prelude::*;

verus! {

/// What a powerup gives the player.
#[derive(Debug, Copy, Clone, PartialEq, Eq, Structural)]
pub enum PowerupKind {
    Health,
    Energy,
    Speed,
}

impl PowerupKind {
    /// The colour a powerup glows in: red for health, light blue for energy, green for speed.
    pub fn get_color(&self) -> (r: [u8; 3])
        ensures
            r@ == match *self {
                PowerupKind::Health => seq![255u8, 0, 0],
                PowerupKind::Energy => seq![128u8, 128, 255],
                PowerupKind::Speed => seq![0u8, 255, 0],
            },
    {
        let r = match self {
            PowerupKind::Health => [255, 0, 0],
            PowerupKind::Energy => [128, 128, 255],
            PowerupKind::Speed => [0, 255, 0],
        };
        assert(r@ =~= match *self {
            PowerupKind::Health => seq![255u8, 0, 0],
            PowerupKind::Energy => seq![128u8, 128, 255],
            PowerupKind::Speed => seq![0u8, 255, 0],
        });
        r
    }

    /// The kind a random roll picks: its remainder by 3, in the order health, energy, speed.
    pub fn from_roll(roll: u32) -> (r: PowerupKind)
        ensures
            r == (if roll % 3 == 0 {
                PowerupKind::Health
            } else if roll % 3 == 1 {
                PowerupKind::Energy
            } else {
                PowerupKind::Speed
            }),
    {
        let kind = roll % 3;
        if kind == 0 {
            PowerupKind::Health
        } else if kind == 1 {
            PowerupKind::Energy
        } else {
            PowerupKind::Speed
        }
    }
}

/// Where a powerup is in its life: growing in, floating (and ready to be picked up),
/// shrinking after being picked up, or gone.
#[derive(Debug, Copy, Clone, PartialEq, Eq, Structural)]
pub enum PowerupState {
    Spawn,
    Floating,
    PickedUp,
    Gone,
}

/// A frame of a powerup's life, given whether half a second has passed on its timer: the
/// state after, and whether the powerup's timer starts again.
pub open spec fn powerup_next(state: PowerupState, half_second_passed: bool) -> (PowerupState, bool) {
    match state {
        PowerupState::Spawn => if half_second_passed { (PowerupState::Floating, true) } else { (state, false) },
        PowerupState::PickedUp => if half_second_passed { (PowerupState::Gone, false) } else { (state, false) },
        _ => (state, false),
    }
}

/// A frame of a powerup's life (see `powerup_next`).
pub fn powerup_tick(state: PowerupState, half_second_passed: bool) -> (r: (PowerupState, bool))
    ensures
        r == powerup_next(state, half_second_passed),
{
    match state {
        PowerupState::Spawn => if half_second_passed { (PowerupState::Floating, true) } else { (state, false) },
        PowerupState::PickedUp => if half_second_passed { (PowerupState::Gone, false) } else { (state, false) },
        _ => (state, false),
    }
}

/// A floating powerup floats until it is picked up, and a gone one stays gone.
pub proof fn lemma_powerup_waits(state: PowerupState, passed: bool)
    ensures
        state == PowerupState::Floating ==> powerup_next(state, passed).0 == PowerupState::Floating,
        state == PowerupState::Gone ==> powerup_next(state, passed).0 == PowerupState::Gone,
{
}

} // verus!
