//! The player: its life from spawning to death, and its health and ammunition.
use vstd::prelude::*;

use super::powerup::PowerupKind;

verus! {

/// Ammunition after picking up energy.
pub const MAX_AMMO: usize = 10;

/// Health at the start, and the most there can be.
pub const MAX_HEALTH: usize = 10;

/// What the player's update reports to the game.
#[derive(Debug, Copy, Clone, PartialEq, Eq, Structural)]
pub enum PlayerAction {
    Jumped,
    StartedDying,
    Dead,
}

/// The player's health and ammunition.
#[derive(Debug, Copy, Clone, PartialEq, Eq, Structural)]
pub struct Supplies {
    pub health: usize,
    pub ammo: usize,
}

impl Supplies {
    /// Health and ammunition stay within their maxima.
    pub open spec fn wf(self) -> bool {
        self.health <= MAX_HEALTH && self.ammo <= MAX_AMMO
    }

    /// Full health and full ammunition.
    pub fn new() -> (r: Supplies)
        ensures
            r.health == MAX_HEALTH,
            r.ammo == MAX_AMMO,
    {
        Supplies { health: MAX_HEALTH, ammo: MAX_AMMO }
    }

    /// Health gives 5 health (up to the maximum), energy refills the ammunition; speed
    /// changes neither.
    pub fn pick_up_powerup(&mut self, kind: PowerupKind)
        requires
            old(self).wf(),
        ensures
            final(self).wf(),
            final(self).health == (if kind == PowerupKind::Health {
                if old(self).health + 5 < MAX_HEALTH { old(self).health + 5 } else { MAX_HEALTH as int }
            } else {
                old(self).health as int
            }),
            final(self).ammo == (if kind == PowerupKind::Energy { MAX_AMMO } else { old(self).ammo }),
    {
        match kind {
            PowerupKind::Health => {
                let h = self.health + 5;
                self.health = if h < MAX_HEALTH { h } else { MAX_HEALTH };
            },
            PowerupKind::Speed => {},
            PowerupKind::Energy => {
                self.ammo = MAX_AMMO;
            },
        }
    }

    /// Loses `amount` health (down to zero); returns whether the player has none left.
    pub fn decrease_hp(&mut self, amount: usize) -> (dead: bool)
        ensures
            final(self).health == (if old(self).health >= amount { old(self).health - amount } else { 0 }),
            final(self).ammo == old(self).ammo,
            dead == (final(self).health == 0),
    {
        self.health = self.health.saturating_sub(amount);
        self.health == 0
    }

    /// Spends a bullet if there is one; returns whether one was fired.
    pub fn fire_bullet(&mut self) -> (fired: bool)
        ensures
            fired == (old(self).ammo > 0),
            final(self).ammo == (if fired { old(self).ammo - 1 } else { 0 }),
            final(self).health == old(self).health,
    {
        if self.ammo == 0 {
            return false;
        }
        self.ammo -= 1;
        true
    }
}

/// Where the player is in its life.
#[derive(Debug, Copy, Clone, PartialEq, Eq, Structural)]
pub enum LifeState {
    Spawning,
    Alive,
    StartedDying,
    Dead,
}

/// What the player's motion and timers found this frame.
#[derive(Debug, Copy, Clone, PartialEq, Eq, Structural)]
pub struct LifeInput {
    /// A jump starts this frame (asked for at floor level, or forced at a ledge).
    pub jump_started: bool,
    /// The player has sunk to the death barrier.
    pub at_death_barrier: bool,
    /// The dying animation has run its course.
    pub dying_over: bool,
}

/// What a frame of the player's life asks of the game.
#[derive(Debug, Copy, Clone, PartialEq, Eq, Structural)]
pub struct LifeStep {
    /// What to report to the game.
    pub action: Option<PlayerAction>,
    /// The life timer starts again from zero.
    pub reset_timer: bool,
    /// The dying animation runs this frame (and the speed boost is gone).
    pub shrinking: bool,
}

/// The player's life: its state, whether the current state has been reported, and its
/// supplies.
#[derive(Debug, Copy, Clone, PartialEq, Eq, Structural)]
pub struct PlayerLife {
    pub state: LifeState,
    pub reported: bool,
    pub supplies: Supplies,
}

/// A frame of the player's life: the next life and what the frame asks of the game.
pub open spec fn life_next(l: PlayerLife, input: LifeInput) -> (PlayerLife, LifeStep) {
    match l.state {
        LifeState::Spawning => (
            PlayerLife { state: LifeState::Alive, ..l },
            LifeStep { action: None, reset_timer: false, shrinking: false },
        ),
        LifeState::Alive => {
            let action = if input.jump_started { Some(PlayerAction::Jumped) } else { None };
            if input.at_death_barrier && !l.reported {
                (
                    PlayerLife { state: LifeState::StartedDying, reported: false, ..l },
                    LifeStep { action, reset_timer: true, shrinking: false },
                )
            } else {
                (l, LifeStep { action, reset_timer: false, shrinking: false })
            }
        },
        LifeState::StartedDying => {
            if input.dying_over {
                (
                    PlayerLife { state: LifeState::Dead, reported: false, ..l },
                    LifeStep { action: None, reset_timer: true, shrinking: false },
                )
            } else {
                let drained = Supplies { health: 0, ammo: 0 };
                (
                    PlayerLife { reported: true, supplies: drained, ..l },
                    LifeStep {
                        action: if l.reported { None } else { Some(PlayerAction::StartedDying) },
                        reset_timer: false,
                        shrinking: true,
                    },
                )
            }
        },
        LifeState::Dead => (
            PlayerLife { reported: true, ..l },
            LifeStep {
                action: if l.reported { None } else { Some(PlayerAction::Dead) },
                reset_timer: false,
                shrinking: false,
            },
        ),
    }
}

/// Whether a life is over or ending.
pub open spec fn life_is_dead(l: PlayerLife) -> bool {
    l.state == LifeState::StartedDying || l.state == LifeState::Dead
}

impl PlayerLife {
    /// A player about to spawn, with full supplies.
    pub fn new() -> (r: PlayerLife)
        ensures
            r.state == LifeState::Spawning,
            !r.reported,
            r.supplies.health == MAX_HEALTH,
            r.supplies.ammo == MAX_AMMO,
    {
        PlayerLife { state: LifeState::Spawning, reported: false, supplies: Supplies::new() }
    }

    /// Whether the player is dying or dead.
    pub fn is_dead(&self) -> (r: bool)
        ensures
            r == life_is_dead(*self),
    {
        match self.state {
            LifeState::StartedDying | LifeState::Dead => true,
            _ => false,
        }
    }

    /// One frame of the player's life.
    pub fn update(&mut self, input: LifeInput) -> (r: LifeStep)
        ensures
            (*final(self), r) == life_next(*old(self), input),
    {
        match self.state {
            LifeState::Spawning => {
                self.state = LifeState::Alive;
                LifeStep { action: None, reset_timer: false, shrinking: false }
            },
            LifeState::Alive => {
                let action = if input.jump_started { Some(PlayerAction::Jumped) } else { None };
                let mut reset_timer = false;
                if input.at_death_barrier && !self.reported {
                    self.state = LifeState::StartedDying;
                    self.reported = false;
                    reset_timer = true;
                }
                LifeStep { action, reset_timer, shrinking: false }
            },
            LifeState::StartedDying => {
                if input.dying_over {
                    self.reported = false;
                    self.state = LifeState::Dead;
                    return LifeStep { action: None, reset_timer: true, shrinking: false };
                }
                self.supplies.health = 0;
                self.supplies.ammo = 0;
                if self.reported {
                    return LifeStep { action: None, reset_timer: false, shrinking: true };
                }
                self.reported = true;
                LifeStep { action: Some(PlayerAction::StartedDying), reset_timer: false, shrinking: true }
            },
            LifeState::Dead => {
                if self.reported {
                    return LifeStep { action: None, reset_timer: false, shrinking: false };
                }
                self.reported = true;
                LifeStep { action: Some(PlayerAction::Dead), reset_timer: false, shrinking: false }
            },
        }
    }

    /// Takes `amount` damage unless the player is `shielded` (hit a moment ago); returns
    /// whether the damage was taken. With no health left, the player starts dying.
    pub fn decrease_hp(&mut self, amount: usize, shielded: bool) -> (taken: bool)
        ensures
            taken == !shielded,
            *final(self) == life_hit(*old(self), amount, shielded),
            shielded ==> *final(self) == *old(self),
            !shielded ==> final(self).supplies.health == (if old(self).supplies.health >= amount {
                old(self).supplies.health - amount
            } else {
                0
            }),
            !shielded ==> final(self).supplies.ammo == old(self).supplies.ammo,
            !shielded && final(self).supplies.health == 0 ==> final(self).state == LifeState::StartedDying
                && !final(self).reported,
            !shielded && final(self).supplies.health != 0 ==> final(self).state == old(self).state
                && final(self).reported == old(self).reported,
    {
        if shielded {
            return false;
        }
        if self.supplies.decrease_hp(amount) {
            self.state = LifeState::StartedDying;
            self.reported = false;
        }
        true
    }
}

/// The dying animation runs on every frame of dying until dying is over, whether or not the
/// dying was already reported, and on no other frame; the life stays dying meanwhile.
pub proof fn lemma_dying_animates_every_frame(l: PlayerLife, input: LifeInput)
    ensures
        life_next(l, input).1.shrinking == (l.state == LifeState::StartedDying && !input.dying_over),
        l.state == LifeState::StartedDying && !input.dying_over ==> life_next(l, input).0.state == LifeState::StartedDying,
{
}

/// The life timer starts again exactly when the player starts dying at the death barrier and
/// when dying is over; a jump is reported exactly on the frames of an alive player that jump.
pub proof fn lemma_life_timer_and_jumps(l: PlayerLife, input: LifeInput)
    ensures
        life_next(l, input).1.reset_timer == ((l.state == LifeState::Alive && input.at_death_barrier && !l.reported)
            || (l.state == LifeState::StartedDying && input.dying_over)),
        (life_next(l, input).1.action == Some(PlayerAction::Jumped)) == (l.state == LifeState::Alive
            && input.jump_started),
{
}

/// Each of the two deaths is reported once: a frame that reports the player dying or dead
/// is followed by one that reports nothing.
pub proof fn lemma_death_reported_once(l: PlayerLife, first: LifeInput, second: LifeInput)
    requires
        life_next(l, first).1.action == Some(PlayerAction::StartedDying) || life_next(l, first).1.action
            == Some(PlayerAction::Dead),
    ensures
        life_next(life_next(l, first).0, second).1.action is None,
{
}

/// Once the player is dying or dead it stays so, whatever the frames and hits that follow.
pub proof fn lemma_death_is_final(l: PlayerLife, input: LifeInput)
    requires
        life_is_dead(l),
    ensures
        life_is_dead(life_next(l, input).0),
{
}

/// A frame of the player's life keeps health and ammunition within their maxima.
pub proof fn lemma_life_keeps_supplies(l: PlayerLife, input: LifeInput)
    requires
        l.supplies.wf(),
    ensures
        life_next(l, input).0.supplies.wf(),
{
}

/// A hit on the player (see `PlayerLife::decrease_hp`).
pub open spec fn life_hit(l: PlayerLife, amount: usize, shielded: bool) -> PlayerLife {
    if shielded {
        l
    } else {
        let health = if l.supplies.health >= amount { (l.supplies.health - amount) as usize } else { 0usize };
        let supplies = Supplies { health, ..l.supplies };
        if health == 0 {
            PlayerLife { state: LifeState::StartedDying, reported: false, supplies }
        } else {
            PlayerLife { supplies, ..l }
        }
    }
}

/// Something that happens to the player's life: a frame, or a hit.
#[derive(Debug, Copy, Clone, PartialEq, Eq, Structural)]
pub enum LifeEvent {
    Frame(LifeInput),
    Hit { amount: usize, shielded: bool },
}

/// The life after an event, and what the event reports.
pub open spec fn life_event(l: PlayerLife, e: LifeEvent) -> (PlayerLife, Option<PlayerAction>) {
    match e {
        LifeEvent::Frame(input) => (life_next(l, input).0, life_next(l, input).1.action),
        LifeEvent::Hit { amount, shielded } => (life_hit(l, amount, shielded), None),
    }
}

/// The life after the first `k` events.
pub open spec fn life_trace(l: PlayerLife, evs: Seq<LifeEvent>, k: nat) -> PlayerLife
    decreases k,
{
    if k == 0 {
        l
    } else {
        life_event(life_trace(l, evs, (k - 1) as nat), evs[k - 1]).0
    }
}

/// What event `k` reports.
pub open spec fn trace_report(l: PlayerLife, evs: Seq<LifeEvent>, k: nat) -> Option<PlayerAction> {
    life_event(life_trace(l, evs, k), evs[k as int]).1
}

/// How far a life has gone: alive, dying unannounced, dying announced, dead unannounced,
/// dead announced.
spec fn life_phase(l: PlayerLife) -> int {
    match l.state {
        LifeState::Spawning | LifeState::Alive => 0,
        LifeState::StartedDying => if l.reported { 2 } else { 1 },
        LifeState::Dead => if l.reported { 4 } else { 3 },
    }
}

spec fn life_fresh(l: PlayerLife) -> bool {
    (l.state == LifeState::Spawning || l.state == LifeState::Alive) ==> !l.reported
}

proof fn lemma_event_phase(l: PlayerLife, e: LifeEvent)
    requires
        life_fresh(l),
        e is Hit ==> !life_is_dead(l),
    ensures
        life_fresh(life_event(l, e).0),
        life_phase(l) <= life_phase(life_event(l, e).0),
        life_event(l, e).1 == Some(PlayerAction::StartedDying) ==> life_phase(l) == 1 && life_phase(
            life_event(l, e).0,
        ) == 2,
        life_event(l, e).1 == Some(PlayerAction::Dead) ==> life_phase(l) == 3 && life_phase(life_event(l, e).0)
            == 4,
{
}

proof fn lemma_trace_phase(l: PlayerLife, evs: Seq<LifeEvent>, i: nat, j: nat)
    requires
        life_fresh(l),
        i <= j <= evs.len(),
        forall|k: int| 0 <= k < evs.len() && (#[trigger] evs[k]) is Hit ==> !life_is_dead(life_trace(l, evs, k as nat)),
    ensures
        life_fresh(life_trace(l, evs, j)),
        life_phase(life_trace(l, evs, i)) <= life_phase(life_trace(l, evs, j)),
    decreases j,
{
    if j > 0 {
        if i < j {
            lemma_trace_phase(l, evs, i, (j - 1) as nat);
        } else {
            lemma_trace_phase(l, evs, (j - 1) as nat, (j - 1) as nat);
        }
        let p = life_trace(l, evs, (j - 1) as nat);
        assert(evs[j - 1] is Hit ==> !life_is_dead(p));
        lemma_event_phase(p, evs[j - 1]);
    }
}

/// Over any run of frames and hits (the hits landing while the player is alive), starting
/// from a player about to spawn: the first frame reports nothing; the player's dying is
/// reported at most once; its death is reported at most once, and nothing is reported after
/// it; and once dying or dead, it stays so.
pub proof fn lemma_death_reported_once_in_a_run(l: PlayerLife, evs: Seq<LifeEvent>, i: nat, j: nat)
    requires
        l.state == LifeState::Spawning,
        !l.reported,
        forall|k: int| 0 <= k < evs.len() && (#[trigger] evs[k]) is Hit ==> !life_is_dead(life_trace(l, evs, k as nat)),
        i < j < evs.len(),
    ensures
        evs[0] is Frame ==> trace_report(l, evs, 0) is None,
        trace_report(l, evs, i) == Some(PlayerAction::StartedDying) ==> trace_report(l, evs, j) != Some(
            PlayerAction::StartedDying,
        ),
        trace_report(l, evs, i) == Some(PlayerAction::Dead) ==> trace_report(l, evs, j) is None,
        life_is_dead(life_trace(l, evs, i)) ==> life_is_dead(life_trace(l, evs, j)),
{
    lemma_trace_phase(l, evs, i, j);
    lemma_trace_phase(l, evs, (i + 1) as nat, j);
    lemma_trace_phase(l, evs, i, i);
    lemma_trace_phase(l, evs, j, j);
    let a = life_trace(l, evs, i);
    let b = life_trace(l, evs, j);
    assert(evs[i as int] is Hit ==> !life_is_dead(a));
    assert(evs[j as int] is Hit ==> !life_is_dead(b));
    lemma_event_phase(a, evs[i as int]);
    lemma_event_phase(b, evs[j as int]);
    assert(life_trace(l, evs, (i + 1) as nat) == life_event(a, evs[i as int]).0);
}

} // verus!
