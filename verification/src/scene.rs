//! The game's scenes and how events move between them, the buttons that were just pressed,
//! and the statistics overlay.
use vstd::prelude::*;

use crate::audio::{MusicRequest, SoundRequest};
use crate::controller::player::PlayerAction;
use crate::controller::powerup::PowerupKind;

verus! {

/// The scene the game shows. The round's clock is kept beside it by the caller.
#[derive(Debug, Copy, Clone, PartialEq, Eq, Structural)]
pub enum ScenePhase {
    Title,
    InGame { kills: usize },
    Dead,
    YoureWinner { kills: usize },
}

/// Something that happened in a frame.
#[derive(Debug, Copy, Clone, PartialEq, Eq, Structural)]
pub enum SceneEvent {
    /// The fire button went down.
    FirePressed,
    /// The player fired a bullet.
    Shot,
    /// The player picked up a powerup.
    PowerupPicked(PowerupKind),
    /// The player took damage.
    Hurt,
    /// A bullet of the player killed an enemy.
    EnemyKilled,
    /// The round's clock ran out.
    TimeUp,
    /// The player's update reported something.
    Player(PlayerAction),
}

/// What the game does in answer to an event.
#[derive(Debug, Copy, Clone, PartialEq, Eq, Structural)]
pub struct SceneOutcome {
    /// The scene after the event.
    pub phase: ScenePhase,
    /// A sound to play.
    pub sound: Option<SoundRequest>,
    /// A change of music.
    pub music: Option<MusicRequest>,
    /// Start a new round: a fresh scene with a full clock.
    pub respawn: bool,
    /// Let the player try to fire.
    pub fire: bool,
    /// An explosion goes off where the player is.
    pub explosion: bool,
}

/// The sound of picking up a powerup.
pub open spec fn pickup_sound(kind: PowerupKind) -> SoundRequest {
    match kind {
        PowerupKind::Health => SoundRequest::PowerupHpPickup,
        PowerupKind::Energy => SoundRequest::PowerupEnergyPickup,
        PowerupKind::Speed => SoundRequest::PowerupSpeedPickup,
    }
}

/// An outcome that keeps the scene and does nothing else.
pub open spec fn quiet(phase: ScenePhase) -> SceneOutcome {
    SceneOutcome { phase, sound: None, music: None, respawn: false, fire: false, explosion: false }
}

/// An outcome that keeps the scene and plays a sound.
pub open spec fn with_sound(phase: ScenePhase, sound: SoundRequest) -> SceneOutcome {
    SceneOutcome { sound: Some(sound), ..quiet(phase) }
}

/// Pressing fire outside a round starts a new one, with the in-game music.
pub open spec fn respawned() -> SceneOutcome {
    SceneOutcome {
        respawn: true,
        music: Some(MusicRequest::InGame),
        ..quiet(ScenePhase::InGame { kills: 0 })
    }
}

/// How the game answers `ev` in scene `phase`. Only fire starts a round; everything else
/// happens during one.
pub open spec fn scene_next(phase: ScenePhase, ev: SceneEvent) -> SceneOutcome {
    match phase {
        ScenePhase::InGame { kills } => match ev {
            SceneEvent::FirePressed => SceneOutcome { fire: true, ..quiet(phase) },
            SceneEvent::Shot => with_sound(phase, SoundRequest::PlayerShoot),
            SceneEvent::PowerupPicked(kind) => with_sound(phase, pickup_sound(kind)),
            SceneEvent::Hurt => with_sound(phase, SoundRequest::EnemyHit),
            SceneEvent::EnemyKilled => with_sound(
                ScenePhase::InGame { kills: kills.wrapping_add(1) },
                SoundRequest::EnemyDeath,
            ),
            SceneEvent::TimeUp => SceneOutcome {
                music: Some(MusicRequest::Win),
                ..quiet(ScenePhase::YoureWinner { kills })
            },
            SceneEvent::Player(PlayerAction::Jumped) => with_sound(phase, SoundRequest::PlayerJump),
            SceneEvent::Player(PlayerAction::StartedDying) => SceneOutcome {
                music: Some(MusicRequest::Stop),
                ..with_sound(phase, SoundRequest::PlayerDeath)
            },
            SceneEvent::Player(PlayerAction::Dead) => SceneOutcome {
                music: Some(MusicRequest::Death),
                explosion: true,
                ..with_sound(ScenePhase::Dead, SoundRequest::PlayerExplosion)
            },
        },
        _ => match ev {
            SceneEvent::FirePressed => respawned(),
            _ => quiet(phase),
        },
    }
}

/// How the game answers `ev` in scene `phase`.
pub fn scene_event(phase: ScenePhase, ev: SceneEvent) -> (r: SceneOutcome)
    ensures
        r == scene_next(phase, ev),
{
    let none = SceneOutcome {
        phase,
        sound: None,
        music: None,
        respawn: false,
        fire: false,
        explosion: false,
    };
    match phase {
        ScenePhase::InGame { kills } => match ev {
            SceneEvent::FirePressed => SceneOutcome { fire: true, ..none },
            SceneEvent::Shot => SceneOutcome { sound: Some(SoundRequest::PlayerShoot), ..none },
            SceneEvent::PowerupPicked(kind) => {
                let sound = match kind {
                    PowerupKind::Health => SoundRequest::PowerupHpPickup,
                    PowerupKind::Energy => SoundRequest::PowerupEnergyPickup,
                    PowerupKind::Speed => SoundRequest::PowerupSpeedPickup,
                };
                SceneOutcome { sound: Some(sound), ..none }
            },
            SceneEvent::Hurt => SceneOutcome { sound: Some(SoundRequest::EnemyHit), ..none },
            SceneEvent::EnemyKilled => SceneOutcome {
                phase: ScenePhase::InGame { kills: kills.wrapping_add(1) },
                sound: Some(SoundRequest::EnemyDeath),
                ..none
            },
            SceneEvent::TimeUp => SceneOutcome {
                phase: ScenePhase::YoureWinner { kills },
                music: Some(MusicRequest::Win),
                ..none
            },
            SceneEvent::Player(PlayerAction::Jumped) => SceneOutcome {
                sound: Some(SoundRequest::PlayerJump),
                ..none
            },
            SceneEvent::Player(PlayerAction::StartedDying) => SceneOutcome {
                sound: Some(SoundRequest::PlayerDeath),
                music: Some(MusicRequest::Stop),
                ..none
            },
            SceneEvent::Player(PlayerAction::Dead) => SceneOutcome {
                phase: ScenePhase::Dead,
                sound: Some(SoundRequest::PlayerExplosion),
                music: Some(MusicRequest::Death),
                explosion: true,
                ..none
            },
        },
        _ => match ev {
            SceneEvent::FirePressed => SceneOutcome {
                phase: ScenePhase::InGame { kills: 0 },
                music: Some(MusicRequest::InGame),
                respawn: true,
                ..none
            },
            _ => none,
        },
    }
}

/// The kills of the round that a scene shows, if it shows one.
pub open spec fn scene_kills(phase: ScenePhase) -> Option<usize> {
    match phase {
        ScenePhase::InGame { kills } => Some(kills),
        ScenePhase::YoureWinner { kills } => Some(kills),
        _ => None,
    }
}

/// Within a round the kill count never goes down (short of wrapping past the largest count),
/// and a won round keeps it.
pub proof fn lemma_kills_never_drop(phase: ScenePhase, ev: SceneEvent)
    requires
        phase matches ScenePhase::InGame { kills } && kills < usize::MAX,
    ensures
        scene_next(phase, ev).respawn || scene_next(phase, ev).phase == ScenePhase::Dead
            || scene_kills(scene_next(phase, ev).phase).unwrap() >= scene_kills(phase).unwrap(),
{
}

/// Outside a round, only fire does anything, and it starts a fresh round with no kills.
pub proof fn lemma_fire_starts_round(phase: ScenePhase, ev: SceneEvent)
    requires
        !(phase is InGame),
    ensures
        ev == SceneEvent::FirePressed ==> scene_next(phase, ev) == respawned(),
        ev != SceneEvent::FirePressed ==> scene_next(phase, ev) == quiet(phase),
{
}

/// The buttons that are down now and were not down before.
pub fn latched_buttons(now: u32, last: u32) -> (r: u32)
    ensures
        r == now & !last,
{
    let r = (now ^ last) & now;
    assert((now ^ last) & now == now & !last) by (bit_vector);
    r
}

/// A button counts as pressed only in the frame it goes down: one that was already down is
/// never latched, every latched button is down, and every button that went down is latched.
pub proof fn lemma_latched_buttons(now: u32, last: u32)
    ensures
        (now & !last) & last == 0,
        (now & !last) & now == now & !last,
        (now & !last) | last == now | last,
{
    assert((now & !last) & last == 0) by (bit_vector);
    assert((now & !last) & now == now & !last) by (bit_vector);
    assert((now & !last) | last == now | last) by (bit_vector);
}

/// How much of the frame statistics the overlay shows.
#[derive(Debug, Copy, Clone, PartialEq, Eq, Structural)]
pub enum StatsLevel {
    Off,
    Fps,
    Overall,
    DetailedCpuDraw,
}

/// The level after `level` when the select button is pressed.
pub open spec fn stats_after(level: StatsLevel) -> StatsLevel {
    match level {
        StatsLevel::Off => StatsLevel::Fps,
        StatsLevel::Fps => StatsLevel::Overall,
        StatsLevel::Overall => StatsLevel::DetailedCpuDraw,
        StatsLevel::DetailedCpuDraw => StatsLevel::Off,
    }
}

/// The level after `level` when the select button is pressed.
pub fn next_stats_level(level: StatsLevel) -> (r: StatsLevel)
    ensures
        r == stats_after(level),
{
    match level {
        StatsLevel::Off => StatsLevel::Fps,
        StatsLevel::Fps => StatsLevel::Overall,
        StatsLevel::Overall => StatsLevel::DetailedCpuDraw,
        StatsLevel::DetailedCpuDraw => StatsLevel::Off,
    }
}

/// Four presses of select bring the overlay back to where it was, and no fewer do.
pub proof fn lemma_stats_cycle(level: StatsLevel)
    ensures
        stats_after(stats_after(stats_after(stats_after(level)))) == level,
        stats_after(level) != level,
        stats_after(stats_after(level)) != level,
        stats_after(stats_after(stats_after(level))) != level,
{
}

} // verus!
