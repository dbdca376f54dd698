//! What the audio threads are asked to do, and how a music request picks a song.
use vstd::prelude::*;

use crate::assets::Music;
use crate::modplay::model::{accepts, PlayerState};
use crate::modplay::player::rules_view;
use crate::modplay::{ModPlayer, ModRule};

verus! {

/// A change of the music.
#[derive(Debug, Clone, Copy, PartialEq, Eq, Structural)]
pub enum MusicRequest {
    Title,
    Stop,
    InGame,
    Death,
    Win,
}

/// A sound effect to play.
#[derive(Debug, Clone, Copy, PartialEq, Eq, Structural)]
pub enum SoundRequest {
    PlayerJump,
    PlayerExplosion,
    PlayerDeath,
    PlayerShoot,
    EnemyHit,
    EnemyDeath,
    EnemyExplosion,
    EnemyShoot,
    PowerupHpPickup,
    PowerupEnergyPickup,
    PowerupSpeedPickup,
}

/// The songs of the game.
#[derive(Debug, Clone, Copy, PartialEq, Eq, Structural)]
pub enum Track {
    SpaceDebris,
    Humntrgt,
    Brewery,
}

/// The rules a song is played with.
#[derive(Debug, Clone, Copy, PartialEq, Eq, Structural)]
pub enum RuleSet {
    /// The song plays as written.
    Plain,
    /// The title loop.
    Title,
    /// The in-game loop.
    InGame,
}

/// The rate the music is mixed at, in Hz.
pub const MIXING_RATE: u32 = 44100;

/// The song and rules a request asks for; `None` silences the music.
pub open spec fn request_plan(req: MusicRequest) -> Option<(Track, RuleSet)> {
    match req {
        MusicRequest::Stop => None,
        MusicRequest::Title => Some((Track::SpaceDebris, RuleSet::Title)),
        MusicRequest::InGame => Some((Track::SpaceDebris, RuleSet::InGame)),
        MusicRequest::Death => Some((Track::Humntrgt, RuleSet::Plain)),
        MusicRequest::Win => Some((Track::Brewery, RuleSet::Plain)),
    }
}

/// The bytes of a song.
pub open spec fn track_bytes(music: &Music, t: Track) -> Seq<u8> {
    match t {
        Track::SpaceDebris => music.space_debris@,
        Track::Humntrgt => music.humntrgt@,
        Track::Brewery => music.brewery@,
    }
}

/// The rules of a rule set, given the title and in-game tables.
pub open spec fn chosen_rules<'a>(
    set: RuleSet,
    title: &'a [ModRule<'a>],
    ingame: &'a [ModRule<'a>],
) -> Option<&'a [ModRule<'a>]> {
    match set {
        RuleSet::Plain => None,
        RuleSet::Title => Some(title),
        RuleSet::InGame => Some(ingame),
    }
}

/// The song and rules a request asks for; `None` silences the music.
pub fn plan_music(req: MusicRequest) -> (r: Option<(Track, RuleSet)>)
    ensures
        r == request_plan(req),
{
    match req {
        MusicRequest::Stop => None,
        MusicRequest::Title => Some((Track::SpaceDebris, RuleSet::Title)),
        MusicRequest::InGame => Some((Track::SpaceDebris, RuleSet::InGame)),
        MusicRequest::Death => Some((Track::Humntrgt, RuleSet::Plain)),
        MusicRequest::Win => Some((Track::Brewery, RuleSet::Plain)),
    }
}

/// The bytes of a song.
pub fn track_data<'a>(music: &'a Music, t: Track) -> (r: &'a [u8])
    ensures
        r@ == track_bytes(music, t),
{
    match t {
        Track::SpaceDebris => music.space_debris.as_slice(),
        Track::Humntrgt => music.humntrgt.as_slice(),
        Track::Brewery => music.brewery.as_slice(),
    }
}

/// A fresh four-channel player for what `req` asks: `None` for `Stop`, or when the song is
/// not a module the player takes. The title and in-game songs get their rule tables.
pub fn start_music<'a>(
    req: MusicRequest,
    music: &'a Music,
    title: &'a [ModRule<'a>],
    ingame: &'a [ModRule<'a>],
) -> (r: Option<ModPlayer<'a, 4>>)
    ensures
        r is Some <==> (request_plan(req) matches Some(plan) && accepts(
            track_bytes(music, plan.0),
            4,
        )),
        r matches Some(p) ==> request_plan(req) matches Some(plan) && (PlayerState {
            rules: None,
            ..p@
        }).loaded_from(track_bytes(music, plan.0), MIXING_RATE, 4) && p@.rules == rules_view(
            chosen_rules(plan.1, title, ingame),
        ),
{
    match plan_music(req) {
        None => None,
        Some((track, set)) => {
            let data = track_data(music, track);
            match ModPlayer::<4>::new(data, MIXING_RATE) {
                None => None,
                Some(mut p) => {
                    let ghost loaded = p@;
                    let rules = match set {
                        RuleSet::Plain => None,
                        RuleSet::Title => Some(title),
                        RuleSet::InGame => Some(ingame),
                    };
                    p.set_rules(rules);
                    assert(PlayerState { rules: None, ..p@ } == loaded);
                    Some(p)
                },
            }
        },
    }
}

} // verus!
