use wurstenstein::assets::{alignment_padding, append_padded_texture, Music, Texture};
use wurstenstein::audio::{plan_music, start_music, track_data, MusicRequest, RuleSet, SoundRequest, Track};
use wurstenstein::controller::bullet::{bullet_tick, BulletKind, BulletState};
use wurstenstein::controller::enemy::{enemy_tick, EnemyKind, EnemyState};
use wurstenstein::controller::player::{
    LifeInput, LifeState, PlayerAction, PlayerLife, Supplies, MAX_AMMO, MAX_HEALTH,
};
use wurstenstein::controller::powerup::{powerup_tick, PowerupKind, PowerupState};
use wurstenstein::controller::slots::{find_spawn_slot, first_free, place_in_first_free};
use wurstenstein::modplay::{ModAction, ModRule};
use wurstenstein::scene::{
    latched_buttons, next_stats_level, scene_event, ScenePhase, SceneEvent, StatsLevel,
};

const CALM: LifeInput = LifeInput { jump_started: false, at_death_barrier: false, dying_over: false };

#[test]
fn powerup_colors() {
    assert_eq!(PowerupKind::Health.get_color(), [255, 0, 0]);
    assert_eq!(PowerupKind::Energy.get_color(), [128, 128, 255]);
    assert_eq!(PowerupKind::Speed.get_color(), [0, 255, 0]);
}

#[test]
fn kinds_from_rolls() {
    assert_eq!(PowerupKind::from_roll(0), PowerupKind::Health);
    assert_eq!(PowerupKind::from_roll(4), PowerupKind::Energy);
    assert_eq!(PowerupKind::from_roll(8), PowerupKind::Speed);
    assert_eq!(EnemyKind::from_roll(10), EnemyKind::Apple);
    assert_eq!(EnemyKind::from_roll(7), EnemyKind::Pear);
    assert_eq!(EnemyKind::Pear.contact_damage(), 3);
    assert!(BulletKind::FromEnemy.hits_player());
    assert!(!BulletKind::FromPlayer.hits_player());
}

#[test]
fn supplies_powerups() {
    let mut s = Supplies::new();
    assert_eq!((s.health, s.ammo), (MAX_HEALTH, MAX_AMMO));
    assert!(!s.decrease_hp(7));
    assert_eq!(s.health, 3);
    s.pick_up_powerup(PowerupKind::Health);
    assert_eq!(s.health, 8);
    s.pick_up_powerup(PowerupKind::Health);
    assert_eq!(s.health, MAX_HEALTH);
    for _ in 0..MAX_AMMO {
        assert!(s.fire_bullet());
    }
    assert!(!s.fire_bullet());
    assert_eq!(s.ammo, 0);
    s.pick_up_powerup(PowerupKind::Speed);
    assert_eq!((s.health, s.ammo), (MAX_HEALTH, 0));
    s.pick_up_powerup(PowerupKind::Energy);
    assert_eq!(s.ammo, MAX_AMMO);
    assert!(s.decrease_hp(100));
    assert_eq!(s.health, 0);
}

#[test]
fn life_spawns_then_jumps() {
    let mut l = PlayerLife::new();
    assert_eq!(l.state, LifeState::Spawning);
    let step = l.update(LifeInput { jump_started: true, ..CALM });
    assert_eq!(step.action, None);
    assert_eq!(l.state, LifeState::Alive);
    let step = l.update(LifeInput { jump_started: true, ..CALM });
    assert_eq!(step.action, Some(PlayerAction::Jumped));
    assert!(!l.is_dead());
}

#[test]
fn life_falls_and_dies_once() {
    let mut l = PlayerLife::new();
    l.update(CALM);
    let step = l.update(LifeInput { at_death_barrier: true, ..CALM });
    assert!(step.reset_timer);
    assert_eq!(step.action, None);
    assert_eq!(l.state, LifeState::StartedDying);
    assert!(l.is_dead());
    let step = l.update(CALM);
    assert_eq!(step.action, Some(PlayerAction::StartedDying));
    assert!(step.shrinking);
    assert_eq!((l.supplies.health, l.supplies.ammo), (0, 0));
    let step = l.update(CALM);
    assert_eq!(step.action, None);
    let step = l.update(LifeInput { dying_over: true, ..CALM });
    assert_eq!(step.action, None);
    assert!(step.reset_timer);
    assert_eq!(l.state, LifeState::Dead);
    assert_eq!(l.update(CALM).action, Some(PlayerAction::Dead));
    assert_eq!(l.update(CALM).action, None);
    assert_eq!(l.update(CALM).action, None);
    assert!(l.is_dead());
}

#[test]
fn life_damage_and_shield() {
    let mut l = PlayerLife::new();
    l.update(CALM);
    assert!(l.decrease_hp(3, false));
    assert_eq!(l.supplies.health, 7);
    assert!(!l.decrease_hp(3, true));
    assert_eq!(l.supplies.health, 7);
    assert_eq!(l.state, LifeState::Alive);
    assert!(l.decrease_hp(20, false));
    assert_eq!(l.supplies.health, 0);
    assert_eq!(l.state, LifeState::StartedDying);
    assert_eq!(l.update(CALM).action, Some(PlayerAction::StartedDying));
}

#[test]
fn spawn_slot_search_wraps() {
    let occ = [true, false, true, true];
    assert_eq!(find_spawn_slot(&occ, 2), Some(1));
    assert_eq!(find_spawn_slot(&occ, 5), Some(1));
    assert_eq!(find_spawn_slot(&[true, true], 9), None);
    assert_eq!(find_spawn_slot(&[false, false, false], 7), Some(1));
}

#[test]
fn slot_reuse() {
    let mut v: Vec<Option<u8>> = vec![Some(1), None, Some(3)];
    assert_eq!(place_in_first_free(&mut v, 9), 1);
    assert_eq!(v, vec![Some(1), Some(9), Some(3)]);
    assert_eq!(place_in_first_free(&mut v, 4), 3);
    assert_eq!(v, vec![Some(1), Some(9), Some(3), Some(4)]);
    assert_eq!(first_free(&[false, true, true]), Some(1));
    assert_eq!(first_free(&[false, false]), None);
    assert_eq!(first_free(&[]), None);
}

#[test]
fn scene_round_flow() {
    let out = scene_event(ScenePhase::Title, SceneEvent::FirePressed);
    assert!(out.respawn);
    assert_eq!(out.phase, ScenePhase::InGame { kills: 0 });
    assert_eq!(out.music, Some(MusicRequest::InGame));
    let phase = out.phase;
    let out = scene_event(phase, SceneEvent::FirePressed);
    assert!(out.fire && !out.respawn);
    assert_eq!(scene_event(phase, SceneEvent::Shot).sound, Some(SoundRequest::PlayerShoot));
    let out = scene_event(phase, SceneEvent::EnemyKilled);
    assert_eq!(out.phase, ScenePhase::InGame { kills: 1 });
    assert_eq!(out.sound, Some(SoundRequest::EnemyDeath));
    let out = scene_event(ScenePhase::InGame { kills: 5 }, SceneEvent::TimeUp);
    assert_eq!(out.phase, ScenePhase::YoureWinner { kills: 5 });
    assert_eq!(out.music, Some(MusicRequest::Win));
    let out = scene_event(ScenePhase::YoureWinner { kills: 5 }, SceneEvent::FirePressed);
    assert_eq!(out.phase, ScenePhase::InGame { kills: 0 });
    assert!(out.respawn);
}

#[test]
fn scene_player_reports() {
    let p = ScenePhase::InGame { kills: 2 };
    assert_eq!(
        scene_event(p, SceneEvent::PowerupPicked(PowerupKind::Energy)).sound,
        Some(SoundRequest::PowerupEnergyPickup)
    );
    assert_eq!(scene_event(p, SceneEvent::Hurt).sound, Some(SoundRequest::EnemyHit));
    assert_eq!(scene_event(p, SceneEvent::Player(PlayerAction::Jumped)).sound, Some(SoundRequest::PlayerJump));
    let out = scene_event(p, SceneEvent::Player(PlayerAction::StartedDying));
    assert_eq!((out.sound, out.music), (Some(SoundRequest::PlayerDeath), Some(MusicRequest::Stop)));
    assert_eq!(out.phase, p);
    let out = scene_event(p, SceneEvent::Player(PlayerAction::Dead));
    assert_eq!(out.phase, ScenePhase::Dead);
    assert!(out.explosion);
    assert_eq!(out.music, Some(MusicRequest::Death));
    let out = scene_event(ScenePhase::Dead, SceneEvent::EnemyKilled);
    assert_eq!(out.phase, ScenePhase::Dead);
    assert_eq!((out.sound, out.music, out.respawn), (None, None, false));
}

#[test]
fn buttons_latch_once() {
    let down = 0b0110u32;
    assert_eq!(latched_buttons(down, 0), down);
    assert_eq!(latched_buttons(down, down), 0);
    assert_eq!(latched_buttons(0b0111, 0b0110), 0b0001);
}

#[test]
fn stats_overlay_cycles() {
    let mut l = StatsLevel::Off;
    let mut seen = vec![];
    for _ in 0..4 {
        l = next_stats_level(l);
        seen.push(l);
    }
    assert_eq!(seen, vec![StatsLevel::Fps, StatsLevel::Overall, StatsLevel::DetailedCpuDraw, StatsLevel::Off]);
}

#[test]
fn texture_alignment() {
    assert_eq!(alignment_padding(0x1000), 0);
    assert_eq!(alignment_padding(0x1001), 15);
    assert_eq!(alignment_padding(0x100C), 4);
    let tex = Texture { width: 1, height: 1, bytes: vec![1, 2, 3, 4] };
    let mut out = vec![9];
    append_padded_texture(&mut out, &tex, 3);
    assert_eq!(out, vec![9, 0, 0, 0, 1, 2, 3, 4]);
    let mut out = Vec::new();
    append_padded_texture(&mut out, &tex, 0);
    assert_eq!(out, vec![1, 2, 3, 4]);
}

fn tiny_module(sig: &[u8; 4]) -> Vec<u8> {
    let mut data = vec![0u8; 1084 + 256 * 4];
    data[950] = 1;
    data[1080..1084].copy_from_slice(sig);
    data
}

#[test]
fn music_plans() {
    assert_eq!(plan_music(MusicRequest::Stop), None);
    assert_eq!(plan_music(MusicRequest::Title), Some((Track::SpaceDebris, RuleSet::Title)));
    assert_eq!(plan_music(MusicRequest::InGame), Some((Track::SpaceDebris, RuleSet::InGame)));
    assert_eq!(plan_music(MusicRequest::Death), Some((Track::Humntrgt, RuleSet::Plain)));
    assert_eq!(plan_music(MusicRequest::Win), Some((Track::Brewery, RuleSet::Plain)));
    let music = Music { space_debris: vec![1], humntrgt: vec![2, 2], brewery: vec![3, 3, 3] };
    assert_eq!(track_data(&music, Track::Brewery), &[3, 3, 3]);
    assert_eq!(track_data(&music, Track::Humntrgt), &[2, 2]);
}

#[test]
fn music_starts_players() {
    let music = Music {
        space_debris: tiny_module(b"M.K."),
        humntrgt: vec![0u8; 10],
        brewery: tiny_module(b"M.K."),
    };
    let jump = [ModAction::Jump { order: 0, row: 0 }];
    let title = [ModRule { order: 0, row: 1, actions: &jump }];
    let ingame = [ModRule { order: 0, row: 2, actions: &jump }];
    assert!(start_music(MusicRequest::Stop, &music, &title, &ingame).is_none());
    assert!(start_music(MusicRequest::Death, &music, &title, &ingame).is_none());
    let p = start_music(MusicRequest::Title, &music, &title, &ingame).unwrap();
    assert_eq!(p.channels(), 4);
    assert_eq!((p.order(), p.row(), p.tick(), p.speed()), (0, 0, 0, 6));
    assert!(p.is_playable());
    let p = start_music(MusicRequest::Win, &music, &title, &ingame).unwrap();
    assert!(p.is_playable());
}

#[test]
fn enemy_life() {
    let t = enemy_tick(EnemyState::Spawn, false);
    assert_eq!((t.state, t.reset_timer, t.shoots), (EnemyState::Spawn, false, false));
    let t = enemy_tick(EnemyState::Spawn, true);
    assert_eq!((t.state, t.reset_timer, t.shoots), (EnemyState::Idle, true, false));
    let t = enemy_tick(EnemyState::Idle, false);
    assert_eq!((t.state, t.reset_timer, t.shoots), (EnemyState::Idle, false, false));
    let t = enemy_tick(EnemyState::Idle, true);
    assert_eq!((t.state, t.reset_timer, t.shoots), (EnemyState::Idle, true, true));
    let t = enemy_tick(EnemyState::Despawn, true);
    assert_eq!((t.state, t.reset_timer, t.shoots), (EnemyState::Gone, false, false));
    let t = enemy_tick(EnemyState::Gone, true);
    assert_eq!((t.state, t.reset_timer, t.shoots), (EnemyState::Gone, false, false));
}

#[test]
fn bullet_flight() {
    assert_eq!(bullet_tick(BulletState::Flying, false), (BulletState::Flying, false));
    assert_eq!(bullet_tick(BulletState::Flying, true), (BulletState::Despawn, true));
    assert_eq!(bullet_tick(BulletState::Despawn, false), (BulletState::Despawn, false));
    assert_eq!(bullet_tick(BulletState::Despawn, true), (BulletState::Gone, false));
    assert_eq!(bullet_tick(BulletState::Gone, true), (BulletState::Gone, false));
}

#[test]
fn powerup_life() {
    assert_eq!(powerup_tick(PowerupState::Spawn, true), (PowerupState::Floating, true));
    assert_eq!(powerup_tick(PowerupState::Spawn, false), (PowerupState::Spawn, false));
    assert_eq!(powerup_tick(PowerupState::Floating, true), (PowerupState::Floating, false));
    assert_eq!(powerup_tick(PowerupState::PickedUp, true), (PowerupState::Gone, false));
    assert_eq!(powerup_tick(PowerupState::Gone, false), (PowerupState::Gone, false));
}
