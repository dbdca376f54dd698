//! Properties of the player that relate several calls.
use vstd::prelude::*;

use super::model::{cell_note, channel_settled, div_trunc, loop_lengths, mix_channel, next_position, rewind, fresh_channel, plain_cell, plain_effect, rules_ok, PlayerState};
use super::types::{ModRule, PaulaChannel, SampleHeader, TrackerChannel};
use super::player::{lemma_mix_channels_valid, lemma_row_channels_valid, lemma_rules_valid, lemma_step_valid};

verus! {

/// Rendering `n` frames and then `m` more gives the same state, and the same samples in the
/// same order, as rendering `n + m` frames at once.
pub proof fn lemma_render_split<'a>(s: PlayerState<'a>, n: nat, m: nat)
    ensures
        s.render_run(n + m).0 == s.render_run(n).0.render_run(m).0,
        s.render_run(n + m).1 == s.render_run(n).1 + s.render_run(n).0.render_run(m).1,
    decreases m,
{
    if m == 0 {
        assert(s.render_run(n).1 + Seq::<i16>::empty() =~= s.render_run(n).1);
    } else {
        lemma_render_split(s, n, (m - 1) as nat);
        assert((n + m - 1) as nat == n + (m - 1) as nat);
        let mid = s.render_run(n);
        let (a, out_a) = mid.0.render_run((m - 1) as nat);
        assert(s.render_run((n + m - 1) as nat) == (a, mid.1 + out_a));
        if !a.stuck() {
            let (_, x, y) = a.frame();
            assert(s.render_run(n + m).1 =~= mid.1 + (out_a + seq![x, y]));
        }
    }
}

/// Rendering no frames changes nothing.
pub proof fn lemma_render_nothing<'a>(s: PlayerState<'a>)
    ensures
        s.render_run(0) == (s, Seq::<i16>::empty()),
{
}

/// Rendering `n` frames yields at most `2 * n` samples, exactly `2 * n` unless rendering got
/// stuck on a missing cell.
pub proof fn lemma_render_len<'a>(s: PlayerState<'a>, n: nat)
    ensures
        s.render_run(n).1.len() <= 2 * n,
        s.render_run(n).1.len() % 2 == 0,
        !s.render_run(n).0.stuck() ==> s.render_run(n).1.len() == 2 * n,
    decreases n,
{
    if n > 0 {
        lemma_render_len(s, (n - 1) as nat);
    }
}

/// A jump to a given order (not -1 or -2) does not depend on where the song was, what it
/// was playing, or which rules it had: two players of the same module jump to the same state.
pub proof fn lemma_jump_forgets_position<'a>(s: PlayerState<'a>, t: PlayerState<'a>, dest: i32)
    requires
        s.reset() == t.reset(),
        dest != -1,
        dest != -2,
    ensures
        s.jump_halts(dest) == t.jump_halts(dest),
        s.jump_result(dest) == t.jump_result(dest),
{
    assert(s.orders == s.reset().orders);
    assert(t.orders == t.reset().orders);
    assert(s.jump_target(dest) == t.jump_target(dest));
}

/// A reset player is at the first row of the first order, at normal tempo, with silent
/// channels and no rules.
pub proof fn lemma_reset_start<'a>(s: PlayerState<'a>)
    requires
        s.file_ok(),
    ensures
        s.reset().valid(),
        s.reset().order == 0,
        s.reset().row == 0,
        s.reset().tick == 0,
        s.reset().speed == 6,
        s.reset().rules is None,
        s.reset().reset() == s.reset(),
{
    assert(s.reset().reset() =~= s.reset());
}

/// Rendering keeps a valid player valid, with its channels and samples.
pub proof fn lemma_render_keeps_valid<'a>(s: PlayerState<'a>, n: nat)
    requires
        s.valid(),
    ensures
        s.render_run(n).0.valid(),
        s.render_run(n).0.channels == s.channels,
        s.render_run(n).0.ch.len() == s.ch.len(),
        s.render_run(n).0.samples == s.samples,
        s.render_run(n).0.same_module(s),
    decreases n,
{
    if n > 0 {
        lemma_render_keeps_valid(s, (n - 1) as nat);
        let p = s.render_run((n - 1) as nat).0;
        if !p.stuck() {
            if p.audiotick == 0 {
                lemma_step_valid(p);
            }
            let q = p.frame_start();
            lemma_mix_channels_valid(q, p.channels as nat, p.major_mul(), p.minor_mul());
        }
    }
}

/// Seeking keeps a valid player valid, with its channels.
pub proof fn lemma_seek_keeps_valid<'a>(s: PlayerState<'a>, prev: u8, target: u8, fuel: nat)
    requires
        s.valid(),
        s.seek(prev, target, fuel) is Some,
    ensures
        s.seek(prev, target, fuel).unwrap().valid(),
        s.seek(prev, target, fuel).unwrap().channels == s.channels,
        s.seek(prev, target, fuel).unwrap().ch.len() == s.ch.len(),
    decreases fuel,
{
    if s.order < target && fuel > 0 {
        lemma_step_valid(s);
        let t = s.step();
        if prev <= t.order {
            lemma_seek_keeps_valid(t, t.order, target, (fuel - 1) as nat);
        }
    }
}

/// A valid player has between 2 and 32 channels (and no more than its room for channels) and
/// a speed between 1 and 31 ticks per row; a tick, rendering and a jump keep it valid and
/// keep its channel count and its room for channels.
pub proof fn lemma_channels_and_speed_kept<'a>(s: PlayerState<'a>, n: nat, dest: i32)
    requires
        s.valid(),
    ensures
        2 <= s.channels <= 32,
        s.channels <= s.ch.len(),
        1 <= s.speed <= 31,
        s.reads_ok() ==> s.step().valid() && s.step().channels == s.channels && s.step().ch.len() == s.ch.len(),
        s.render_run(n).0.valid() && s.render_run(n).0.channels == s.channels && s.render_run(n).0.ch.len()
            == s.ch.len(),
        s.jump_halts(dest) ==> s.jump_result(dest).valid() && s.jump_result(dest).channels == s.channels
            && s.jump_result(dest).ch.len() == s.ch.len(),
{
    if s.reads_ok() {
        lemma_step_valid(s);
    }
    lemma_render_keeps_valid(s, n);
    if s.jump_halts(dest) {
        lemma_reset_start(s);
        let f = choose|f: nat| s.reset().seek(0, s.jump_target(dest), f) is Some;
        lemma_seek_keeps_valid(s.reset(), 0, s.jump_target(dest), f);
    }
}

/// Two states of the same module restart to the same state.
pub proof fn lemma_same_module_restart<'a>(s: PlayerState<'a>, t: PlayerState<'a>)
    requires
        s.same_module(t),
    ensures
        s.reset() == t.reset(),
{
    assert(s.reset().ch =~= t.reset().ch);
}

/// Seeking gives the same state with any fuel that is enough.
pub proof fn lemma_seek_fuel<'a>(s: PlayerState<'a>, prev: u8, target: u8, f: nat, g: nat)
    requires
        s.seek(prev, target, f) is Some,
        s.seek(prev, target, g) is Some,
    ensures
        s.seek(prev, target, f) == s.seek(prev, target, g),
    decreases f,
{
    if s.order < target && f > 0 && g > 0 {
        let t = s.step();
        if prev <= t.order {
            lemma_seek_fuel(t, t.order, target, (f - 1) as nat, (g - 1) as nat);
        }
    }
}

/// Seeking keeps the module.
pub proof fn lemma_seek_keeps_module<'a>(s: PlayerState<'a>, prev: u8, target: u8, fuel: nat)
    requires
        s.valid(),
        s.seek(prev, target, fuel) is Some,
    ensures
        s.seek(prev, target, fuel).unwrap().same_module(s),
    decreases fuel,
{
    if s.order < target && fuel > 0 {
        lemma_step_valid(s);
        let t = s.step();
        if prev <= t.order {
            lemma_seek_keeps_module(t, t.order, target, (fuel - 1) as nat);
        }
    }
}

/// Every call keeps the module a player plays: after a tick, rendering, new rules or a
/// jump, a restart gives the same state as before.
pub proof fn lemma_calls_keep_the_module<'a>(s: PlayerState<'a>, n: nat, rules: Option<Seq<ModRule<'a>>>, dest: i32)
    requires
        s.valid(),
    ensures
        s.reads_ok() ==> s.step().reset() == s.reset(),
        s.render_run(n).0.reset() == s.reset(),
        (PlayerState { rules, ..s }).reset() == s.reset(),
        s.jump_halts(dest) ==> s.jump_result(dest).reset() == s.reset(),
{
    if s.reads_ok() {
        lemma_step_valid(s);
        lemma_same_module_restart(s.step(), s);
    }
    lemma_render_keeps_valid(s, n);
    lemma_same_module_restart(s.render_run(n).0, s);
    lemma_same_module_restart(PlayerState { rules, ..s }, s);
    if s.jump_halts(dest) {
        lemma_reset_start(s);
        let f = choose|f: nat| s.reset().seek(0, s.jump_target(dest), f) is Some;
        lemma_seek_keeps_module(s.reset(), 0, s.jump_target(dest), f);
        lemma_same_module_restart(s.jump_result(dest), s.reset());
        lemma_reset_start(s);
    }
}

/// A jump ends where a freshly loaded player of the same module ends when ticked until its
/// order reaches the target or goes back to an earlier order, whatever the player did
/// before: rules are dropped, and the number of ticks is the first at which it stops.
pub proof fn lemma_jump_is_fresh_replay<'a>(s: PlayerState<'a>, q: PlayerState<'a>, dest: i32, f: nat)
    requires
        q == q.reset(),
        s.reset() == q,
        q.seek(0, s.jump_target(dest), f) is Some,
    ensures
        s.jump_halts(dest),
        s.jump_result(dest) == q.seek(0, s.jump_target(dest), f).unwrap(),
        s.jump_result(dest).rules is None,
{
    let g = choose|g: nat| s.reset().seek(0, s.jump_target(dest), g) is Some;
    lemma_seek_fuel(q, 0, s.jump_target(dest), f, g);
    lemma_seek_no_rules(q, 0, s.jump_target(dest), f);
}

/// The fields that decide where the song goes next are the same in both states.
spec fn same_course<'a>(a: PlayerState<'a>, b: PlayerState<'a>) -> bool {
    &&& a.order == b.order
    &&& a.row == b.row
    &&& a.tick == b.tick
    &&& a.speed == b.speed
    &&& a.maxtick == b.maxtick
    &&& a.skiporderrequest == b.skiporderrequest
    &&& a.orders == b.orders
    &&& a.channels == b.channels
    &&& a.ordertable == b.ordertable
    &&& a.patterndata == b.patterndata
    &&& a.rules == b.rules
}

proof fn lemma_row_effect_plain<'a>(s: PlayerState<'a>, i: int, c: TrackerChannel<'a>, note_raw: u16, eff: u8, effval: u8)
    requires
        plain_effect(eff, effval),
    ensures
        same_course(s.row_effect(i, c, note_raw, eff, effval), s),
{
    reveal(PlayerState::row_effect);
}

proof fn lemma_row_channels_plain<'a>(s: PlayerState<'a>, k: nat)
    requires
        forall|i: int| 0 <= i < k ==> #[trigger] plain_cell(s, i),
    ensures
        same_course(s.row_channels(k), s),
    decreases k,
{
    if k > 0 {
        lemma_row_channels_plain(s, (k - 1) as nat);
        let t = s.row_channels((k - 1) as nat);
        let i = k - 1;
        assert(plain_cell(s, i));
        assert(t.cell_index(i) == s.cell_index(i));
        let off = t.cell_index(i);
        let b0 = t.patterndata[off];
        let b1 = t.patterndata[off + 1];
        let b2 = t.patterndata[off + 2];
        let b3 = t.patterndata[off + 3];
        let c = t.row_prepare(t.ch[i], b0, b1, b2, b3);
        lemma_row_effect_plain(t, i, c, cell_note(b0, b1), b2 & 0x0F, b3);
    }
}

proof fn lemma_tick_channels_course<'a>(s: PlayerState<'a>, k: nat)
    ensures
        same_course(s.tick_channels(k), s),
    decreases k,
{
    if k > 0 {
        lemma_tick_channels_course(s, (k - 1) as nat);
    }
}

/// Without rules, and while the row played holds no effect that moves the song or changes its
/// tempo, a tick counts the ticks of a row modulo the speed; at the end of a row the song goes
/// to the next row, and after row 63 to the next order, or back to the first order after the
/// last one. (A loaded player has its tick counter in step with the row, and every call keeps
/// it so: see `lemma_calls_keep_settled`.)
pub proof fn lemma_plain_step<'a>(s: PlayerState<'a>)
    requires
        s.valid(),
        s.course_ok(),
        s.rules is None,
        s.row < 64,
        s.row_plain(),
    ensures
        s.step().tick == (s.tick + 1) % (s.speed as int),
        s.step().speed == s.speed,
        s.step().maxtick == s.speed,
        s.step().skiporderrequest < 0,
        s.step().rules is None,
        s.step().tick != 0 ==> s.step().row == s.row && s.step().order == s.order,
        s.step().tick == 0 ==> s.step().row == (s.row + 1) % 64 && s.step().order == (if s.row == 63 {
            if s.order + 1 < s.orders { s.order + 1 } else { 0 }
        } else {
            s.order as int
        }),
{
    assert(s.maxtick == s.speed && s.tick < s.speed);
    let s1 = if s.tick == 0 { s.row_start() } else { s };
    if s.tick == 0 {
        let sb = PlayerState { skiporderrequest: -1i8, ..s.after_rules() };
        assert(sb == PlayerState { skiporderrequest: -1i8, ..s });
        assert forall|i: int| 0 <= i < s.channels implies #[trigger] plain_cell(sb, i) by {
            assert(plain_cell(s, i));
            assert(sb.cell_index(i) == s.cell_index(i));
        }
        lemma_row_channels_plain(sb, s.channels as nat);
    }
    lemma_tick_channels_course(s1, s.channels as nat);
    if s.tick + 1 < s.speed {
        vstd::arithmetic::div_mod::lemma_small_mod((s.tick + 1) as nat, s.speed as nat);
    } else {
        vstd::arithmetic::div_mod::lemma_mod_self_0(s.speed as int);
    }
}

/// A call that changes a player: new rules, a tick, rendering `n` frames, or a jump.
pub enum PlayerCall<'a> {
    SetRules(Option<Seq<ModRule<'a>>>),
    Process,
    Render(nat),
    Jump(i32),
}

/// The call may be made on the state: the rules are well formed, the tick reads cells that
/// exist, the samples are complete for rendering, the jump ends.
pub open spec fn call_ok<'a>(s: PlayerState<'a>, c: PlayerCall<'a>) -> bool {
    match c {
        PlayerCall::SetRules(r) => rules_ok(r),
        PlayerCall::Process => s.reads_ok(),
        PlayerCall::Render(_) => s.samples_complete(),
        PlayerCall::Jump(dest) => s.jump_halts(dest),
    }
}

/// The state after the call, as `set_rules`, `process`, `render` and `jump` state it.
pub open spec fn after_call<'a>(s: PlayerState<'a>, c: PlayerCall<'a>) -> PlayerState<'a> {
    match c {
        PlayerCall::SetRules(r) => PlayerState { rules: r, ..s },
        PlayerCall::Process => s.step(),
        PlayerCall::Render(n) => s.render_run(n).0,
        PlayerCall::Jump(dest) => s.jump_result(dest),
    }
}

/// The state after the calls, in order.
pub open spec fn after_calls<'a>(s: PlayerState<'a>, cs: Seq<PlayerCall<'a>>) -> PlayerState<'a>
    decreases cs.len(),
{
    if cs.len() == 0 {
        s
    } else {
        after_call(after_calls(s, cs.drop_last()), cs.last())
    }
}

/// Each call may be made on the state that the calls before it left.
pub open spec fn calls_ok<'a>(s: PlayerState<'a>, cs: Seq<PlayerCall<'a>>) -> bool {
    forall|k: int| 0 <= k < cs.len() ==> #[trigger] call_ok(after_calls(s, cs.take(k)), cs[k])
}

/// Over any sequence of calls on a valid player, the player stays valid and keeps its module,
/// its channel count (between 2 and 32, and within its room for channels) and a speed between
/// 1 and 31.
pub proof fn lemma_calls_keep_channels_and_speed<'a>(s: PlayerState<'a>, cs: Seq<PlayerCall<'a>>)
    requires
        s.valid(),
        calls_ok(s, cs),
    ensures
        after_calls(s, cs).valid(),
        after_calls(s, cs).channels == s.channels,
        2 <= after_calls(s, cs).channels <= 32,
        after_calls(s, cs).channels <= after_calls(s, cs).ch.len(),
        after_calls(s, cs).ch.len() == s.ch.len(),
        1 <= after_calls(s, cs).speed <= 31,
        after_calls(s, cs).reset() == s.reset(),
    decreases cs.len(),
{
    if cs.len() > 0 {
        let init = cs.drop_last();
        assert forall|k: int| 0 <= k < init.len() implies #[trigger] call_ok(after_calls(s, init.take(k)), init[k]) by {
            assert(init.take(k) =~= cs.take(k));
            assert(call_ok(after_calls(s, cs.take(k)), cs[k]));
        }
        lemma_calls_keep_channels_and_speed(s, init);
        let p = after_calls(s, init);
        let k = cs.len() - 1;
        assert(cs.take(k) =~= init);
        assert(call_ok(after_calls(s, cs.take(k)), cs[k]));
        match cs.last() {
            PlayerCall::SetRules(r) => {
                lemma_calls_keep_the_module(p, 0, r, 0);
            },
            PlayerCall::Process => {
                lemma_channels_and_speed_kept(p, 0, 0);
                lemma_calls_keep_the_module(p, 0, None, 0);
            },
            PlayerCall::Render(n) => {
                lemma_channels_and_speed_kept(p, n, 0);
                lemma_calls_keep_the_module(p, n, None, 0);
            },
            PlayerCall::Jump(dest) => {
                lemma_channels_and_speed_kept(p, 0, dest);
                lemma_calls_keep_the_module(p, 0, None, dest);
            },
        }
        lemma_channels_and_speed_kept(after_calls(s, cs), 0, 0);
    }
}

proof fn lemma_tick_channels_settle<'a>(s: PlayerState<'a>, k: nat)
    requires
        k <= s.ch.len(),
    ensures
        s.tick_channels(k).ch.len() == s.ch.len(),
        forall|i: int| 0 <= i < k ==> #[trigger] channel_settled(s.tick_channels(k).ch[i]),
    decreases k,
{
    if k > 0 {
        lemma_tick_channels_settle(s, (k - 1) as nat);
        let t = s.tick_channels((k - 1) as nat);
        assert forall|i: int| 0 <= i < k implies #[trigger] channel_settled(s.tick_channels(k).ch[i]) by {
            if i < k - 1 {
                assert(s.tick_channels(k).ch[i] == t.ch[i]);
            }
        }
    }
}

/// A tick settles every channel of the module.
pub proof fn lemma_step_settled<'a>(s: PlayerState<'a>)
    requires
        s.valid(),
        s.reads_ok(),
    ensures
        s.step().settled(),
{
    let s1 = if s.tick == 0 { s.row_start() } else { s };
    if s.tick == 0 {
        lemma_rules_valid(s);
        let sb = PlayerState { skiporderrequest: -1i8, ..s.after_rules() };
        lemma_row_channels_valid(sb, s.channels as nat);
    }
    lemma_step_valid(s);
    lemma_tick_channels_settle(s1, s.channels as nat);
    let t = s1.tick_channels(s.channels as nat);
    assert forall|i: int| 0 <= i < s.step().channels implies #[trigger] channel_settled(s.step().ch[i]) by {
        assert(channel_settled(t.ch[i]));
    }
}

proof fn lemma_mix_channels_settle<'a>(s: PlayerState<'a>, k: nat, major: i32, minor: i32)
    requires
        k <= s.ch.len(),
    ensures
        s.mix_channels(k, major, minor).0 == (PlayerState { ch: s.mix_channels(k, major, minor).0.ch, ..s }),
        s.mix_channels(k, major, minor).0.ch.len() == s.ch.len(),
        forall|i: int| 0 <= i < s.ch.len() ==>
            #[trigger] channel_settled(s.mix_channels(k, major, minor).0.ch[i]) == channel_settled(s.ch[i]),
    decreases k,
{
    if k > 0 {
        lemma_mix_channels_settle(s, (k - 1) as nat, major, minor);
        let t = s.mix_channels((k - 1) as nat, major, minor).0;
        let out = s.mix_channels(k, major, minor).0;
        assert forall|i: int| 0 <= i < s.ch.len() implies
            #[trigger] channel_settled(out.ch[i]) == channel_settled(s.ch[i]) by {
            assert(channel_settled(t.ch[i]) == channel_settled(s.ch[i]));
        }
    }
}

/// A tick keeps the tick counter in step with the row's length.
pub proof fn lemma_step_course<'a>(s: PlayerState<'a>)
    requires
        s.valid(),
        s.reads_ok(),
        s.course_ok(),
    ensures
        s.step().course_ok(),
{
    let sb = PlayerState { skiporderrequest: -1i8, ..s.after_rules() };
    let s1 = if s.tick == 0 { s.row_start() } else { s };
    lemma_rules_valid(s);
    if s.tick == 0 {
        lemma_row_channels_valid(sb, s.channels as nat);
        if sb.row_plain() {
            lemma_row_channels_plain(sb, s.channels as nat);
        }
    }
    lemma_tick_channels_course(s1, s.channels as nat);
    let t = s.step();
    if t.tick != 0 && t.row_plain() {
        if s.tick == 0 {
            assert forall|i: int| 0 <= i < sb.channels implies #[trigger] plain_cell(sb, i) by {
                assert(plain_cell(t, i));
                assert(t.cell_index(i) == sb.cell_index(i));
            }
        } else {
            assert forall|i: int| 0 <= i < s.channels implies #[trigger] plain_cell(s, i) by {
                assert(plain_cell(t, i));
                assert(t.cell_index(i) == s.cell_index(i));
            }
        }
    }
}

/// Rendering keeps every channel settled, and the tick counter in step with the row.
pub proof fn lemma_render_settles<'a>(s: PlayerState<'a>, n: nat)
    requires
        s.valid(),
    ensures
        s.settled() ==> s.render_run(n).0.settled(),
        s.course_ok() ==> s.render_run(n).0.course_ok(),
    decreases n,
{
    if n > 0 {
        lemma_render_settles(s, (n - 1) as nat);
        lemma_render_keeps_valid(s, (n - 1) as nat);
        let p = s.render_run((n - 1) as nat).0;
        if !p.stuck() {
            if p.audiotick == 0 {
                lemma_step_valid(p);
                lemma_step_settled(p);
                if p.course_ok() {
                    lemma_step_course(p);
                }
            }
            let q = p.frame_start();
            let base = if p.audiotick == 0 { p.step() } else { p };
            assert(q.row_plain() == base.row_plain()) by {
                assert forall|i: int| 0 <= i < q.channels implies plain_cell(q, i) == plain_cell(base, i) by {
                    assert(q.cell_index(i) == base.cell_index(i));
                }
            }
            lemma_mix_channels_settle(q, p.channels as nat, p.major_mul(), p.minor_mul());
            let r = s.render_run(n).0;
            if p.settled() || p.audiotick == 0 {
                assert forall|i: int| 0 <= i < r.channels implies #[trigger] channel_settled(r.ch[i]) by {
                    assert(channel_settled(q.ch[i]));
                }
            }
            assert(r.row_plain() == q.row_plain()) by {
                assert forall|i: int| 0 <= i < r.channels implies plain_cell(r, i) == plain_cell(q, i) by {
                    assert(r.cell_index(i) == q.cell_index(i));
                }
            }
        }
    }
}

/// Seeking keeps every channel settled, and the tick counter in step with the row.
proof fn lemma_seek_settles<'a>(s: PlayerState<'a>, prev: u8, target: u8, fuel: nat)
    requires
        s.valid(),
        s.settled(),
        s.course_ok(),
        s.seek(prev, target, fuel) is Some,
    ensures
        s.seek(prev, target, fuel).unwrap().settled(),
        s.seek(prev, target, fuel).unwrap().course_ok(),
    decreases fuel,
{
    if s.order < target && fuel > 0 {
        lemma_step_valid(s);
        lemma_step_settled(s);
        lemma_step_course(s);
        let t = s.step();
        if prev <= t.order {
            lemma_seek_settles(t, t.order, target, (fuel - 1) as nat);
        }
    }
}

/// A player restarted, or after a jump, has every channel settled and its tick counter in
/// step with the row.
pub proof fn lemma_restart_settles<'a>(s: PlayerState<'a>, dest: i32)
    requires
        s.channels <= s.ch.len(),
    ensures
        s.reset().settled(),
        s.reset().course_ok(),
        s.valid() && s.jump_halts(dest) ==> s.jump_result(dest).settled() && s.jump_result(dest).course_ok(),
{
    assert forall|i: int| 0 <= i < s.reset().channels implies #[trigger] channel_settled(s.reset().ch[i]) by {
        assert(s.reset().ch[i] == fresh_channel::<'a>());
    }
    if s.valid() && s.jump_halts(dest) {
        lemma_reset_start(s);
        let f = choose|f: nat| s.reset().seek(0, s.jump_target(dest), f) is Some;
        lemma_seek_settles(s.reset(), 0, s.jump_target(dest), f);
    }
}

/// Over any sequence of calls, a player whose channels are settled and whose tick counter is
/// in step with the row (as a loaded player is) stays so: after every call, each channel's
/// mixer volume is between 0 and 64, its period is not negative, and a channel without a
/// period does not step through its sample.
pub proof fn lemma_calls_keep_settled<'a>(s: PlayerState<'a>, cs: Seq<PlayerCall<'a>>)
    requires
        s.valid(),
        s.settled(),
        s.course_ok(),
        calls_ok(s, cs),
    ensures
        after_calls(s, cs).settled(),
        after_calls(s, cs).course_ok(),
    decreases cs.len(),
{
    if cs.len() > 0 {
        let init = cs.drop_last();
        assert forall|k: int| 0 <= k < init.len() implies #[trigger] call_ok(after_calls(s, init.take(k)), init[k]) by {
            assert(init.take(k) =~= cs.take(k));
            assert(call_ok(after_calls(s, cs.take(k)), cs[k]));
        }
        lemma_calls_keep_settled(s, init);
        lemma_calls_keep_channels_and_speed(s, init);
        let p = after_calls(s, init);
        let k = cs.len() - 1;
        assert(cs.take(k) =~= init);
        assert(call_ok(after_calls(s, cs.take(k)), cs[k]));
        match cs.last() {
            PlayerCall::SetRules(r) => {
                let q = PlayerState { rules: r, ..p };
                assert(q.row_plain() == p.row_plain()) by {
                    assert forall|i: int| 0 <= i < q.channels implies plain_cell(q, i) == plain_cell(p, i) by {
                        assert(q.cell_index(i) == p.cell_index(i));
                    }
                }
            },
            PlayerCall::Process => {
                lemma_step_settled(p);
                lemma_step_course(p);
            },
            PlayerCall::Render(n) => {
                lemma_render_settles(p, n);
            },
            PlayerCall::Jump(dest) => {
                lemma_restart_settles(p, dest);
            },
        }
    }
}

/// Portamento down (effect 2xx) raises a channel's period by xx on every tick of a row but the
/// first, lowering the pitch; portamento up (1xx) lowers it by xx; on the first tick of a row
/// neither changes the period. (Periods are 32-bit and wrap where they would overflow.)
#[verifier::spinoff_prover]
pub proof fn lemma_portamento_moves_the_period<'a>(s: PlayerState<'a>, c: TrackerChannel<'a>)
    ensures
        c.eff == 0x02 && s.tick != 0 && c.period + c.effval <= i32::MAX ==>
            s.tick_effect(c).0.period == c.period + c.effval,
        c.eff == 0x02 && s.tick != 0 && c.period + c.effval <= i32::MAX ==>
            s.tick_effect(c).0.period >= c.period,
        c.eff == 0x01 && s.tick != 0 && c.period - c.effval >= i32::MIN ==>
            s.tick_effect(c).0.period == c.period - c.effval,
        c.eff == 0x01 && s.tick != 0 && c.period - c.effval >= i32::MIN ==>
            s.tick_effect(c).0.period <= c.period,
        (c.eff == 0x01 || c.eff == 0x02) && s.tick == 0 ==> s.tick_effect(c).0.period == c.period,
{
    reveal(PlayerState::tick_effect);
}

/// On a tick that is not the first of its row, a channel playing portamento down (2xx) ends
/// the tick with its period raised by xx (and never below 0); one playing portamento up (1xx)
/// ends it lowered by xx, but not below 0.
pub proof fn lemma_portamento_on_a_tick<'a>(s: PlayerState<'a>, i: int)
    requires
        0 <= i < s.ch.len(),
        s.tick != 0,
        i32::MIN + 255 <= s.ch[i].period <= i32::MAX - 255,
    ensures
        s.ch[i].eff == 0x02 ==> s.tick_channel(i).ch[i].period == (if s.ch[i].period + s.ch[i].effval < 0 {
            0
        } else {
            s.ch[i].period + s.ch[i].effval
        }),
        s.ch[i].eff == 0x02 && s.ch[i].period >= 0 ==> s.tick_channel(i).ch[i].period >= s.ch[i].period,
        s.ch[i].eff == 0x01 ==> s.tick_channel(i).ch[i].period == (if s.ch[i].period - s.ch[i].effval < 0 {
            0
        } else {
            s.ch[i].period - s.ch[i].effval
        }),
{
    lemma_portamento_moves_the_period(s, s.ch[i]);
}

/// On a tick that is not the first of its row, a volume slide (Axy) raises the channel's
/// volume by x, but not above 64, when x is not zero, and else lowers it by y, but not below
/// 0; a note cut (ECx) silences the channel from tick x of the row on; and a tone portamento
/// (3xx) moves the period towards the slide target by xx (by the remembered amount when xx is
/// zero) without passing it.
#[verifier::spinoff_prover]
pub proof fn lemma_tick_effects_move_towards<'a>(s: PlayerState<'a>, c: TrackerChannel<'a>)
    requires
        0 <= c.volume <= 64,
        i32::MIN + 255 <= c.period <= i32::MAX - 255,
    ensures
        c.eff == 0x0A && s.tick != 0 && (c.effval >> 4) != 0 ==> s.tick_effect(c).0.volume == (if c.volume
            + (c.effval >> 4) > 64 { 64 } else { c.volume + (c.effval >> 4) }),
        c.eff == 0x0A && s.tick != 0 && (c.effval >> 4) == 0 ==> s.tick_effect(c).0.volume == (if c.volume
            - (c.effval & 0x0F) < 0 { 0 } else { c.volume - (c.effval & 0x0F) }),
        c.eff == 0x0E && (c.effval >> 4) == 0x0C && s.tick >= (c.effval & 0x0F) ==> s.tick_effect(c).0.volume == 0,
        c.eff == 0x0E && (c.effval >> 4) == 0x0C && s.tick < (c.effval & 0x0F) ==> s.tick_effect(c).0.volume == c.volume,
        ({
            let amt: int = if c.effval == 0 { c.slideamount as int } else { c.effval as int };
            let p = s.tick_effect(c).0.period;
            c.eff == 0x03 && s.tick != 0 ==> {
                &&& c.slidenote >= c.period ==> c.period <= p <= c.slidenote
                &&& c.slidenote <= c.period ==> c.slidenote <= p <= c.period
                &&& p == c.slidenote || p - c.period == amt || c.period - p == amt
            }
        }),
        c.eff == 0x00 && c.effval != 0 && s.tick % 3 == 0 ==> s.tick_effect(c).0.period == c.note as i32,
{
    reveal(PlayerState::tick_effect);
    let e = c.effval;
    assert((e >> 4) != 0 <==> e > 0x0F) by (bit_vector);
    assert((e >> 4) <= 15 && (e & 0x0F) <= 15) by (bit_vector);
}

/// A channel's share of a frame scales with its mixer volume: a channel at volume 0 adds
/// nothing to either side, and a channel over a stretch of equal bytes `b` adds `b * volume`
/// (in 16.16 fixed point, weighted by the side's weight), so at volume 32 half of what it adds
/// at 64.
#[verifier::spinoff_prover]
pub proof fn lemma_mix_scales_with_volume<'a>(g: PaulaChannel<'a>, ci: int, major: i32, minor: i32, l: i32, r: i32)
    requires
        0 <= g.volume <= 64,
        g.currentsubptr < 0x10000,
    ensures
        g.volume == 0 ==> mix_channel(g, ci, major, minor, l, r).1 == l && mix_channel(g, ci, major, minor, l, r).2 == r,
        ({
            let d = g.sample->0@;
            let ptr = rewind(g.currentptr, g.length, g.looplength);
            let nxt = next_position(ptr, g.length, g.looplength);
            let x = ((d[ptr as int] as i8) as int * g.volume as int) as i32;
            let (near, far) = if ci % 4 == 1 || ci % 4 == 2 { (minor, major) } else { (major, minor) };
            g.sample is Some && !g.muted && !(g.looplength == 0 && g.currentptr >= g.length) && d[ptr as int] == d[nxt as int]
                ==> mix_channel(g, ci, major, minor, l, r).1 == l.wrapping_add(x.wrapping_mul(near))
                && mix_channel(g, ci, major, minor, l, r).2 == r.wrapping_add(x.wrapping_mul(far))
        }),
{
    if let Some(dd) = g.sample {
        let d = dd@;
        let ptr = rewind(g.currentptr, g.length, g.looplength);
        let nxt = next_position(ptr, g.length, g.looplength);
        let sub = g.currentsubptr as int;
        let v = g.volume as int;
        let s1 = (d[ptr as int] as i8) as int;
        let s2 = (d[nxt as int] as i8) as int;
        if g.volume == 0 {
            assert((s1 * (0x10000 - sub) + s2 * sub) * v == 0) by (nonlinear_arith)
                requires v == 0;
            assert(div_trunc(0, 65536) == 0);
        }
        if d[ptr as int] == d[nxt as int] {
            assert((s1 * (0x10000 - sub) + s2 * sub) * v == (s1 * v) * 65536) by (nonlinear_arith)
                requires s1 == s2;
            let a = s1 * v;
            assert(-128 * 64 <= a <= 127 * 64) by (nonlinear_arith)
                requires -128 <= s1 <= 127, 0 <= v <= 64, a == s1 * v;
            lemma_div_trunc_exact(a);
        }
    }
}

/// At the start of a byte (no fraction into it) a channel adds that byte times its volume,
/// whatever the next byte is; and, played or muted, the generator moves on by its period in
/// 16.16 fixed point from where its position was brought back into the sample.
#[verifier::spinoff_prover]
pub proof fn lemma_mix_reads_and_steps<'a>(g: PaulaChannel<'a>, ci: int, major: i32, minor: i32, l: i32, r: i32)
    requires
        0 <= g.volume <= 64,
        g.currentsubptr < 0x10000,
        g.sample is Some,
        !(g.looplength == 0 && g.currentptr >= g.length),
    ensures
        ({
            let d = g.sample->0@;
            let ptr = rewind(g.currentptr, g.length, g.looplength);
            let x = ((d[ptr as int] as i8) as int * g.volume as int) as i32;
            let (near, far) = if ci % 4 == 1 || ci % 4 == 2 { (minor, major) } else { (major, minor) };
            g.currentsubptr == 0 && !g.muted
                ==> mix_channel(g, ci, major, minor, l, r).1 == l.wrapping_add(x.wrapping_mul(near))
                && mix_channel(g, ci, major, minor, l, r).2 == r.wrapping_add(x.wrapping_mul(far))
        }),
        ({
            let ptr = rewind(g.currentptr, g.length, g.looplength);
            let out = mix_channel(g, ci, major, minor, l, r).0;
            ptr * 65536 + g.currentsubptr + g.period < 0x1_0000_0000 * 65536 && g.currentsubptr + g.period < 0x1_0000_0000
                ==> out.currentptr * 65536 + out.currentsubptr == ptr * 65536 + g.currentsubptr + g.period
                && out.currentsubptr < 0x10000
        }),
        mix_channel(g, ci, major, minor, l, r).0.volume == g.volume,
        mix_channel(g, ci, major, minor, l, r).0.period == g.period,
{
    let d = g.sample->0@;
    let ptr = rewind(g.currentptr, g.length, g.looplength);
    let nxt = next_position(ptr, g.length, g.looplength);
    let v = g.volume as int;
    let s1 = (d[ptr as int] as i8) as int;
    let s2 = (d[nxt as int] as i8) as int;
    if g.currentsubptr == 0 {
        assert((s1 * (0x10000 - 0) + s2 * 0) * v == (s1 * v) * 65536) by (nonlinear_arith);
        let a = s1 * v;
        assert(-128 * 64 <= a <= 127 * 64) by (nonlinear_arith)
            requires -128 <= s1 <= 127, 0 <= v <= 64, a == s1 * v;
        lemma_div_trunc_exact(a);
    }
    let sub: u32 = g.currentsubptr.wrapping_add(g.period);
    if g.currentsubptr + g.period < 0x1_0000_0000 {
        assert(sub == g.currentsubptr + g.period);
        let hi: u32 = sub >> 16;
        let lo: u32 = sub & 0xFFFF;
        assert(hi as int * 65536 + lo as int == sub as int && lo < 0x10000) by (bit_vector)
            requires hi == sub >> 16, lo == sub & 0xFFFF;
        assert(sub < 0x10000 ==> hi == 0 && lo == sub) by (bit_vector)
            requires hi == sub >> 16, lo == sub & 0xFFFF;
        if ptr * 65536 + g.currentsubptr + g.period < 0x1_0000_0000 * 65536 {
            assert(ptr + hi < 0x1_0000_0000) by (nonlinear_arith)
                requires ptr * 65536 + sub < 0x1_0000_0000 * 65536, hi * 65536 <= sub, hi >= 0, ptr >= 0;
        }
    }
}

proof fn lemma_div_trunc_exact(a: int)
    ensures
        div_trunc(a * 65536, 65536) == a,
{
    if a >= 0 {
        vstd::arithmetic::div_mod::lemma_div_multiples_vanish(a, 65536);
        assert((a * 65536) / 65536 == a) by (nonlinear_arith)
            requires (65536 * a) / 65536 == a;
    } else {
        vstd::arithmetic::div_mod::lemma_div_multiples_vanish(-a, 65536);
        assert((-(a * 65536)) / 65536 == -a) by (nonlinear_arith)
            requires (65536 * (-a)) / 65536 == -a;
    }
}

/// A sample whose header loop ends within the sample and spans at least two words plays up to
/// the end of its loop and then loops over the header's loop; a sample whose loop start and
/// length add up to less than two words plays its whole length once, without a loop; a loop
/// that would run past the sample has its start taken in bytes (half as many words). The loop
/// never outlasts the part of the sample that plays.
pub proof fn lemma_loop_lengths(h: SampleHeader)
    ensures
        2 <= h.looppoint + h.looplength <= h.length ==>
            loop_lengths(h).0 == h.looppoint + h.looplength && loop_lengths(h).1 == h.looplength,
        h.looppoint + h.looplength < 2 ==> loop_lengths(h).0 == h.length && loop_lengths(h).1 == 0,
        h.length < h.looppoint + h.looplength < 0x10000 && 2 <= h.looppoint + h.looplength ==>
            loop_lengths(h).0 == h.looplength + h.looppoint - h.looppoint / 2
            && loop_lengths(h).1 == h.looplength + h.looppoint % 2,
        h.looppoint + h.looplength < 0x10000 ==> loop_lengths(h).1 <= loop_lengths(h).0,
{
    let lp: u16 = h.looppoint / 2;
    assert(h.looppoint == 2 * lp + h.looppoint % 2);
    assert(h.looppoint % 2 <= 1);
}

proof fn lemma_seek_no_rules<'a>(s: PlayerState<'a>, prev: u8, target: u8, fuel: nat)
    requires
        s.rules is None,
        s.seek(prev, target, fuel) is Some,
    ensures
        s.seek(prev, target, fuel).unwrap().rules is None,
    decreases fuel,
{
    if s.order < target && fuel > 0 {
        let t = s.step();
        lemma_step_keeps_no_rules(s);
        if prev <= t.order {
            lemma_seek_no_rules(t, t.order, target, (fuel - 1) as nat);
        }
    }
}

proof fn lemma_row_channels_keep_rules<'a>(s: PlayerState<'a>, k: nat)
    ensures
        s.row_channels(k).rules == s.rules,
    decreases k,
{
    if k > 0 {
        lemma_row_channels_keep_rules(s, (k - 1) as nat);
        let t = s.row_channels((k - 1) as nat);
        let i = k - 1;
        let off = t.cell_index(i);
        let b0 = t.patterndata[off];
        let b1 = t.patterndata[off + 1];
        let b2 = t.patterndata[off + 2];
        let b3 = t.patterndata[off + 3];
        let c = t.row_prepare(t.ch[i], b0, b1, b2, b3);
        lemma_row_effect_keeps_rules(t, i, c, cell_note(b0, b1), b2 & 0x0F, b3);
    }
}

proof fn lemma_row_effect_keeps_rules<'a>(s: PlayerState<'a>, i: int, c: TrackerChannel<'a>, note_raw: u16, eff: u8, effval: u8)
    ensures
        s.row_effect(i, c, note_raw, eff, effval).rules == s.rules,
{
    reveal(PlayerState::row_effect);
}

proof fn lemma_tick_channels_keep_rules<'a>(s: PlayerState<'a>, k: nat)
    ensures
        s.tick_channels(k).rules == s.rules,
    decreases k,
{
    if k > 0 {
        lemma_tick_channels_keep_rules(s, (k - 1) as nat);
    }
}

proof fn lemma_step_keeps_no_rules<'a>(s: PlayerState<'a>)
    requires
        s.rules is None,
    ensures
        s.step().rules is None,
{
    let sb = PlayerState { skiporderrequest: -1i8, ..s.after_rules() };
    lemma_row_channels_keep_rules(sb, s.channels as nat);
    let s1 = if s.tick == 0 { s.row_start() } else { s };
    lemma_tick_channels_keep_rules(s1, s.channels as nat);
}

} // verus!
