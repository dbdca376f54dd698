use wurstenstein::modplay::{ModAction, ModPlayer, ModRule, SampleHeader};

const HEADER: usize = 1084;

/// A module with the given signature, order count and order table, and `patterns` empty patterns.
fn module(sig: &[u8; 4], orders: u8, table: &[u8], channels: usize, patterns: usize) -> Vec<u8> {
    let mut data = vec![0u8; HEADER + 256 * channels * patterns];
    data[950] = orders;
    for (i, p) in table.iter().enumerate() {
        data[952 + i] = *p;
    }
    data[1080..1084].copy_from_slice(sig);
    data
}

fn set_cell(data: &mut [u8], channels: usize, pattern: usize, row: usize, ch: usize, cell: [u8; 4]) {
    let off = HEADER + 4 * (ch + channels * (row + 64 * pattern));
    data[off..off + 4].copy_from_slice(&cell);
}

/// Sets sample `n` (1-based) to `len` words, `volume`, no loop.
fn set_sample(data: &mut [u8], n: usize, len: u16, volume: u8) {
    let off = 20 + 30 * (n - 1);
    data[off + 22] = (len >> 8) as u8;
    data[off + 23] = len as u8;
    data[off + 25] = volume;
}

fn ticks(p: &mut ModPlayer<'_, 4>, n: usize) {
    for _ in 0..n {
        p.process();
    }
}

#[test]
fn short_data_is_refused() {
    let data = vec![0u8; 1083];
    assert!(ModPlayer::<4>::new(&data, 44100).is_none());
}

#[test]
fn unknown_signature_is_refused() {
    let data = module(b"ABCD", 1, &[0], 4, 1);
    assert!(ModPlayer::<4>::new(&data, 44100).is_none());
}

#[test]
fn missing_pattern_data_is_refused() {
    let mut data = module(b"M.K.", 1, &[0], 4, 1);
    data.pop();
    assert!(ModPlayer::<4>::new(&data, 44100).is_none());
}

#[test]
fn mk_module_loads_with_four_channels() {
    let data = module(b"M.K.", 1, &[0], 4, 1);
    let p = ModPlayer::<4>::new(&data, 44100).unwrap();
    assert_eq!(p.channels(), 4);
    assert_eq!(p.order(), 0);
    assert_eq!(p.row(), 0);
    assert_eq!(p.tick(), 0);
    assert_eq!(p.speed(), 6);
    assert_eq!(p.track().len(), 4);
    assert!(p.is_playable());
}

#[test]
fn channel_count_signatures() {
    let data = module(b"6CHN", 1, &[0], 6, 1);
    assert_eq!(ModPlayer::<8>::new(&data, 44100).unwrap().channels(), 6);
    assert!(ModPlayer::<4>::new(&data, 44100).is_none());
    let data = module(b"FLT8", 1, &[0], 8, 1);
    assert_eq!(ModPlayer::<8>::new(&data, 44100).unwrap().channels(), 8);
    let data = module(b"12CH", 1, &[0], 12, 1);
    assert_eq!(ModPlayer::<32>::new(&data, 44100).unwrap().channels(), 12);
    let data = module(b"1CHN", 1, &[0], 1, 1);
    assert!(ModPlayer::<8>::new(&data, 44100).is_none());
}

#[test]
fn two_digit_count_wraps_modulo_256() {
    // '9' and 0xD8: 9 * 10 + (0xD8 - '0') = 258, which is 2 modulo 256.
    let data = module(&[b'9', 0xD8, b'C', b'H'], 1, &[0], 2, 1);
    assert_eq!(ModPlayer::<4>::new(&data, 44100).unwrap().channels(), 2);
}

#[test]
fn capacity_above_32_still_caps_at_32() {
    let data = module(b"33CH", 1, &[0], 33, 1);
    assert!(ModPlayer::<64>::new(&data, 44100).is_none());
}

#[test]
fn rows_advance_every_speed_ticks() {
    let data = module(b"M.K.", 2, &[0, 0], 4, 1);
    let mut p = ModPlayer::<4>::new(&data, 44100).unwrap();
    ticks(&mut p, 5);
    assert_eq!((p.order(), p.row(), p.tick()), (0, 0, 5));
    ticks(&mut p, 1);
    assert_eq!((p.order(), p.row(), p.tick()), (0, 1, 0));
    ticks(&mut p, 6 * 63);
    assert_eq!((p.order(), p.row()), (1, 0));
    ticks(&mut p, 6 * 64);
    assert_eq!((p.order(), p.row()), (0, 0));
}

#[test]
fn set_speed_effect() {
    let mut data = module(b"M.K.", 1, &[0], 4, 1);
    set_cell(&mut data, 4, 0, 0, 0, [0, 0, 0x0F, 0x03]);
    let mut p = ModPlayer::<4>::new(&data, 44100).unwrap();
    ticks(&mut p, 1);
    assert_eq!(p.speed(), 3);
    ticks(&mut p, 2);
    assert_eq!((p.row(), p.tick()), (1, 0));
}

#[test]
fn position_jump_effect() {
    let mut data = module(b"M.K.", 3, &[0, 0, 0], 4, 1);
    set_cell(&mut data, 4, 0, 0, 1, [0, 0, 0x0B, 0x02]);
    let mut p = ModPlayer::<4>::new(&data, 44100).unwrap();
    ticks(&mut p, 6);
    assert_eq!((p.order(), p.row()), (2, 0));
}

#[test]
fn pattern_break_effect_uses_decimal_row() {
    let mut data = module(b"M.K.", 2, &[0, 0], 4, 1);
    set_cell(&mut data, 4, 0, 0, 2, [0, 0, 0x0D, 0x12]);
    let mut p = ModPlayer::<4>::new(&data, 44100).unwrap();
    ticks(&mut p, 6);
    assert_eq!((p.order(), p.row()), (1, 12));
}

#[test]
fn break_past_last_row_stops_playback() {
    let mut data = module(b"M.K.", 1, &[0], 4, 1);
    set_cell(&mut data, 4, 0, 3, 0, [0, 0, 0x0D, 0x5F]);
    let mut p = ModPlayer::<4>::new(&data, 44100).unwrap();
    assert!(p.is_playable());
    ticks(&mut p, 24);
    assert_eq!((p.order(), p.row(), p.tick()), (0, 65, 0));
    assert!(p.is_playable());
    assert!(!p.can_process());
    let mut buf = [3i16; 8];
    assert_eq!(p.render(&mut buf), 0);
    assert_eq!(buf, [3i16; 8]);
}

#[test]
fn break_past_row_63_reads_into_the_next_pattern() {
    let mut data = module(b"M.K.", 2, &[1, 0], 4, 2);
    set_cell(&mut data, 4, 1, 3, 0, [0, 0, 0x0D, 0x5F]);
    let mut p = ModPlayer::<4>::new(&data, 44100).unwrap();
    ticks(&mut p, 24);
    assert_eq!((p.order(), p.row()), (1, 65));
    assert!(p.can_process());
    ticks(&mut p, 6);
    assert_eq!((p.order(), p.row()), (0, 0));
}

#[test]
fn truncated_sample_data_plays_until_rendered() {
    let mut data = module(b"M.K.", 1, &[0], 4, 1);
    set_sample(&mut data, 1, 32, 64);
    set_cell(&mut data, 4, 0, 0, 0, [0x01, 0xAC, 0x10, 0x00]);
    let mut p = ModPlayer::<4>::new(&data, 44100).unwrap();
    assert!(p.can_process());
    assert!(!p.is_playable());
    let ch = p.track()[0];
    assert_eq!((ch.note, ch.period, ch.volume, ch.eff, ch.effval), (0, 0, 0, 0, 0));
    ticks(&mut p, 7);
    assert_eq!(p.track()[0].sample, 1);
    assert_eq!(p.track()[0].period, 428);
    assert_eq!(p.row(), 1);
}

#[test]
fn truncated_sample_that_no_cell_starts_still_renders() {
    let mut data = module(b"M.K.", 1, &[0], 4, 1);
    set_sample(&mut data, 1, 16, 64);
    set_sample(&mut data, 2, 32, 64);
    set_cell(&mut data, 4, 0, 0, 0, [0x01, 0xAC, 0x10, 0x00]);
    data.extend_from_slice(&[0x40u8; 32]);
    let mut p = ModPlayer::<4>::new(&data, 8000).unwrap();
    assert!(p.is_playable());
    let mut buf = [0i16; 400];
    assert_eq!(p.render(&mut buf), 200);
    assert!(buf.iter().any(|&v| v != 0));
    set_cell(&mut data, 4, 0, 1, 1, [0x00, 0x00, 0x20, 0x00]);
    let p = ModPlayer::<4>::new(&data, 8000).unwrap();
    assert!(!p.is_playable());
    assert!(p.can_process());
}

#[test]
fn rules_jump_at_matching_row() {
    let data = module(b"M.K.", 4, &[0, 0, 0, 0], 4, 1);
    let rules = [ModRule { order: 0, row: 1, actions: &[ModAction::Jump { order: 3, row: 5 }] }];
    let mut p = ModPlayer::<4>::new(&data, 44100).unwrap();
    p.set_rules(Some(&rules));
    assert!(p.is_playable());
    ticks(&mut p, 6);
    assert_eq!((p.order(), p.row()), (0, 1));
    ticks(&mut p, 1);
    assert_eq!((p.order(), p.row()), (3, 5));
}

#[test]
fn rule_jumping_outside_song_is_not_playable() {
    let data = module(b"M.K.", 1, &[0], 4, 1);
    let rules = [ModRule { order: -1, row: -1, actions: &[ModAction::Jump { order: 200, row: 0 }] }];
    let mut p = ModPlayer::<4>::new(&data, 44100).unwrap();
    p.set_rules(Some(&rules));
    assert!(!p.is_playable());
    p.set_rules(None);
    assert!(p.is_playable());
}

#[test]
fn jump_to_order() {
    let data = module(b"M.K.", 3, &[0, 0, 0], 4, 1);
    let mut p = ModPlayer::<4>::new(&data, 44100).unwrap();
    p.jump(2);
    assert_eq!((p.order(), p.row(), p.tick()), (2, 0, 0));
    p.jump(-2);
    assert_eq!(p.order(), 1);
    p.jump(-1);
    assert_eq!(p.order(), 2);
    p.jump(99);
    assert_eq!(p.order(), 2);
    p.jump(0);
    assert_eq!((p.order(), p.row(), p.tick()), (0, 0, 0));
}

#[test]
fn silent_module_renders_silence() {
    let data = module(b"M.K.", 1, &[0], 4, 1);
    let mut p = ModPlayer::<4>::new(&data, 44100).unwrap();
    let mut buf = [7i16; 9];
    p.render(&mut buf);
    assert_eq!(&buf[..8], &[0i16; 8]);
    assert_eq!(buf[8], 7);
    assert_eq!(p.tick(), 1);
}

/// A module whose first channel plays sample 1 (32 words of 0x40, volume 64) at period 428.
fn tone_module() -> Vec<u8> {
    let mut data = module(b"M.K.", 1, &[0], 4, 1);
    set_sample(&mut data, 1, 32, 64);
    set_cell(&mut data, 4, 0, 0, 0, [0x01, 0xAC, 0x10, 0x00]);
    data.extend_from_slice(&[0x40u8; 64]);
    data
}

#[test]
fn constant_sample_mixes_to_exact_levels() {
    let data = tone_module();
    let mut p = ModPlayer::<4>::new(&data, 44100).unwrap();
    assert!(p.is_playable());
    let mut buf = [0i16; 32];
    p.render(&mut buf);
    // 64 * 64 = 4096 at full weight on the left, 4096 * 21845 / 65536 = 1365 on the right.
    for f in 0..16 {
        assert_eq!(buf[2 * f], 4096, "left of frame {}", f);
        assert_eq!(buf[2 * f + 1], 1365, "right of frame {}", f);
    }
    let ch = &p.track()[0];
    assert_eq!(ch.sample, 1);
    assert_eq!(ch.period, 428);
    assert_eq!(ch.samplegen.volume, 64);
    // Paula rate 3546895 / 44100 = 80, times 65536, over the period 428.
    assert_eq!(ch.samplegen.period, 80 * 65536 / 428);
}

#[test]
fn rendering_in_two_calls_equals_one_call() {
    let data = tone_module();
    let mut a = ModPlayer::<4>::new(&data, 8000).unwrap();
    let mut b = ModPlayer::<4>::new(&data, 8000).unwrap();
    let mut whole = [0i16; 2000];
    a.render(&mut whole);
    let mut first = [0i16; 600];
    let mut second = [0i16; 1400];
    b.render(&mut first);
    b.render(&mut second);
    assert_eq!(&whole[..600], &first[..]);
    assert_eq!(&whole[600..], &second[..]);
    assert_eq!((a.order(), a.row(), a.tick()), (b.order(), b.row(), b.tick()));
}

#[test]
fn finished_sample_falls_silent() {
    let data = tone_module();
    let mut p = ModPlayer::<4>::new(&data, 8000).unwrap();
    // 64 bytes at 65536 * 443 / 428 sub-steps per frame run out within 70 frames.
    let mut buf = [0i16; 200];
    p.render(&mut buf);
    assert_eq!(buf[0], 4096);
    assert_eq!(buf[198], 0);
    assert_eq!(buf[199], 0);
}

#[test]
fn jump_does_not_depend_on_where_the_song_was() {
    let mut data = module(b"M.K.", 3, &[0, 0, 0], 4, 1);
    set_sample(&mut data, 1, 32, 64);
    set_cell(&mut data, 4, 0, 0, 0, [0x01, 0xAC, 0x10, 0x00]);
    data.extend_from_slice(&[0x40u8; 64]);
    let mut a = ModPlayer::<4>::new(&data, 8000).unwrap();
    let mut b = ModPlayer::<4>::new(&data, 8000).unwrap();
    let mut scratch = [0i16; 700];
    b.render(&mut scratch);
    ticks(&mut b, 100);
    a.jump(1);
    b.jump(1);
    assert_eq!((a.order(), a.row(), a.tick(), a.speed()), (b.order(), b.row(), b.tick(), b.speed()));
    let mut out_a = [0i16; 400];
    let mut out_b = [0i16; 400];
    a.render(&mut out_a);
    b.render(&mut out_b);
    assert_eq!(&out_a[..], &out_b[..]);
}

/// A one-pattern module whose first channel plays sample 1 (32 words, volume `vol`) at period
/// 428 with the given effect on row 0.
fn effect_module(vol: u8, eff: u8, effval: u8) -> Vec<u8> {
    let mut data = module(b"M.K.", 1, &[0], 4, 1);
    set_sample(&mut data, 1, 32, vol);
    set_cell(&mut data, 4, 0, 0, 0, [0x01, 0xAC, 0x10 | eff, effval]);
    data.extend_from_slice(&[0x40u8; 64]);
    data
}

#[test]
fn volume_slide_up_on_later_ticks() {
    let data = effect_module(32, 0x0A, 0x20);
    let mut p = ModPlayer::<4>::new(&data, 44100).unwrap();
    p.process();
    assert_eq!(p.track()[0].volume, 32);
    ticks(&mut p, 5);
    assert_eq!(p.track()[0].volume, 42);
    assert_eq!(p.track()[0].samplegen.volume, 42);
    assert_eq!(p.row(), 1);
}

#[test]
fn volume_slide_stops_at_full_volume() {
    let data = effect_module(60, 0x0A, 0xF0);
    let mut p = ModPlayer::<4>::new(&data, 44100).unwrap();
    ticks(&mut p, 6);
    assert_eq!(p.track()[0].volume, 64);
}

#[test]
fn set_volume_caps_at_64() {
    let data = effect_module(10, 0x0C, 0x50);
    let mut p = ModPlayer::<4>::new(&data, 44100).unwrap();
    p.process();
    assert_eq!(p.track()[0].volume, 64);
}

#[test]
fn portamento_up_lowers_the_period() {
    let data = effect_module(64, 0x01, 0x05);
    let mut p = ModPlayer::<4>::new(&data, 44100).unwrap();
    ticks(&mut p, 6);
    assert_eq!(p.track()[0].period, 428 - 5 * 5);
}

#[test]
fn arpeggio_cycles_three_notes() {
    let data = effect_module(64, 0x00, 0x37);
    let mut p = ModPlayer::<4>::new(&data, 44100).unwrap();
    p.process();
    assert_eq!(p.track()[0].period, 428);
    p.process();
    assert_eq!(p.track()[0].period, 428 * 55109 >> 16);
    p.process();
    assert_eq!(p.track()[0].period, 428 * 43740 >> 16);
    p.process();
    assert_eq!(p.track()[0].period, 428);
}

#[test]
fn tone_portamento_slides_towards_the_new_note() {
    let mut data = effect_module(64, 0x00, 0x00);
    set_cell(&mut data, 4, 0, 1, 0, [0x01, 0x90, 0x03, 0x04]);
    let mut p = ModPlayer::<4>::new(&data, 44100).unwrap();
    ticks(&mut p, 6);
    assert_eq!(p.track()[0].period, 428);
    p.process();
    assert_eq!(p.track()[0].period, 428);
    assert_eq!(p.track()[0].slidenote, 400);
    ticks(&mut p, 5);
    assert_eq!(p.track()[0].period, 428 - 5 * 4);
}

#[test]
fn sample_offset_starts_inside_the_sample() {
    let data = effect_module(64, 0x09, 0x01);
    let mut p = ModPlayer::<4>::new(&data, 44100).unwrap();
    p.process();
    assert_eq!(p.track()[0].samplegen.currentptr, 256);
    assert_eq!(p.track()[0].sampleoffset, 1);
}

#[test]
fn fine_volume_up_and_note_cut() {
    let data = effect_module(32, 0x0E, 0xA3);
    let mut p = ModPlayer::<4>::new(&data, 44100).unwrap();
    p.process();
    assert_eq!(p.track()[0].volume, 35);
    let data = effect_module(32, 0x0E, 0xC2);
    let mut p = ModPlayer::<4>::new(&data, 44100).unwrap();
    ticks(&mut p, 2);
    assert_eq!(p.track()[0].volume, 32);
    p.process();
    assert_eq!(p.track()[0].volume, 0);
}

#[test]
fn pattern_loop_repeats_rows() {
    let mut data = module(b"M.K.", 1, &[0], 4, 1);
    set_cell(&mut data, 4, 0, 0, 0, [0x00, 0x00, 0x0E, 0x60]);
    set_cell(&mut data, 4, 0, 1, 0, [0x00, 0x00, 0x0E, 0x62]);
    let mut p = ModPlayer::<4>::new(&data, 44100).unwrap();
    let mut rows = vec![];
    for _ in 0..7 {
        rows.push(p.row());
        ticks(&mut p, 6);
    }
    assert_eq!(rows, vec![0, 1, 0, 1, 0, 1, 2]);
}

#[test]
fn sample_header_reads_name_and_big_endian_fields() {
    let mut b = [0u8; 30];
    b[0] = b'A';
    b[22..30].copy_from_slice(&[0x01, 0x02, 0x05, 0x40, 0x00, 0x10, 0x00, 0x20]);
    let h = SampleHeader::from_bytes(&b);
    assert_eq!(h.name[0], b'A');
    assert_eq!(&h.name[1..], &[0u8; 21]);
    assert_eq!((h.length, h.finetune, h.volume, h.looppoint, h.looplength), (0x0102, 5, 0x40, 0x0010, 0x0020));
}

#[test]
fn jump_equals_a_fresh_player_ticked_to_the_order() {
    let mut data = module(b"M.K.", 3, &[0, 0, 0], 4, 1);
    set_cell(&mut data, 4, 0, 5, 1, [0x00, 0x00, 0x0F, 0x03]);
    let mut p = ModPlayer::<4>::new(&data, 8000).unwrap();
    let rules = [ModRule { order: -1, row: 2, actions: &[ModAction::Jump { order: 0, row: 0 }] }];
    p.set_rules(Some(&rules));
    ticks(&mut p, 40);
    p.jump(1);
    let mut q = ModPlayer::<4>::new(&data, 8000).unwrap();
    let mut k = 0;
    while q.order() < 1 {
        q.process();
        k += 1;
    }
    assert_eq!(k, 5 * 6 + 3 * 59);
    assert_eq!((p.order(), p.row(), p.tick(), p.speed()), (q.order(), q.row(), q.tick(), q.speed()));
    assert_eq!((p.order(), p.row(), p.tick(), p.speed()), (1, 0, 0, 3));
    // The rules were dropped: row 2 no longer sends the song back.
    ticks(&mut p, 3 * 3);
    assert_eq!((p.order(), p.row()), (1, 3));
}

#[test]
fn calls_keep_channels_and_speed() {
    let mut data = module(b"6CHN", 2, &[0, 0], 6, 1);
    data.truncate(HEADER + 256 * 6);
    let mut p = ModPlayer::<8>::new(&data, 8000).unwrap();
    assert_eq!(p.channels(), 6);
    let mut buf = [0i16; 100];
    for round in 0..20 {
        p.process();
        p.render(&mut buf);
        if round % 7 == 0 {
            p.jump(-1);
        }
        assert_eq!(p.channels(), 6);
        assert!(1 <= p.speed() && p.speed() <= 31);
        assert_eq!(p.track().len(), 6);
    }
}

#[test]
fn plain_rows_wrap_to_the_first_order() {
    let data = module(b"M.K.", 2, &[0, 0], 4, 1);
    let mut p = ModPlayer::<4>::new(&data, 44100).unwrap();
    ticks(&mut p, 6 * 64 * 2 - 1);
    assert_eq!((p.order(), p.row(), p.tick()), (1, 63, 5));
    ticks(&mut p, 1);
    assert_eq!((p.order(), p.row(), p.tick()), (0, 0, 0));
}

#[test]
fn order_count_above_128_or_pattern_255_is_not_playable() {
    let data = module(b"M.K.", 129, &[0], 4, 1);
    let p = ModPlayer::<4>::new(&data, 44100).unwrap();
    assert!(!p.can_process());
    let data = module(b"M.K.", 1, &[255], 4, 0);
    let p = ModPlayer::<4>::new(&data, 44100).unwrap();
    assert!(!p.can_process());
    let data = module(b"M.K.", 128, &[0], 4, 1);
    let p = ModPlayer::<4>::new(&data, 44100).unwrap();
    assert!(p.can_process());
}

#[test]
fn rule_moves_a_missing_row_back_into_the_song() {
    let mut data = module(b"M.K.", 2, &[0, 0], 4, 1);
    set_cell(&mut data, 4, 0, 0, 0, [0x00, 0x00, 0x0D, 0x5E]);
    let rules = [ModRule { order: -1, row: 64, actions: &[ModAction::Jump { order: 0, row: 3 }] }];
    let mut p = ModPlayer::<4>::new(&data, 44100).unwrap();
    ticks(&mut p, 6);
    assert_eq!((p.order(), p.row(), p.tick()), (1, 64, 0));
    assert!(!p.can_process());
    p.set_rules(Some(&rules));
    assert!(p.can_process());
    p.process();
    assert_eq!((p.order(), p.row(), p.tick()), (0, 3, 1));
}

#[test]
fn channel_volumes_and_periods_stay_settled() {
    let mut data = module(b"M.K.", 2, &[0, 0], 4, 1);
    set_sample(&mut data, 1, 16, 64);
    set_cell(&mut data, 4, 0, 0, 0, [0x01, 0xAC, 0x1A, 0xF0]);
    set_cell(&mut data, 4, 0, 0, 1, [0x00, 0x10, 0x11, 0xFF]);
    set_cell(&mut data, 4, 0, 1, 2, [0x00, 0x00, 0x0E, 0xA8]);
    data.extend_from_slice(&[0x40u8; 32]);
    let mut p = ModPlayer::<4>::new(&data, 8000).unwrap();
    let mut buf = [0i16; 64];
    let settled = |p: &ModPlayer<'_, 4>| {
        p.track().iter().all(|c| {
            (0..=64).contains(&c.samplegen.volume) && c.period >= 0 && (c.period != 0 || c.samplegen.period == 0)
        })
    };
    assert!(settled(&p));
    for round in 0..40 {
        p.process();
        assert!(settled(&p));
        p.render(&mut buf);
        assert!(settled(&p));
        if round == 25 {
            p.jump(0);
            assert!(settled(&p));
        }
    }
    assert_eq!(p.track()[1].period, 0);
    assert_eq!(p.track()[1].samplegen.period, 0);
}
