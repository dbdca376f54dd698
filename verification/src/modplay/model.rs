//! The mathematical model of the player: its state, and what one tick does to it.
use vstd::prelude::*;

use super::types::{
    be16, header_at, reads_header, recalculated, next_random, ModAction, ModRule, Oscillator, PaulaChannel, Sample,
    SampleHeader, TrackerChannel, AGE_MAX, ARPEGGIO_TABLE, FINETUNE_TABLE,
};

verus! {

/// Everything the player holds, as mathematical values.
pub struct PlayerState<'a> {
    pub channels: u8,
    pub orders: u8,
    pub maxpattern: u8,
    pub order: u8,
    pub row: u8,
    pub tick: u8,
    pub maxtick: u8,
    pub speed: u8,
    pub skiporderrequest: i8,
    pub skiporderdestrow: u8,
    pub patlooprow: u8,
    pub patloopcycle: u8,
    pub samplerate: u32,
    pub paularate: u32,
    pub audiospeed: u32,
    pub audiotick: u32,
    pub random: u32,
    pub ch: Seq<TrackerChannel<'a>>,
    pub patterndata: Seq<u8>,
    pub ordertable: Seq<u8>,
    pub headers: Seq<SampleHeader>,
    pub samples: Seq<Sample<'a>>,
    pub rules: Option<Seq<ModRule<'a>>>,
}

/// The 12-bit period stored in the first two bytes of a pattern cell.
pub open spec fn cell_note(b0: u8, b1: u8) -> u16 {
    ((b0 as u16) << 8 | b1 as u16) & 0x0FFF
}

/// The sample number stored in a pattern cell.
pub open spec fn cell_sample(b0: u8, b2: u8) -> u8 {
    (b0 & 0xF0) | (b2 >> 4)
}

/// The row a pattern break with this parameter jumps to (the parameter is two decimal digits).
pub open spec fn break_row(effval: u8) -> int {
    let bcd = if effval > 0x63 { 0u8 } else { effval };
    (bcd >> 4) as int * 10 + (bcd & 0x0F) as int
}

/// A channel as it is before any note was played on it.
pub open spec fn fresh_channel<'a>() -> TrackerChannel<'a> {
    TrackerChannel {
        note: 0,
        sample: 0,
        eff: 0,
        effval: 0,
        slideamount: 0,
        sampleoffset: 0,
        volume: 0,
        slidenote: 0,
        period: 0,
        vibrato: Oscillator { val: 0, waveform: 0, phase: 0, speed: 0, depth: 0 },
        tremolo: Oscillator { val: 0, waveform: 0, phase: 0, speed: 0, depth: 0 },
        samplegen: PaulaChannel {
            sample: None,
            age: AGE_MAX,
            currentptr: 0,
            length: 0,
            looplength: 0,
            period: 0,
            volume: 0,
            currentsubptr: 0,
            muted: false,
        },
    }
}

/// A volume slide: the high nibble raises the volume (to at most 64), else the low nibble lowers it (to at least 0).
pub open spec fn volume_slide<'a>(c: TrackerChannel<'a>, effval: u8) -> TrackerChannel<'a> {
    if effval > 0x0F {
        let v = c.volume + (effval >> 4) as i16;
        TrackerChannel { volume: if v > 0x40 { 0x40 } else { v as i16 }, ..c }
    } else {
        let v = c.volume - (effval & 0x0F) as i16;
        TrackerChannel { volume: if v < 0 { 0 } else { v as i16 }, ..c }
    }
}

/// Tone portamento: the period moves towards the slide target by the given amount
/// (by the remembered amount when it is zero) and stops at the target.
pub open spec fn tone_portamento<'a>(c: TrackerChannel<'a>, effval: u8) -> TrackerChannel<'a> {
    let amt: i32 = if effval == 0 { c.slideamount as i32 } else { effval as i32 };
    if c.slidenote > c.period {
        let p = c.period.wrapping_add(amt);
        TrackerChannel { period: if c.slidenote < p { c.slidenote } else { p }, ..c }
    } else if c.slidenote < c.period {
        let p = c.period.wrapping_sub(amt);
        TrackerChannel { period: if c.slidenote > p { c.slidenote } else { p }, ..c }
    } else {
        c
    }
}

/// The sample generator restarted at the beginning of its sample.
pub open spec fn restart<'a>(g: PaulaChannel<'a>) -> PaulaChannel<'a> {
    PaulaChannel { age: 0, currentptr: 0, currentsubptr: 0, ..g }
}

/// A rule's action is in range: it jumps to an order the order table holds and to a row of a pattern.
pub open spec fn action_ok(a: ModAction) -> bool {
    match a {
        ModAction::Jump { order, row } => (order as u8) < 128 && (row as u8) < 64,
    }
}

/// Every action of every rule is in range.
pub open spec fn actions_ok<'a>(rs: Seq<ModRule<'a>>) -> bool {
    forall|k: int, m: int| 0 <= k < rs.len() && 0 <= m < rs[k].actions@.len() ==> #[trigger] action_ok(rs[k].actions@[m])
}

/// Every action of every rule is in range.
pub open spec fn rules_ok<'a>(rules: Option<Seq<ModRule<'a>>>) -> bool {
    match rules {
        None => true,
        Some(rs) => actions_ok(rs),
    }
}

/// A sample's loop lies within its data.
pub open spec fn sample_ok<'a>(s: Sample<'a>) -> bool {
    &&& 2 * s.actuallength <= s.data@.len()
    &&& s.looplength <= s.actuallength
}

/// Which of the 31 samples a sample number chooses (numbers above 31 choose sample 1).
pub open spec fn sample_index(n: u8) -> int {
    (if n > 31 { 1 } else { n as int }) - 1
}

/// A cell with bytes `b0` and `b2` chooses no sample, or a complete one.
pub open spec fn cell_sample_ok<'a>(samples: Seq<Sample<'a>>, b0: u8, b2: u8) -> bool {
    cell_sample(b0, b2) != 0 ==> sample_ok(samples[sample_index(cell_sample(b0, b2))])
}

/// Cell `k` of the pattern data chooses no sample, or a complete one.
pub open spec fn cell_starts_ok<'a>(samples: Seq<Sample<'a>>, patterndata: Seq<u8>, k: int) -> bool {
    cell_sample_ok(samples, patterndata[4 * k], patterndata[4 * k + 2])
}

/// Every sample that a cell of the pattern data can start is complete.
pub open spec fn used_samples_ok<'a>(samples: Seq<Sample<'a>>, patterndata: Seq<u8>) -> bool {
    forall|k: int| 0 <= k < patterndata.len() / 4 ==> #[trigger] cell_starts_ok(samples, patterndata, k)
}

/// A channel's volumes are in range and its sub-position is a fraction.
pub open spec fn channel_basic<'a>(c: TrackerChannel<'a>) -> bool {
    &&& 0 <= c.volume <= 255
    &&& 0 <= c.samplegen.volume <= 64
    &&& c.samplegen.currentsubptr < 0x10000
}

/// A channel's loop lies within its sample, and the sample within its data.
pub open spec fn channel_fits<'a>(c: TrackerChannel<'a>) -> bool {
    c.samplegen.sample matches Some(d) ==> c.samplegen.looplength <= c.samplegen.length <= d@.len()
}

/// A channel is in range; when every sample that the patterns start is complete, its sample
/// also fits.
pub open spec fn channel_ok<'a>(c: TrackerChannel<'a>, complete: bool) -> bool {
    channel_basic(c) && (complete ==> channel_fits(c))
}

/// A pattern cell that breaks to another pattern names a row that exists.
pub open spec fn break_ok(b2: u8, b3: u8) -> bool {
    (b2 & 0x0F) == 0x0D ==> break_row(b3) < 64
}

impl<'a> PlayerState<'a> {
    /// The properties of the loaded module that playback relies on.
    pub open spec fn file_ok(self) -> bool {
        &&& 2 <= self.channels <= 32
        &&& self.channels <= self.ch.len()
        &&& self.ordertable.len() == 128
        &&& 1 <= self.maxpattern
        &&& forall|j: int| 0 <= j < 128 ==> #[trigger] self.ordertable[j] < self.maxpattern
        &&& self.patterndata.len() == 256 * self.channels * self.maxpattern
        &&& self.orders <= 128
        &&& self.headers.len() == 31
        &&& self.samples.len() == 31
    }

    /// Every sample that a cell of the pattern data can start holds all of its words, and its
    /// loop lies within them.
    pub open spec fn samples_complete(self) -> bool {
        used_samples_ok(self.samples, self.patterndata)
    }

    /// The properties of the playback position and channels that every tick keeps.
    pub open spec fn state_ok(self) -> bool {
        &&& self.order < 128
        &&& self.row < 66
        &&& self.skiporderdestrow < 66
        &&& self.patlooprow < 66
        &&& 1 <= self.speed <= 31
        &&& self.tick < 255
        &&& rules_ok(self.rules)
        &&& forall|j: int| 0 <= j < self.ch.len() ==> #[trigger] channel_ok(self.ch[j], used_samples_ok(self.samples, self.patterndata))
    }

    pub open spec fn valid(self) -> bool {
        self.file_ok() && self.state_ok()
    }

    /// Both states play the same module at the same rate, with the same room for channels.
    pub open spec fn same_module(self, other: PlayerState<'a>) -> bool {
        &&& self.channels == other.channels
        &&& self.orders == other.orders
        &&& self.maxpattern == other.maxpattern
        &&& self.ordertable == other.ordertable
        &&& self.patterndata == other.patterndata
        &&& self.headers == other.headers
        &&& self.samples == other.samples
        &&& self.samplerate == other.samplerate
        &&& self.paularate == other.paularate
        &&& self.ch.len() == other.ch.len()
    }

    /// The cells of the current row lie within the pattern data. A break can name row 64 or
    /// 65, which read into the next pattern; past the last pattern they are missing.
    pub open spec fn row_in_bounds(self) -> bool {
        self.row + 64 * self.ordertable[self.order as int] < 64 * self.maxpattern
    }

    /// The next tick reads only cells that exist: a tick that starts a row reads the cells of
    /// the row that the rules leave the song at.
    pub open spec fn reads_ok(self) -> bool {
        self.tick == 0 ==> self.after_rules().row_in_bounds()
    }

    /// The next frame is due a tick that would read a missing cell.
    pub open spec fn stuck(self) -> bool {
        self.audiotick == 0 && !self.reads_ok()
    }

    pub open spec fn set_ch(self, i: int, c: TrackerChannel<'a>) -> PlayerState<'a> {
        PlayerState { ch: self.ch.update(i, c), ..self }
    }

    /// Index in the pattern data of the cell that channel `i` reads at the current order and row.
    pub open spec fn cell_index(self, i: int) -> int {
        4 * (i + self.channels * (self.row + 64 * self.ordertable[self.order as int]))
    }

    // ---------------------------------------------------------------- rules

    /// The state after a rule's actions.
    pub open spec fn apply_actions(self, acts: Seq<ModAction>, k: nat) -> PlayerState<'a>
        decreases k,
    {
        if k == 0 {
            self
        } else {
            let s = self.apply_actions(acts, (k - 1) as nat);
            match acts[k - 1] {
                ModAction::Jump { order, row } => PlayerState { row: row as u8, order: order as u8, ..s },
            }
        }
    }

    /// A rule fires when its order and row (where not negative) are the current ones.
    pub open spec fn apply_rule(self, r: ModRule<'a>) -> PlayerState<'a> {
        if (r.order >= 0 && r.order != self.order as i32) || (r.row >= 0 && r.row != self.row as i32) {
            self
        } else {
            self.apply_actions(r.actions@, r.actions@.len())
        }
    }

    /// The state after the first `k` rules, in order.
    pub open spec fn apply_rules(self, rs: Seq<ModRule<'a>>, k: nat) -> PlayerState<'a>
        decreases k,
    {
        if k == 0 {
            self
        } else {
            self.apply_rules(rs, (k - 1) as nat).apply_rule(rs[k - 1])
        }
    }

    pub open spec fn after_rules(self) -> PlayerState<'a> {
        match self.rules {
            None => self,
            Some(rs) => self.apply_rules(rs, rs.len()),
        }
    }

    // ---------------------------------------------------------------- row start

    /// The channel after choosing sample `sample_num` (numbers above 31 choose sample 1).
    pub open spec fn select_sample(self, c: TrackerChannel<'a>, sample_num: u8) -> TrackerChannel<'a> {
        let idx: int = sample_index(sample_num);
        let smp = self.samples[idx];
        TrackerChannel {
            sample: sample_num,
            volume: self.headers[idx].volume as i16,
            samplegen: PaulaChannel {
                length: (smp.actuallength as u32) << 1,
                looplength: (smp.looplength as u32) << 1,
                sample: Some(smp.data),
                ..c.samplegen
            },
            ..c
        }
    }

    /// The period of a note after finetune; an E5x effect sets the finetune, else the
    /// header indexed by the channel's sample number gives it.
    pub open spec fn note_period(self, c: TrackerChannel<'a>, note_raw: u16, eff: u8, effval: u8) -> i32 {
        let finetune: u8 = if eff == 0x0E && (effval & 0xF0) == 0x50 {
            effval & 0x0F
        } else if c.sample < 31 {
            self.headers[c.sample as int].finetune
        } else {
            0
        };
        (note_raw as i32).wrapping_mul(FINETUNE_TABLE[(finetune & 0x0F) as int]) >> 16
    }

    /// A new note: it is remembered, and unless the effect slides to it or delays it,
    /// the sample restarts at that period.
    pub open spec fn trigger_note(self, c: TrackerChannel<'a>, note_raw: u16, eff: u8, effval: u8) -> TrackerChannel<'a> {
        let p = self.note_period(c, note_raw, eff, effval);
        let c1 = TrackerChannel { note: p as u32, ..c };
        if eff != 0x03 && eff != 0x05 && (eff != 0x0E || (effval & 0xF0) != 0xD0) {
            TrackerChannel {
                period: p,
                vibrato: Oscillator {
                    phase: if c1.vibrato.waveform < 4 { 0 } else { c1.vibrato.phase },
                    ..c1.vibrato
                },
                tremolo: Oscillator {
                    phase: if c1.tremolo.waveform < 4 { 0 } else { c1.tremolo.phase },
                    ..c1.tremolo
                },
                samplegen: PaulaChannel { age: 0, currentptr: 0, ..c1.samplegen },
                ..c1
            }
        } else {
            c1
        }
    }

    /// The channel after reading a cell, before its effect.
    #[verifier::opaque]
    pub open spec fn row_prepare(self, c: TrackerChannel<'a>, b0: u8, b1: u8, b2: u8, b3: u8) -> TrackerChannel<'a> {
        let note_raw = cell_note(b0, b1);
        let sample_num = cell_sample(b0, b2);
        let c1 = TrackerChannel {
            vibrato: Oscillator { val: 0, ..c.vibrato },
            tremolo: Oscillator { val: 0, ..c.tremolo },
            ..c
        };
        let c2 = if c1.eff == 0 && c1.effval != 0 { TrackerChannel { period: c1.note as i32, ..c1 } } else { c1 };
        let c3 = if sample_num != 0 { self.select_sample(c2, sample_num) } else { c2 };
        if note_raw != 0 { self.trigger_note(c3, note_raw, b2 & 0x0F, b3) } else { c3 }
    }

    /// The pattern loop effect E6x.
    pub open spec fn pattern_loop(self, effval: u8) -> PlayerState<'a> {
        if effval & 0x0F != 0 {
            let cyc: u8 = if self.patloopcycle == 0 { ((effval & 0x0F) + 1) as u8 } else { self.patloopcycle };
            let s = if cyc > 1 {
                PlayerState { skiporderrequest: self.order as i8, skiporderdestrow: self.patlooprow, ..self }
            } else {
                self
            };
            PlayerState { patloopcycle: (cyc - 1) as u8, ..s }
        } else {
            PlayerState { patlooprow: self.row, ..self }
        }
    }

    /// The extended effects Exy at the start of a row, on channel `i` holding `c`.
    pub open spec fn row_extended(self, i: int, c: TrackerChannel<'a>, effval: u8) -> PlayerState<'a> {
        let sub = effval >> 4;
        let x = effval & 0x0F;
        if sub == 0x01 {
            self.set_ch(i, TrackerChannel { period: c.period.wrapping_sub(x as i32), ..c })
        } else if sub == 0x02 {
            self.set_ch(i, TrackerChannel { period: c.period.wrapping_add(x as i32), ..c })
        } else if sub == 0x04 {
            self.set_ch(i, TrackerChannel { vibrato: Oscillator { waveform: effval & 0x07, ..c.vibrato }, ..c })
        } else if sub == 0x06 {
            self.set_ch(i, c).pattern_loop(effval)
        } else if sub == 0x07 {
            self.set_ch(i, TrackerChannel { tremolo: Oscillator { waveform: effval & 0x07, ..c.tremolo }, ..c })
        } else if sub == 0x0A {
            let v = c.volume + x as i16;
            self.set_ch(i, TrackerChannel { volume: if v > 0x40 { 0x40 } else { v as i16 }, ..c })
        } else if sub == 0x0B {
            let v = c.volume - x as i16;
            self.set_ch(i, TrackerChannel { volume: if v < 0 { 0 } else { v as i16 }, ..c })
        } else if sub == 0x0E {
            PlayerState { maxtick: self.maxtick.wrapping_mul((x + 1) as u8), ..self.set_ch(i, c) }
        } else {
            self.set_ch(i, c)
        }
    }

    /// The effect of a cell at the start of a row, on channel `i` holding `c`.
    #[verifier::opaque]
    pub open spec fn row_effect(self, i: int, c: TrackerChannel<'a>, note_raw: u16, eff: u8, effval: u8) -> PlayerState<'a> {
        if eff == 0 && effval == 0 {
            self.set_ch(i, c)
        } else if eff == 0x03 {
            let c1 = if effval != 0 { TrackerChannel { slideamount: effval, ..c } } else { c };
            self.set_ch(i, TrackerChannel { slidenote: c1.note as i32, ..c1 })
        } else if eff == 0x05 {
            self.set_ch(i, TrackerChannel { slidenote: c.note as i32, ..c })
        } else if eff == 0x04 {
            let v = Oscillator {
                speed: if effval & 0xF0 != 0 { effval >> 4 } else { c.vibrato.speed },
                depth: if effval & 0x0F != 0 { effval & 0x0F } else { c.vibrato.depth },
                ..c.vibrato
            };
            PlayerState {
                random: next_random(v, self.random),
                ..self.set_ch(i, TrackerChannel { vibrato: recalculated(v, self.random), ..c })
            }
        } else if eff == 0x06 {
            PlayerState {
                random: next_random(c.vibrato, self.random),
                ..self.set_ch(i, TrackerChannel { vibrato: recalculated(c.vibrato, self.random), ..c })
            }
        } else if eff == 0x07 {
            let t = Oscillator {
                speed: if effval & 0xF0 != 0 { effval >> 4 } else { c.tremolo.speed },
                depth: if effval & 0x0F != 0 { effval & 0x0F } else { c.tremolo.depth },
                ..c.tremolo
            };
            PlayerState {
                random: next_random(t, self.random),
                ..self.set_ch(i, TrackerChannel { tremolo: recalculated(t, self.random), ..c })
            }
        } else if eff == 0x0C {
            self.set_ch(i, TrackerChannel { volume: if effval > 0x40 { 0x40 } else { effval as i16 }, ..c })
        } else if eff == 0x09 {
            if note_raw != 0 {
                let c1 = if effval != 0 {
                    TrackerChannel {
                        sampleoffset: effval,
                        samplegen: PaulaChannel { currentptr: (effval as u32) << 8, ..c.samplegen },
                        ..c
                    }
                } else {
                    TrackerChannel {
                        samplegen: PaulaChannel { currentptr: (c.sampleoffset as u32) << 8, ..c.samplegen },
                        ..c
                    }
                };
                self.set_ch(i, TrackerChannel { samplegen: PaulaChannel { age: 0, ..c1.samplegen }, ..c1 })
            } else {
                self.set_ch(i, c)
            }
        } else if eff == 0x0B {
            let dest: u8 = if effval >= self.orders { 0 } else { effval };
            PlayerState { skiporderrequest: dest as i8, ..self.set_ch(i, c) }
        } else if eff == 0x0D {
            let req: i8 = if self.skiporderrequest < 0 {
                if self.order + 1 < self.orders { (self.order + 1) as i8 } else { 0 }
            } else {
                self.skiporderrequest
            };
            PlayerState {
                skiporderrequest: req,
                skiporderdestrow: break_row(effval) as u8,
                ..self.set_ch(i, c)
            }
        } else if eff == 0x0E {
            self.row_extended(i, c, effval)
        } else if eff == 0x0F && effval != 0 {
            if effval < 0x20 {
                PlayerState {
                    maxtick: (self.maxtick / self.speed).wrapping_mul(effval),
                    speed: effval,
                    ..self.set_ch(i, c)
                }
            } else {
                PlayerState {
                    audiospeed: self.samplerate.wrapping_mul(125) / (effval as u32) / 50,
                    ..self.set_ch(i, c)
                }
            }
        } else {
            self.set_ch(i, c)
        }
    }

    /// Channel `i` reads its cell at the start of a row.
    pub open spec fn row_channel(self, i: int) -> PlayerState<'a> {
        let off = self.cell_index(i);
        let b0 = self.patterndata[off];
        let b1 = self.patterndata[off + 1];
        let b2 = self.patterndata[off + 2];
        let b3 = self.patterndata[off + 3];
        let c = self.row_prepare(self.ch[i], b0, b1, b2, b3);
        let s = self.row_effect(i, c, cell_note(b0, b1), b2 & 0x0F, b3);
        s.set_ch(i, TrackerChannel { eff: b2 & 0x0F, effval: b3, ..s.ch[i] })
    }

    /// The first `k` channels read their cells, in order.
    pub open spec fn row_channels(self, k: nat) -> PlayerState<'a>
        decreases k,
    {
        if k == 0 {
            self
        } else {
            self.row_channels((k - 1) as nat).row_channel(k - 1)
        }
    }

    /// The start of a row: rules fire, pending jumps are forgotten, every channel reads its cell.
    pub open spec fn row_start(self) -> PlayerState<'a> {
        PlayerState { skiporderrequest: -1i8, ..self.after_rules() }.row_channels(self.channels as nat)
    }

    // ---------------------------------------------------------------- every tick

    /// The running effect of channel `c` at the current tick, with the random generator.
    #[verifier::opaque]
    pub open spec fn tick_effect(self, c: TrackerChannel<'a>) -> (TrackerChannel<'a>, u32) {
        let eff = c.eff;
        let effval = c.effval;
        let t = self.tick;
        if eff == 0x00 {
            if t % 3 == 0 {
                (TrackerChannel { period: c.note as i32, ..c }, self.random)
            } else if t % 3 == 1 {
                (TrackerChannel { period: (c.note as i32).wrapping_mul(ARPEGGIO_TABLE[(effval >> 4) as int]) >> 16, ..c }, self.random)
            } else {
                (TrackerChannel { period: (c.note as i32).wrapping_mul(ARPEGGIO_TABLE[(effval & 0x0F) as int]) >> 16, ..c }, self.random)
            }
        } else if eff == 0x01 {
            (if t != 0 { TrackerChannel { period: c.period.wrapping_sub(effval as i32), ..c } } else { c }, self.random)
        } else if eff == 0x02 {
            (if t != 0 { TrackerChannel { period: c.period.wrapping_add(effval as i32), ..c } } else { c }, self.random)
        } else if eff == 0x05 {
            (if t != 0 { tone_portamento(volume_slide(c, effval), 0) } else { c }, self.random)
        } else if eff == 0x03 {
            (if t != 0 { tone_portamento(c, effval) } else { c }, self.random)
        } else if eff == 0x04 {
            if t != 0 {
                let v = Oscillator { phase: c.vibrato.phase.wrapping_add(c.vibrato.speed), ..c.vibrato };
                (TrackerChannel { vibrato: recalculated(v, self.random), ..c }, next_random(v, self.random))
            } else {
                (c, self.random)
            }
        } else if eff == 0x06 {
            if t != 0 {
                let v = Oscillator { phase: c.vibrato.phase.wrapping_add(c.vibrato.speed), ..c.vibrato };
                (volume_slide(TrackerChannel { vibrato: recalculated(v, self.random), ..c }, effval), next_random(v, self.random))
            } else {
                (c, self.random)
            }
        } else if eff == 0x0A {
            (if t != 0 { volume_slide(c, effval) } else { c }, self.random)
        } else if eff == 0x07 {
            if t != 0 {
                let v = Oscillator { phase: c.tremolo.phase.wrapping_add(c.tremolo.speed), ..c.tremolo };
                (TrackerChannel { tremolo: recalculated(v, self.random), ..c }, next_random(v, self.random))
            } else {
                (c, self.random)
            }
        } else if eff == 0x0E {
            let sub = effval >> 4;
            let x = effval & 0x0F;
            if sub == 0x09 {
                (if t != 0 && t.is_multiple_of(x) { TrackerChannel { samplegen: restart(c.samplegen), ..c } } else { c }, self.random)
            } else if sub == 0x0C {
                (if t >= x { TrackerChannel { volume: 0, ..c } } else { c }, self.random)
            } else if sub == 0x0D && t == x {
                (TrackerChannel { samplegen: restart(c.samplegen), period: c.note as i32, ..c }, self.random)
            } else {
                (c, self.random)
            }
        } else {
            (c, self.random)
        }
    }

    /// The period the mixer steps the sample at, for a channel with the given period and vibrato.
    pub open spec fn output_period(self, period: i32, vibrato: i32) -> u32 {
        if period != 0 {
            let combined = period.wrapping_add(vibrato >> 7);
            if combined > 0 { self.paularate / (combined as u32) } else { 0 }
        } else {
            0
        }
    }

    /// Channel `i` at the current tick: its running effect, then the period and volume handed to the mixer.
    pub open spec fn tick_channel(self, i: int) -> PlayerState<'a> {
        let c0 = self.ch[i];
        let (c, rnd) = if c0.eff != 0 || c0.effval != 0 { self.tick_effect(c0) } else { (c0, self.random) };
        let p: i32 = if c.period < 0 { 0 } else { c.period };
        let vol: int = c.volume as int + (c.tremolo.val >> 6) as int;
        let vol2: int = if vol < 0 { 0 } else if vol > 64 { 64 } else { vol };
        PlayerState {
            random: rnd,
            ..self.set_ch(i, TrackerChannel {
                period: p,
                samplegen: PaulaChannel {
                    period: self.output_period(p, c.vibrato.val),
                    volume: vol2 as i32,
                    ..c.samplegen
                },
                ..c
            })
        }
    }

    /// The first `k` channels at the current tick, in order.
    pub open spec fn tick_channels(self, k: nat) -> PlayerState<'a>
        decreases k,
    {
        if k == 0 {
            self
        } else {
            self.tick_channels((k - 1) as nat).tick_channel(k - 1)
        }
    }

    /// The tick counter advances; at the end of a row the song moves to the next row,
    /// or to the order and row that a jump asked for.
    pub open spec fn advance(self) -> PlayerState<'a> {
        let t = (self.tick + 1) as u8;
        if t >= self.maxtick {
            let s = PlayerState { tick: 0, maxtick: self.speed, ..self };
            if s.skiporderrequest >= 0 {
                PlayerState {
                    row: s.skiporderdestrow,
                    order: s.skiporderrequest as u8,
                    skiporderdestrow: 0,
                    skiporderrequest: -1i8,
                    ..s
                }
            } else if s.row + 1 >= 0x40 {
                let o = (s.order + 1) as u8;
                PlayerState { row: 0, order: if o >= s.orders { 0 } else { o }, ..s }
            } else {
                PlayerState { row: (s.row + 1) as u8, ..s }
            }
        } else {
            PlayerState { tick: t, ..self }
        }
    }

    /// One tick of the song.
    pub open spec fn step(self) -> PlayerState<'a> {
        let s1 = if self.tick == 0 { self.row_start() } else { self };
        s1.tick_channels(self.channels as nat).advance()
    }
}


/// A cell effect that leaves the position and tempo alone: no position jump (Bxx), no pattern
/// break (Dxx), no pattern loop (E6x with x > 0), no row delay (EEx) and no speed change (Fxx
/// below 0x20).
pub open spec fn plain_effect(eff: u8, effval: u8) -> bool {
    &&& eff != 0x0B
    &&& eff != 0x0D
    &&& !(eff == 0x0F && effval != 0 && effval < 0x20)
    &&& !(eff == 0x0E && (effval >> 4) == 0x06 && (effval & 0x0F) != 0)
    &&& !(eff == 0x0E && (effval >> 4) == 0x0E)
}

/// The cell that channel `i` reads at the current row has a plain effect.
pub open spec fn plain_cell<'a>(s: PlayerState<'a>, i: int) -> bool {
    plain_effect(s.patterndata[s.cell_index(i) + 2] & 0x0F, s.patterndata[s.cell_index(i) + 3])
}

/// The mixer's volume of the channel is between 0 and 64, its period is not negative, and a
/// channel without a period does not step through its sample.
pub open spec fn channel_settled<'a>(c: TrackerChannel<'a>) -> bool {
    &&& 0 <= c.samplegen.volume <= 64
    &&& c.period >= 0
    &&& c.period == 0 ==> c.samplegen.period == 0
}

impl<'a> PlayerState<'a> {
    /// Every cell of the current row has a plain effect.
    pub open spec fn row_plain(self) -> bool {
        forall|i: int| 0 <= i < self.channels ==> #[trigger] plain_cell(self, i)
    }

    /// The tick counter agrees with the row's length: at the start of a row the row lasts
    /// `speed` ticks, within a row the counter is below the row's length, and within a plain
    /// row the length is `speed` and no jump is pending.
    pub open spec fn course_ok(self) -> bool {
        &&& self.tick == 0 ==> self.maxtick == self.speed
        &&& self.tick != 0 ==> self.tick < self.maxtick
        &&& self.tick != 0 && self.row_plain() ==> self.maxtick == self.speed && self.skiporderrequest < 0
    }

    /// Every channel of the module is settled (see `channel_settled`).
    pub open spec fn settled(self) -> bool {
        forall|i: int| 0 <= i < self.channels ==> #[trigger] channel_settled(self.ch[i])
    }
}

// -------------------------------------------------------------------- loading

/// The channel count that the four signature bytes announce, or 0 for an unknown signature:
/// "M.K." and "M!K!" have 4, "FLTn" and "nCHN" have n, "nnCH" has the two-digit count
/// (taken modulo 256, and with the second digit unchecked above).
pub open spec fn signature_channels(b0: u8, b1: u8, b2: u8, b3: u8) -> u8 {
    if b0 == 0x4D && b2 == 0x4B && ((b1 == 0x2E && b3 == 0x2E) || (b1 == 0x21 && b3 == 0x21)) {
        4
    } else if b0 == 0x46 && b1 == 0x4C && b2 == 0x54 && 0x31 <= b3 <= 0x39 {
        (b3 - 0x30) as u8
    } else if b1 == 0x43 && b2 == 0x48 && b3 == 0x4E && 0x31 <= b0 <= 0x39 {
        (b0 - 0x30) as u8
    } else if b2 == 0x43 && b3 == 0x48 && 0x30 <= b0 <= 0x39 && b1 >= 0x30 {
        (((b0 - 0x30) * 10 + (b1 - 0x30)) % 256) as u8
    } else {
        0
    }
}

/// The largest byte of a sequence (0 for an empty one).
pub open spec fn seq_max(s: Seq<u8>) -> u8
    decreases s.len(),
{
    if s.len() == 0 {
        0
    } else {
        let m = seq_max(s.drop_last());
        if s.last() > m { s.last() } else { m }
    }
}

pub open spec fn module_channels(data: Seq<u8>) -> u8 {
    signature_channels(data[1080], data[1081], data[1082], data[1083])
}

/// One more than the largest pattern number in the order table, modulo 256.
pub open spec fn module_maxpattern(data: Seq<u8>) -> u8 {
    seq_max(data.subrange(952, 1080)).wrapping_add(1)
}

/// Where the pattern data of a module ends: 64 rows of 4-byte cells per channel and pattern.
pub open spec fn pattern_end(data: Seq<u8>) -> int {
    1084 + 256 * module_channels(data) * module_maxpattern(data)
}

/// A module is accepted when it has a header, a channel count from 2 to the player's
/// capacity (and at most 32), and all its pattern data.
pub open spec fn accepts(data: Seq<u8>, capacity: nat) -> bool {
    &&& data.len() >= 1084
    &&& 2 <= module_channels(data)
    &&& module_channels(data) <= capacity
    &&& module_channels(data) <= 32
    &&& pattern_end(data) <= data.len()
}

/// Where the header of sample `i` (0 to 30) starts.
pub open spec fn header_offset(i: int) -> int {
    20 + 30 * i
}

/// The length in words that the header of sample `i` gives.
pub open spec fn header_length(data: Seq<u8>, i: int) -> u16 {
    be16(data[header_offset(i) + 22], data[header_offset(i) + 23])
}

/// Where the data of sample `i` starts: the samples follow the patterns, one after another.
pub open spec fn sample_start(data: Seq<u8>, i: nat) -> int
    decreases i,
{
    if i == 0 {
        pattern_end(data)
    } else {
        sample_start(data, (i - 1) as nat) + 2 * header_length(data, i - 1)
    }
}

/// The bytes of sample `i`, or nothing when the module is cut short before its end.
pub open spec fn sample_bytes(data: Seq<u8>, i: nat) -> Seq<u8> {
    let st = sample_start(data, i);
    let n = 2 * header_length(data, i as int);
    if st + n <= data.len() { data.subrange(st, st + n) } else { seq![] }
}

/// The played length and loop length of a sample, in words. A loop that reaches past the
/// end is read as having its start given in bytes; arithmetic is modulo 65536.
pub open spec fn loop_lengths(h: SampleHeader) -> (u16, u16) {
    let act = h.looplength.wrapping_add(h.looppoint);
    if act < 2 {
        (h.length, 0)
    } else if act > h.length {
        let lp = h.looppoint / 2;
        let a2 = act.wrapping_sub(lp);
        (a2, a2.wrapping_sub(lp))
    } else {
        (act, act.wrapping_sub(h.looppoint))
    }
}

/// The Paula clock (3546895 Hz) over the output rate, in 16.16 fixed point, modulo 2^32.
pub open spec fn paula_rate(samplerate: u32) -> u32 {
    ((3546895int / (samplerate as int)) * 65536) as u32
}

impl<'a> PlayerState<'a> {
    /// The playback position, tempo, channels and rules back at the start of the song.
    pub open spec fn reset(self) -> PlayerState<'a> {
        PlayerState {
            order: 0,
            row: 0,
            tick: 0,
            maxtick: 6,
            speed: 6,
            skiporderrequest: -1i8,
            skiporderdestrow: 0,
            patlooprow: 0,
            patloopcycle: 0,
            audiospeed: self.samplerate / 50,
            audiotick: 0,
            random: 0,
            ch: Seq::new(self.ch.len(), |j: int| fresh_channel()),
            rules: None,
            ..self
        }
    }

    /// The state a module loads into.
    pub open spec fn loaded_from(self, data: Seq<u8>, samplerate: u32, capacity: nat) -> bool {
        &&& self.channels == module_channels(data)
        &&& self.orders == data[950]
        &&& self.maxpattern == module_maxpattern(data)
        &&& self.ordertable == data.subrange(952, 1080)
        &&& self.patterndata == data.subrange(1084, pattern_end(data))
        &&& self.headers.len() == 31
        &&& self.samples.len() == 31
        &&& forall|i: int| 0 <= i < 31 ==> #[trigger] reads_header(self.headers[i], data, header_offset(i))
        &&& forall|i: int| 0 <= i < 31 ==> #[trigger] self.samples[i].data@ == sample_bytes(data, i as nat)
        &&& forall|i: int| 0 <= i < 31 ==>
            (#[trigger] self.samples[i].actuallength, self.samples[i].looplength) == loop_lengths(self.headers[i])
        &&& self.samplerate == samplerate
        &&& self.paularate == paula_rate(samplerate)
        &&& self.ch.len() == capacity
        &&& self == self.reset()
    }

    // ---------------------------------------------------------------- seeking

    /// Ticks until the order reaches `target` or the song wraps back to an earlier order;
    /// `None` when that takes more than `fuel` ticks, or a tick on the way would read a
    /// missing cell.
    pub open spec fn seek(self, prev: u8, target: u8, fuel: nat) -> Option<PlayerState<'a>>
        decreases fuel,
    {
        if self.order >= target {
            Some(self)
        } else if fuel == 0 || !self.reads_ok() {
            None
        } else {
            let t = self.step();
            if prev > t.order { Some(t) } else { t.seek(t.order, target, (fuel - 1) as nat) }
        }
    }

    /// The order a jump aims at: -2 is the previous order, -1 the next, anything else that
    /// order, each kept within the song.
    pub open spec fn jump_target(self, dest: i32) -> u8 {
        let cur = self.order as int;
        let last = self.orders as int - 1;
        if dest == -2 {
            (if cur - 1 > 0 { cur - 1 } else { 0 }) as u8
        } else if dest == -1 {
            (if cur + 1 < last { cur + 1 } else { last }) as u8
        } else {
            let d = if dest > 0 { dest as int } else { 0 };
            (if d < last { d } else { last }) as u8
        }
    }

    /// Playing from the start reaches the jump's target order, or wraps, in finitely many ticks.
    pub open spec fn jump_halts(self, dest: i32) -> bool {
        exists|f: nat| self.reset().seek(0, self.jump_target(dest), f) is Some
    }

    pub open spec fn jump_result(self, dest: i32) -> PlayerState<'a> {
        let f = choose|f: nat| self.reset().seek(0, self.jump_target(dest), f) is Some;
        self.reset().seek(0, self.jump_target(dest), f).unwrap()
    }
}


// -------------------------------------------------------------------- mixing

/// Division rounding toward zero, as integer division in the mixer does.
pub open spec fn div_trunc(a: int, b: int) -> int {
    if a >= 0 { a / b } else { -((-a) / b) }
}

/// A position past the end of a looping sample moves back by whole loop lengths until it
/// lies within the sample.
pub open spec fn rewind(ptr: u32, length: u32, looplength: u32) -> u32
    decreases ptr,
{
    if ptr >= length && 0 < looplength && looplength <= ptr {
        rewind((ptr - looplength) as u32, length, looplength)
    } else {
        ptr
    }
}

/// The position after `ptr` within a sample of the given length: the loop start at the end
/// of a looping sample, `ptr` itself at the end of another one.
pub open spec fn next_position(ptr: u32, length: u32, looplength: u32) -> u32 {
    if ptr + 1 < length {
        (ptr + 1) as u32
    } else if looplength != 0 {
        (length - looplength) as u32
    } else {
        ptr
    }
}

/// The sample value of a generator at its position, interpolated between the byte there and
/// the next one by the sub-position, and scaled by the volume (out of 64).
pub open spec fn sample_value(d: Seq<u8>, ptr: u32, next: u32, sub: u32, volume: i32) -> i32 {
    let s1 = (d[ptr as int] as i8) as int;
    let s2 = (d[next as int] as i8) as int;
    div_trunc((s1 * (0x10000 - sub as int) + s2 * sub as int) * volume as int, 65536) as i32
}

/// One output frame of one channel: the channel's value is added to the left and right sums
/// (channels 1 and 2 of every four lean right, the others left), and the generator steps on by
/// its period. A finished non-looping sample adds nothing and stays where it is.
pub open spec fn mix_channel<'a>(g: PaulaChannel<'a>, ci: int, major: i32, minor: i32, l: i32, r: i32) -> (PaulaChannel<'a>, i32, i32) {
    match g.sample {
        None => (g, l, r),
        Some(d) => {
            if g.looplength == 0 && g.currentptr >= g.length {
                (g, l, r)
            } else {
                let ptr = rewind(g.currentptr, g.length, g.looplength);
                let (l2, r2) = if !g.muted {
                    let smp = sample_value(d@, ptr, next_position(ptr, g.length, g.looplength), g.currentsubptr, g.volume);
                    if ci % 4 == 1 || ci % 4 == 2 {
                        (l.wrapping_add(smp.wrapping_mul(minor)), r.wrapping_add(smp.wrapping_mul(major)))
                    } else {
                        (l.wrapping_add(smp.wrapping_mul(major)), r.wrapping_add(smp.wrapping_mul(minor)))
                    }
                } else {
                    (l, r)
                };
                let sub = g.currentsubptr.wrapping_add(g.period);
                let ptr2 = if sub >= 0x10000 { ptr.wrapping_add(sub >> 16) } else { ptr };
                let sub2 = if sub >= 0x10000 { sub & 0xFFFF } else { sub };
                (PaulaChannel {
                    currentptr: ptr2,
                    currentsubptr: sub2,
                    age: if g.age < AGE_MAX { (g.age + 1) as u32 } else { g.age },
                    ..g
                }, l2, r2)
            }
        },
    }
}

impl<'a> PlayerState<'a> {
    /// The first `k` channels mixed into one frame, from sums of zero.
    pub open spec fn mix_channels(self, k: nat, major: i32, minor: i32) -> (PlayerState<'a>, i32, i32)
        decreases k,
    {
        if k == 0 {
            (self, 0, 0)
        } else {
            let (s, l, r) = self.mix_channels((k - 1) as nat, major, minor);
            let c = s.ch[k - 1];
            let (g, l2, r2) = mix_channel(c.samplegen, k - 1, major, minor, l, r);
            (s.set_ch(k - 1, TrackerChannel { samplegen: g, ..c }), l2, r2)
        }
    }

    /// The weight of a channel on its own side: 2 (in 16.16 fixed point) over half the channels.
    pub open spec fn major_mul(self) -> i32 {
        let half: int = if self.channels as int / 2 > 1 { self.channels as int / 2 } else { 1 };
        (131072int / half) as i32
    }

    /// The weight of a channel on the other side: a third of the major one.
    pub open spec fn minor_mul(self) -> i32 {
        let half: int = if self.channels as int / 2 > 1 { self.channels as int / 2 } else { 1 };
        (131072int / 3 / half) as i32
    }

    /// The state before the channels are mixed into a frame: a tick is played when the frame
    /// counter has run out, and the counter counts down (modulo 2^32).
    pub open spec fn frame_start(self) -> PlayerState<'a> {
        let s1 = if self.audiotick == 0 {
            let t = self.step();
            PlayerState { audiotick: t.audiospeed, ..t }
        } else {
            self
        };
        PlayerState { audiotick: s1.audiotick.wrapping_sub(1), ..s1 }
    }

    /// One stereo frame: the state after it, and its left and right samples.
    pub open spec fn frame(self) -> (PlayerState<'a>, i16, i16) {
        let (s, l, r) = self.frame_start().mix_channels(self.channels as nat, self.major_mul(), self.minor_mul());
        (s, div_trunc(l as int, 65536) as i16, div_trunc(r as int, 65536) as i16)
    }

    /// `n` frames: the state after them, and their samples, left and right interleaved.
    /// Rendering stops for good at a frame that is due a tick that would read a missing cell.
    pub open spec fn render_run(self, n: nat) -> (PlayerState<'a>, Seq<i16>)
        decreases n,
    {
        if n == 0 {
            (self, seq![])
        } else {
            let (s, out) = self.render_run((n - 1) as nat);
            if s.stuck() {
                (s, out)
            } else {
                let (s2, a, b) = s.frame();
                (s2, out + seq![a, b])
            }
        }
    }
}

} // verus!
