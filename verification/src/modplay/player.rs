//! The player: loading a module, ticking through its patterns, and mixing its channels.
use vstd::prelude::*;
use vstd::slice::slice_subrange;

use super::model::{
    accepts, action_ok, actions_ok, div_trunc, mix_channel, next_position, rewind, tone_portamento, volume_slide, break_row, cell_note, cell_sample, channel_basic, channel_fits, channel_ok, sample_ok, cell_sample_ok, plain_cell, cell_starts_ok, sample_index, fresh_channel, loop_lengths, header_length, header_offset, pattern_end, rules_ok,
    module_maxpattern, sample_bytes, sample_start, seq_max, signature_channels, PlayerState,
};
use super::laws::{lemma_channels_and_speed_kept, lemma_render_keeps_valid, lemma_render_settles, lemma_restart_settles, lemma_step_course, lemma_step_settled};
use super::types::{
    recalculate_waveform, reads_header, ARPEGGIO_TABLE, FINETUNE_TABLE, ModAction, ModRule, Oscillator, PaulaChannel, Sample, SampleHeader, TrackerChannel, AGE_MAX,
};

verus! {

/// Plays a ProTracker module held in memory, with room for up to `N` channels.
pub struct ModPlayer<'a, const N: usize> {
    channels: u8,
    orders: u8,
    maxpattern: u8,
    order: u8,
    row: u8,
    tick: u8,
    maxtick: u8,
    speed: u8,
    skiporderrequest: i8,
    skiporderdestrow: u8,
    patlooprow: u8,
    patloopcycle: u8,
    samplerate: u32,
    paularate: u32,
    audiospeed: u32,
    audiotick: u32,
    random: u32,
    ch: Vec<TrackerChannel<'a>>,
    patterndata: &'a [u8],
    ordertable: &'a [u8],
    sampleheaders: Vec<SampleHeader>,
    samples: Vec<Sample<'a>>,
    rules: Option<&'a [ModRule<'a>]>,
}

/// The rules a player holds, as a sequence.
pub open spec fn rules_view<'a>(r: Option<&'a [ModRule<'a>]>) -> Option<Seq<ModRule<'a>>> {
    match r {
        Some(x) => Some(x@),
        None => None,
    }
}

impl<'a, const N: usize> View for ModPlayer<'a, N> {
    type V = PlayerState<'a>;

    closed spec fn view(&self) -> PlayerState<'a> {
        PlayerState {
            channels: self.channels,
            orders: self.orders,
            maxpattern: self.maxpattern,
            order: self.order,
            row: self.row,
            tick: self.tick,
            maxtick: self.maxtick,
            speed: self.speed,
            skiporderrequest: self.skiporderrequest,
            skiporderdestrow: self.skiporderdestrow,
            patlooprow: self.patlooprow,
            patloopcycle: self.patloopcycle,
            samplerate: self.samplerate,
            paularate: self.paularate,
            audiospeed: self.audiospeed,
            audiotick: self.audiotick,
            random: self.random,
            ch: self.ch@,
            patterndata: self.patterndata@,
            ordertable: self.ordertable@,
            headers: self.sampleheaders@,
            samples: self.samples@,
            rules: rules_view(self.rules),
        }
    }
}

/// The channel count the signature announces; the four checks exclude one another.
fn read_signature(b0: u8, b1: u8, b2: u8, b3: u8) -> (c: u8)
    ensures
        c == signature_channels(b0, b1, b2, b3),
{
    let mut c: u8 = 0;
    if b0 == 0x4D && b2 == 0x4B && ((b1 == 0x2E && b3 == 0x2E) || (b1 == 0x21 && b3 == 0x21)) {
        c = 4;
    }
    if b0 == 0x46 && b1 == 0x4C && b2 == 0x54 {
        if 0x31 <= b3 && b3 <= 0x39 {
            c = b3 - 0x30;
        }
    }
    if b1 == 0x43 && b2 == 0x48 && b3 == 0x4E {
        if 0x31 <= b0 && b0 <= 0x39 {
            c = b0 - 0x30;
        }
    }
    if b2 == 0x43 && b3 == 0x48 {
        let high = b0;
        let low = b1;
        if 0x30 <= high && high <= 0x39 && low >= 0x30 {
            c = ((high - 0x30) * 10).wrapping_add(low - 0x30);
        }
    }
    c
}

/// The played length and loop length of a sample.
fn sample_lengths(hdr: SampleHeader) -> (r: (u16, u16))
    ensures
        r == loop_lengths(hdr),
{
    let looppoint = hdr.looppoint;
    let mut act = hdr.looplength;
    act = act.wrapping_add(looppoint);
    if act < 2 {
        (hdr.length, 0)
    } else if act > hdr.length {
        let lp = looppoint / 2;
        act = act.wrapping_sub(lp);
        (act, act.wrapping_sub(lp))
    } else {
        (act, act.wrapping_sub(looppoint))
    }
}

/// A channel before any note was played on it.
fn new_channel<'a>() -> (c: TrackerChannel<'a>)
    ensures
        c == fresh_channel::<'a>(),
{
    TrackerChannel {
        note: 0,
        sample: 0,
        eff: 0,
        effval: 0,
        slideamount: 0,
        sampleoffset: 0,
        volume: 0,
        slidenote: 0,
        period: 0,
        vibrato: Oscillator { val: 0, waveform: 0, phase: 0, speed: 0, depth: 0 },
        tremolo: Oscillator { val: 0, waveform: 0, phase: 0, speed: 0, depth: 0 },
        samplegen: PaulaChannel {
            sample: None,
            age: AGE_MAX,
            currentptr: 0,
            length: 0,
            looplength: 0,
            period: 0,
            volume: 0,
            currentsubptr: 0,
            muted: false,
        },
    }
}

/// `n` fresh channels.
fn fresh_channels<'a>(n: usize) -> (v: Vec<TrackerChannel<'a>>)
    ensures
        v@ == Seq::new(n as nat, |j: int| fresh_channel::<'a>()),
{
    let mut v: Vec<TrackerChannel<'a>> = Vec::new();
    let mut k: usize = 0;
    while k < n
        invariant
            k <= n,
            v@ == Seq::new(k as nat, |j: int| fresh_channel::<'a>()),
        decreases n - k,
    {
        v.push(new_channel());
        k = k + 1;
        assert(v@ =~= Seq::new(k as nat, |j: int| fresh_channel::<'a>()));
    }
    v
}

proof fn lemma_fresh_channels_ok<'a>(v: Seq<TrackerChannel<'a>>)
    requires
        forall|j: int| 0 <= j < v.len() ==> #[trigger] v[j] == fresh_channel::<'a>(),
    ensures
        forall|j: int| 0 <= j < v.len() ==> #[trigger] channel_basic(v[j]) && channel_fits(v[j]),
{
}

impl<'a, const N: usize> ModPlayer<'a, N> {
    /// The player holds a module that it can play, at a position it can play from.
    pub open spec fn wf(&self) -> bool {
        self@.valid() && self@.ch.len() == N
    }

    /// Loads a module. Returns `None` when the data is shorter than a header, the signature
    /// does not announce between 2 and `min(N, 32)` channels, or the pattern data is cut short.
    /// A module with more than 128 orders, or whose order table names pattern 255, loads but
    /// is not well formed: it cannot be played (its song would index past the order table, or
    /// it has no pattern data).
    pub fn new(mod_data: &'a [u8], samplerate: u32) -> (r: Option<Self>)
        requires
            accepts(mod_data@, N as nat) ==> samplerate > 0,
        ensures
            r is Some <==> accepts(mod_data@, N as nat),
            r matches Some(p) ==> p@.loaded_from(mod_data@, samplerate, N as nat),
            r matches Some(p) ==> (p.wf() <==> p@.file_ok()),
            r matches Some(p) ==> (p.wf() <==> mod_data@[950] <= 128 && module_maxpattern(mod_data@) != 0),
            r matches Some(p) ==> p@.settled() && p@.course_ok(),
    {
        if mod_data.len() < 1084 {
            return None;
        }
        let channels = read_signature(mod_data[1080], mod_data[1081], mod_data[1082], mod_data[1083]);
        let cap: usize = if N < 32 { N } else { 32 };
        if channels < 2 || channels as usize > cap {
            return None;
        }
        let orders = mod_data[950];
        let ordertable = slice_subrange(mod_data, 952, 952 + 128);

        let mut mx: u8 = 0;
        let mut j: usize = 0;
        while j < 128
            invariant
                j <= 128,
                ordertable@.len() == 128,
                mx == seq_max(ordertable@.subrange(0, j as int)),
            decreases 128 - j,
        {
            assert(ordertable@.subrange(0, j + 1).drop_last() =~= ordertable@.subrange(0, j as int));
            if ordertable[j] > mx {
                mx = ordertable[j];
            }
            j = j + 1;
        }
        assert(ordertable@.subrange(0, 128) =~= ordertable@);
        assert(ordertable@ =~= mod_data@.subrange(952, 1080));
        let maxpattern = mx.wrapping_add(1);

        assert(256 * (channels as int) * (maxpattern as int) <= 256 * 32 * 255) by (nonlinear_arith)
            requires channels <= 32, maxpattern <= 255;
        let pattern_data_size: usize = 64 * 4 * channels as usize * maxpattern as usize;
        let patterndata_end = 1084 + pattern_data_size;
        if patterndata_end > mod_data.len() {
            return None;
        }
        let patterndata = slice_subrange(mod_data, 1084, patterndata_end);

        let mut sampleheaders: Vec<SampleHeader> = Vec::new();
        let mut i: usize = 0;
        while i < 31
            invariant
                i <= 31,
                mod_data@.len() >= 1084,
                sampleheaders@.len() == i,
                forall|k: int| 0 <= k < i ==> #[trigger] reads_header(sampleheaders@[k], mod_data@, header_offset(k)),
            decreases 31 - i,
        {
            let offset = 20 + i * 30;
            assert(offset + 30 <= 1084);
            let mut bytes = [0u8; 30];
            let mut k: usize = 0;
            while k < 30
                invariant
                    k <= 30,
                    offset + 30 <= mod_data@.len(),
                    offset + 30 <= 1084,
                    forall|m: int| 0 <= m < k ==> bytes@[m] == mod_data@[offset + m],
                decreases 30 - k,
            {
                bytes[k] = mod_data[offset + k];
                k = k + 1;
            }
            let h = SampleHeader::from_bytes(&bytes);
            proof {
                assert(bytes@ =~= mod_data@.subrange(offset as int, offset + 30));
                assert(h.name@ =~= mod_data@.subrange(offset as int, offset + 22));
                assert(header_offset(i as int) == offset);
                assert(reads_header(h, mod_data@, header_offset(i as int)));
            }
            sampleheaders.push(h);
            assert(sampleheaders@[i as int] == h);
            i = i + 1;
        }

        let mut sample_cursor: usize = patterndata_end;
        let mut samples: Vec<Sample<'a>> = Vec::new();
        let mut i: usize = 0;
        while i < 31
            invariant
                i <= 31,
                mod_data@.len() >= 1084,
                sampleheaders@.len() == 31,
                forall|k: int| 0 <= k < 31 ==> #[trigger] reads_header(sampleheaders@[k], mod_data@, header_offset(k)),
                patterndata_end as int == pattern_end(mod_data@),
                patterndata_end <= 1084 + 256 * 32 * 256,
                sample_cursor as int == sample_start(mod_data@, i as nat),
                sample_cursor <= patterndata_end + 131070 * i,
                samples@.len() == i,
                forall|k: int| 0 <= k < i ==> #[trigger] samples@[k].data@ == sample_bytes(mod_data@, k as nat),
                forall|k: int| 0 <= k < i ==>
                    (#[trigger] samples@[k].actuallength, samples@[k].looplength) == loop_lengths(sampleheaders@[k]),
            decreases 31 - i,
        {
            let hdr = sampleheaders[i];
            assert(reads_header(sampleheaders@[i as int], mod_data@, header_offset(i as int)));
            assert(hdr.length == header_length(mod_data@, i as int));
            let byte_len = hdr.length as usize * 2;
            let data: &'a [u8] = if sample_cursor + byte_len <= mod_data.len() {
                slice_subrange(mod_data, sample_cursor, sample_cursor + byte_len)
            } else {
                slice_subrange(mod_data, 0, 0)
            };
            assert(data@ =~= sample_bytes(mod_data@, i as nat));
            sample_cursor = sample_cursor + byte_len;
            let (actuallength, looplength) = sample_lengths(hdr);
            let ghost before = samples@;
            samples.push(Sample { data, actuallength, looplength });
            assert(samples@[i as int].data@ == sample_bytes(mod_data@, i as nat));
            assert forall|k: int| 0 <= k < i + 1 implies #[trigger] samples@[k].data@ == sample_bytes(mod_data@, k as nat) by {
                if k < i {
                    assert(samples@[k] == before[k]);
                }
            }
            i = i + 1;
        }

        let paularate = ((3546895u64 / samplerate as u64) * 65536) as u32;
        let ch = fresh_channels(N);
        proof {
            lemma_fresh_channels_ok(ch@);
        }
        let p = ModPlayer {
            channels,
            orders,
            maxpattern,
            order: 0,
            row: 0,
            tick: 0,
            maxtick: 6,
            speed: 6,
            skiporderrequest: -1,
            skiporderdestrow: 0,
            patlooprow: 0,
            patloopcycle: 0,
            samplerate,
            paularate,
            audiospeed: samplerate / 50,
            audiotick: 0,
            random: 0,
            ch,
            patterndata,
            ordertable,
            sampleheaders,
            samples,
            rules: None,
        };
        assert(p@ =~= p@.reset());
        proof {
            lemma_seq_max_bound(ordertable@);
            lemma_restart_settles(p@, 0);
        }
        Some(p)
    }

    /// Sets the rules that fire at the start of matching rows (or removes them).
    pub fn set_rules(&mut self, rules: Option<&'a [ModRule<'a>]>)
        ensures
            final(self)@ == (PlayerState { rules: rules_view(rules), ..old(self)@ }),
            old(self).wf() && rules_ok(rules_view(rules)) ==> final(self).wf(),
            final(self)@.settled() == old(self)@.settled(),
            final(self)@.course_ok() == old(self)@.course_ok(),
    {
        self.rules = rules;
        proof {
            let (p, q) = (old(self)@, self@);
            assert(q.row_plain() == p.row_plain()) by {
                assert forall|i: int| 0 <= i < q.channels implies plain_cell(q, i) == plain_cell(p, i) by {
                    assert(q.cell_index(i) == p.cell_index(i));
                }
            }
            assert(q.settled() == p.settled()) by {
                assert(q.ch == p.ch);
            }
        }
    }

    /// Number of channels of the module.
    pub fn channels(&self) -> (r: u8)
        ensures
            r == self@.channels,
    {
        self.channels
    }

    /// Current position in the order table.
    pub fn order(&self) -> (r: u8)
        ensures
            r == self@.order,
    {
        self.order
    }

    /// Current row of the pattern.
    pub fn row(&self) -> (r: u8)
        ensures
            r == self@.row,
    {
        self.row
    }

    /// Current tick within the row.
    pub fn tick(&self) -> (r: u8)
        ensures
            r == self@.tick,
    {
        self.tick
    }

    /// Ticks per row.
    pub fn speed(&self) -> (r: u8)
        ensures
            r == self@.speed,
    {
        self.speed
    }

    /// The module's channels.
    pub fn track(&self) -> (r: &[TrackerChannel<'a>])
        requires
            self@.channels <= self@.ch.len(),
        ensures
            r@ == self@.ch.subrange(0, self@.channels as int),
    {
        slice_subrange(self.ch.as_slice(), 0, self.channels as usize)
    }
}



/// A volume slide on a channel whose volume is in range.
fn slide_volume<'a>(c: TrackerChannel<'a>, effval: u8) -> (r: TrackerChannel<'a>)
    requires
        0 <= c.volume <= 255,
    ensures
        r == volume_slide(c, effval),
{
    let mut c = c;
    if effval > 0x0F {
        c.volume += (effval >> 4) as i16;
        if c.volume > 0x40 {
            c.volume = 0x40;
        }
    } else {
        c.volume -= (effval & 0x0F) as i16;
        if c.volume < 0x00 {
            c.volume = 0x00;
        }
    }
    c
}

/// Tone portamento towards the channel's slide target.
fn slide_to_note<'a>(c: TrackerChannel<'a>, effval: u8) -> (r: TrackerChannel<'a>)
    ensures
        r == tone_portamento(c, effval),
{
    let mut c = c;
    let amt: i32 = if effval == 0 { c.slideamount as i32 } else { effval as i32 };
    let slidenote = c.slidenote;
    if slidenote > c.period {
        c.period = c.period.wrapping_add(amt);
        if slidenote < c.period {
            c.period = slidenote;
        }
    } else if slidenote < c.period {
        c.period = c.period.wrapping_sub(amt);
        if slidenote > c.period {
            c.period = slidenote;
        }
    }
    c
}

impl<'a, const N: usize> ModPlayer<'a, N> {
    /// Index of the cell that channel `i` reads at the current order and row.
    fn cell_offset(&self, i: usize) -> (r: usize)
        requires
            self.wf(),
            self@.row_in_bounds(),
            i < self@.channels,
        ensures
            r as int == self@.cell_index(i as int),
            r + 4 <= self@.patterndata.len(),
    {
        let nch = self.channels as usize;
        let pat = self.ordertable[self.order as usize] as usize;
        proof {
            lemma_cell_bound(i as int, nch as int, self.row as int, pat as int, self.maxpattern as int);
            assert(4 * (64 * (nch as int) * (self.maxpattern as int)) == 256 * (nch as int) * (self.maxpattern as int))
                by (nonlinear_arith);
            assert(256 * (nch as int) * (self.maxpattern as int) <= 256 * 32 * 255) by (nonlinear_arith)
                requires nch <= 32, self.maxpattern <= 255;
            assert(nch * (self.row as usize + 64 * pat) <= i + nch * (self.row as usize + 64 * pat));
        }
        4 * (i + nch * (self.row as usize + 64 * pat))
    }

    /// The channel after reading the cell `b0 b1 b2 b3`, before its effect.
    fn prepare_channel(&self, c: TrackerChannel<'a>, b0: u8, b1: u8, b2: u8, b3: u8) -> (r: TrackerChannel<'a>)
        requires
            self.wf(),
        ensures
            r == self@.row_prepare(c, b0, b1, b2, b3),
    {
        proof {
            reveal(PlayerState::row_prepare);
        }
        let note_raw: u16 = ((b0 as u16) << 8 | b1 as u16) & 0x0FFF;
        let sample_num: u8 = (b0 & 0xF0) | (b2 >> 4);
        let eff = b2 & 0x0F;
        let effval = b3;
        let mut c = c;
        c.vibrato.val = 0;
        c.tremolo.val = 0;
        if c.eff == 0 && c.effval != 0 {
            c.period = c.note as i32;
        }
        if sample_num != 0 {
            let idx = (if sample_num > 31 { 1 } else { sample_num }) as usize - 1;
            c.sample = sample_num;
            c.samplegen.length = (self.samples[idx].actuallength as u32) << 1;
            c.samplegen.looplength = (self.samples[idx].looplength as u32) << 1;
            c.volume = self.sampleheaders[idx].volume as i16;
            c.samplegen.sample = Some(self.samples[idx].data);
        }
        if note_raw != 0 {
            let finetune = if eff == 0x0E && (effval & 0xF0) == 0x50 {
                effval & 0x0F
            } else {
                let si = c.sample as usize;
                if si < 31 { self.sampleheaders[si].finetune } else { 0 }
            };
            let ft = finetune & 0x0F;
            assert(ft < 16) by (bit_vector) requires ft == finetune & 0x0F;
            let note_fixed = (note_raw as i32).wrapping_mul(FINETUNE_TABLE[ft as usize]) >> 16;
            c.note = note_fixed as u32;
            if eff != 0x03 && eff != 0x05 && (eff != 0x0E || (effval & 0xF0) != 0xD0) {
                c.samplegen.age = 0;
                c.samplegen.currentptr = 0;
                c.period = note_fixed;
                if c.vibrato.waveform < 4 {
                    c.vibrato.phase = 0;
                }
                if c.tremolo.waveform < 4 {
                    c.tremolo.phase = 0;
                }
            }
        }
        c
    }

    /// The extended effects Exy at the start of a row.
    fn row_extended(&mut self, i: usize, c: TrackerChannel<'a>, effval: u8)
        requires
            old(self).wf(),
            i < old(self)@.channels,
            channel_basic(c),
        ensures
            final(self)@ == old(self)@.row_extended(i as int, c, effval),
    {
        let mut c = c;
        let x = effval & 0x0F;
        assert(x <= 15) by (bit_vector) requires x == effval & 0x0F;
        let sub = effval >> 4;
        if sub == 0x01 {
            c.period = c.period.wrapping_sub(x as i32);
        } else if sub == 0x02 {
            c.period = c.period.wrapping_add(x as i32);
        } else if sub == 0x04 {
            c.vibrato.waveform = effval & 0x07;
        } else if sub == 0x06 {
            if x != 0 {
                if self.patloopcycle == 0 {
                    self.patloopcycle = x + 1;
                }
                if self.patloopcycle > 1 {
                    self.skiporderrequest = self.order as i8;
                    self.skiporderdestrow = self.patlooprow;
                }
                self.patloopcycle -= 1;
            } else {
                self.patlooprow = self.row;
            }
        } else if sub == 0x07 {
            c.tremolo.waveform = effval & 0x07;
        } else if sub == 0x0A {
            c.volume += x as i16;
            if c.volume > 0x40 {
                c.volume = 0x40;
            }
        } else if sub == 0x0B {
            c.volume -= x as i16;
            if c.volume < 0x00 {
                c.volume = 0x00;
            }
        } else if sub == 0x0E {
            self.maxtick = self.maxtick.wrapping_mul(x + 1);
        }
        self.ch[i] = c;
    }

    /// The effect of a cell at the start of a row, on channel `i` now holding `c`.
    fn row_effect(&mut self, i: usize, c: TrackerChannel<'a>, note_raw: u16, eff: u8, effval: u8)
        requires
            old(self).wf(),
            i < old(self)@.channels,
            channel_basic(c),
        ensures
            final(self)@ == old(self)@.row_effect(i as int, c, note_raw, eff, effval),
    {
        proof {
            reveal(PlayerState::row_effect);
        }
        let mut c = c;
        if eff == 0 && effval == 0 {
        } else if eff == 0x03 {
            if effval != 0 {
                c.slideamount = effval;
            }
            c.slidenote = c.note as i32;
        } else if eff == 0x05 {
            c.slidenote = c.note as i32;
        } else if eff == 0x04 {
            if effval & 0xF0 != 0 {
                c.vibrato.speed = effval >> 4;
            }
            if effval & 0x0F != 0 {
                c.vibrato.depth = effval & 0x0F;
            }
            recalculate_waveform(&mut c.vibrato, &mut self.random);
        } else if eff == 0x06 {
            recalculate_waveform(&mut c.vibrato, &mut self.random);
        } else if eff == 0x07 {
            if effval & 0xF0 != 0 {
                c.tremolo.speed = effval >> 4;
            }
            if effval & 0x0F != 0 {
                c.tremolo.depth = effval & 0x0F;
            }
            recalculate_waveform(&mut c.tremolo, &mut self.random);
        } else if eff == 0x0C {
            c.volume = if effval > 0x40 { 0x40 } else { effval as i16 };
        } else if eff == 0x09 {
            if note_raw != 0 {
                if effval != 0 {
                    c.samplegen.currentptr = (effval as u32) << 8;
                    c.sampleoffset = effval;
                } else {
                    c.samplegen.currentptr = (c.sampleoffset as u32) << 8;
                }
                c.samplegen.age = 0;
            }
        } else if eff == 0x0B {
            let dest = if effval >= self.orders { 0 } else { effval };
            self.skiporderrequest = dest as i8;
        } else if eff == 0x0D {
            if self.skiporderrequest < 0 {
                self.skiporderrequest = if self.order + 1 < self.orders { (self.order + 1) as i8 } else { 0 };
            }
            let bcd = if effval > 0x63 { 0 } else { effval };
            let hi = bcd >> 4;
            let lo = bcd & 0x0F;
            assert(hi <= 6 && lo <= 15) by (bit_vector) requires hi == bcd >> 4, lo == bcd & 0x0F, bcd <= 0x63;
            self.skiporderdestrow = hi * 10 + lo;
        } else if eff == 0x0E {
            self.row_extended(i, c, effval);
            return;
        } else if eff == 0x0F && effval != 0 {
            if effval < 0x20 {
                self.maxtick = (self.maxtick / self.speed).wrapping_mul(effval);
                self.speed = effval;
            } else {
                self.audiospeed = self.samplerate.wrapping_mul(125) / effval as u32 / 50;
            }
        }
        self.ch[i] = c;
    }

    /// Channel `i` reads its cell at the start of a row.
    fn row_channel(&mut self, i: usize)
        requires
            old(self).wf(),
            old(self)@.row_in_bounds(),
            i < old(self)@.channels,
        ensures
            final(self)@ == old(self)@.row_channel(i as int),
    {
        let off = self.cell_offset(i);
        let b0 = self.patterndata[off];
        let b1 = self.patterndata[off + 1];
        let b2 = self.patterndata[off + 2];
        let b3 = self.patterndata[off + 3];
        let c = self.prepare_channel(self.ch[i], b0, b1, b2, b3);
        proof {
            assert(channel_ok(self@.ch[i as int], self@.samples_complete()));
            if self@.samples_complete() {
                lemma_cell_sample_ok(self@, i as int);
            }
            lemma_prepare_ok(self@, self@.ch[i as int], b0, b1, b2, b3);
        }
        let note_raw: u16 = ((b0 as u16) << 8 | b1 as u16) & 0x0FFF;
        self.row_effect(i, c, note_raw, b2 & 0x0F, b3);
        proof {
            lemma_row_effect_len(old(self)@, i as int, c, note_raw, b2 & 0x0F, b3);
        }
        let mut c2 = self.ch[i];
        c2.eff = b2 & 0x0F;
        c2.effval = b3;
        self.ch[i] = c2;
    }

    /// The rules that match the current order and row fire, in order.
    fn apply_rules(&mut self)
        requires
            old(self).wf(),
        ensures
            final(self)@ == old(self)@.after_rules(),
    {
        if let Some(rules) = self.rules {
            let ghost s0 = self@;
            let mut k: usize = 0;
            while k < rules.len()
                invariant
                    k <= rules@.len(),
                    self.rules == Some(rules),
                    s0.rules == Some(rules@),
                    self@ == s0.apply_rules(rules@, k as nat),
                decreases rules@.len() - k,
            {
                let rule = rules[k];
                let ghost sk = self@;
                if (rule.order >= 0 && rule.order != self.order as i32) || (rule.row >= 0 && rule.row != self.row as i32) {
                } else {
                    let mut m: usize = 0;
                    while m < rule.actions.len()
                        invariant
                            m <= rule.actions@.len(),
                            self.rules == Some(rules),
                            self@ == sk.apply_actions(rule.actions@, m as nat),
                        decreases rule.actions@.len() - m,
                    {
                        match rule.actions[m] {
                            ModAction::Jump { order, row } => {
                                self.row = row as u8;
                                self.order = order as u8;
                            },
                        }
                        m = m + 1;
                    }
                }
                k = k + 1;
            }
        }
    }
}

impl<'a, const N: usize> ModPlayer<'a, N> {
    /// The running effect of channel `c` at the current tick, with the random generator after it.
    fn tick_effect(&self, c: TrackerChannel<'a>) -> (r: (TrackerChannel<'a>, u32))
        requires
            channel_basic(c),
        ensures
            r == self@.tick_effect(c),
    {
        proof {
            reveal(PlayerState::tick_effect);
        }
        let mut c = c;
        let mut random = self.random;
        let eff = c.eff;
        let effval = c.effval;
        let t = self.tick;
        if eff == 0x00 {
            let m = t % 3;
            if m == 0 {
                c.period = c.note as i32;
            } else if m == 1 {
                let a = effval >> 4;
                assert(a < 16) by (bit_vector) requires a == effval >> 4;
                c.period = (c.note as i32).wrapping_mul(ARPEGGIO_TABLE[a as usize]) >> 16;
            } else {
                let a = effval & 0x0F;
                assert(a < 16) by (bit_vector) requires a == effval & 0x0F;
                c.period = (c.note as i32).wrapping_mul(ARPEGGIO_TABLE[a as usize]) >> 16;
            }
        } else if eff == 0x01 {
            if t != 0 {
                c.period = c.period.wrapping_sub(effval as i32);
            }
        } else if eff == 0x02 {
            if t != 0 {
                c.period = c.period.wrapping_add(effval as i32);
            }
        } else if eff == 0x05 {
            if t != 0 {
                c = slide_volume(c, effval);
            }
            if t != 0 {
                c = slide_to_note(c, 0);
            }
        } else if eff == 0x03 {
            if t != 0 {
                c = slide_to_note(c, effval);
            }
        } else if eff == 0x04 {
            if t != 0 {
                c.vibrato.phase = c.vibrato.phase.wrapping_add(c.vibrato.speed);
                recalculate_waveform(&mut c.vibrato, &mut random);
            }
        } else if eff == 0x06 {
            if t != 0 {
                c.vibrato.phase = c.vibrato.phase.wrapping_add(c.vibrato.speed);
                recalculate_waveform(&mut c.vibrato, &mut random);
            }
            if t != 0 {
                c = slide_volume(c, effval);
            }
        } else if eff == 0x0A {
            if t != 0 {
                c = slide_volume(c, effval);
            }
        } else if eff == 0x07 {
            if t != 0 {
                c.tremolo.phase = c.tremolo.phase.wrapping_add(c.tremolo.speed);
                recalculate_waveform(&mut c.tremolo, &mut random);
            }
        } else if eff == 0x0E {
            let sub = effval >> 4;
            let x = effval & 0x0F;
            if sub == 0x09 {
                if t != 0 && t.is_multiple_of(x) {
                    c.samplegen.age = 0;
                    c.samplegen.currentptr = 0;
                    c.samplegen.currentsubptr = 0;
                }
            } else if sub == 0x0C {
                if t >= x {
                    c.volume = 0;
                }
            } else if sub == 0x0D && t == x {
                c.samplegen.age = 0;
                c.samplegen.currentptr = 0;
                c.samplegen.currentsubptr = 0;
                c.period = c.note as i32;
            }
        }
        (c, random)
    }

    /// Channel `i` at the current tick.
    fn tick_channel(&mut self, i: usize)
        requires
            old(self).wf(),
            i < old(self)@.channels,
        ensures
            final(self)@ == old(self)@.tick_channel(i as int),
    {
        let c0 = self.ch[i];
        proof {
            assert(channel_ok(c0, self@.samples_complete()));
            lemma_tick_effect_ok(self@, c0, self@.samples_complete());
        }
        let (mut c, rnd) = if c0.eff != 0 || c0.effval != 0 { self.tick_effect(c0) } else { (c0, self.random) };
        self.random = rnd;
        if c.period < 0 {
            c.period = 0;
        }
        if c.period != 0 {
            let combined = c.period.wrapping_add(c.vibrato.val >> 7);
            if combined > 0 {
                c.samplegen.period = self.paularate / combined as u32;
            } else {
                c.samplegen.period = 0;
            }
        } else {
            c.samplegen.period = 0;
        }
        let tv = c.tremolo.val;
        let sh = tv >> 6;
        assert(-33554432 <= sh <= 33554431) by (bit_vector) requires sh == tv >> 6;
        let mut vol = c.volume as i32 + sh;
        if vol < 0 {
            vol = 0;
        } else if vol > 64 {
            vol = 64;
        }
        c.samplegen.volume = vol;
        self.ch[i] = c;
    }

    /// The tick counter advances; at the end of a row the song moves on.
    fn advance(&mut self)
        requires
            old(self).wf(),
        ensures
            final(self)@ == old(self)@.advance(),
    {
        self.tick += 1;
        if self.tick >= self.maxtick {
            self.tick = 0;
            self.maxtick = self.speed;
            if self.skiporderrequest >= 0 {
                self.row = self.skiporderdestrow;
                self.order = self.skiporderrequest as u8;
                self.skiporderdestrow = 0;
                self.skiporderrequest = -1;
            } else {
                self.row += 1;
                if self.row >= 0x40 {
                    self.row = 0;
                    self.order += 1;
                    if self.order >= self.orders {
                        self.order = 0;
                    }
                }
            }
        }
    }

    /// Plays one tick: at the start of a row the rules fire and every channel reads its
    /// cell; then every channel runs its effect; then the position advances.
    pub fn process(&mut self)
        requires
            old(self).wf(),
            old(self)@.reads_ok(),
        ensures
            final(self).wf(),
            final(self)@ == old(self)@.step(),
            final(self)@.settled(),
            old(self)@.course_ok() ==> final(self)@.course_ok(),
            final(self)@.channels == old(self)@.channels,
    {
        let nch = self.channels as usize;
        let ghost s0 = self@;
        proof {
            lemma_step_valid(s0);
            lemma_step_settled(s0);
            if s0.course_ok() {
                lemma_step_course(s0);
            }
        }
        if self.tick == 0 {
            proof {
                lemma_rules_valid(s0);
            }
            self.apply_rules();
            self.skiporderrequest = -1;
            let ghost sb = self@;
            assert(sb == (PlayerState { skiporderrequest: -1i8, ..s0.after_rules() }));
            let mut i: usize = 0;
            while i < nch
                invariant
                    i <= nch,
                    nch == sb.channels,
                    sb.valid(),
                    sb.row_in_bounds(),
                    sb.ch.len() == N,
                    self@ == sb.row_channels(i as nat),
                decreases nch - i,
            {
                proof {
                    lemma_row_channels_valid(sb, i as nat);
                }
                self.row_channel(i);
                i = i + 1;
            }
            proof {
                lemma_row_channels_valid(sb, nch as nat);
            }
        }
        let ghost s1 = self@;
        assert(s1 == (if s0.tick == 0 { s0.row_start() } else { s0 }));
        proof {
            lemma_step_valid(s0);
            if s0.tick == 0 {
                lemma_rules_valid(s0);
                lemma_row_channels_valid(PlayerState { skiporderrequest: -1i8, ..s0.after_rules() }, nch as nat);
            }
        }
        let mut i: usize = 0;
        while i < nch
            invariant
                i <= nch,
                nch == s1.channels,
                s1.valid(),
                s1.ch.len() == N,
                self@ == s1.tick_channels(i as nat),
            decreases nch - i,
        {
            proof {
                lemma_tick_channels_valid(s1, i as nat);
            }
            self.tick_channel(i);
            i = i + 1;
        }
        proof {
            lemma_tick_channels_valid(s1, nch as nat);
            lemma_advance_valid(self@);
        }
        self.advance();
    }
}

/// Mixes one generator into the frame sums and steps it on.
fn mix_one<'a>(g: PaulaChannel<'a>, ci: usize, major_mul: i32, minor_mul: i32, l: i32, r: i32) -> (res: (PaulaChannel<'a>, i32, i32))
    requires
        g.sample matches Some(d) ==> g.looplength <= g.length <= d@.len(),
        g.currentsubptr < 0x10000,
        0 <= g.volume <= 64,
    ensures
        res == mix_channel(g, ci as int, major_mul, minor_mul, l, r),
{
    let mut pch = g;
    let mut l = l;
    let mut r = r;
    if let Some(data) = pch.sample {
        if pch.looplength == 0 && pch.currentptr >= pch.length {
            return (pch, l, r);
        }
        while pch.currentptr >= pch.length
            invariant
                pch == (PaulaChannel { currentptr: pch.currentptr, ..g }),
                pch.currentptr >= pch.length ==> pch.looplength > 0,
                rewind(pch.currentptr, pch.length, pch.looplength) == rewind(g.currentptr, g.length, g.looplength),
                g.looplength <= g.length,
            decreases pch.currentptr,
        {
            pch.currentptr = pch.currentptr.wrapping_sub(pch.looplength);
        }
        let ptr = pch.currentptr;
        if !pch.muted {
            let mut next = pch.currentptr + 1;
            while next >= pch.length
                invariant
                    ptr == pch.currentptr,
                    ptr < pch.length,
                    pch.looplength <= pch.length,
                    next <= pch.length,
                    next >= pch.length ==> next == ptr + 1,
                    next < pch.length ==> next == next_position(ptr, pch.length, pch.looplength),
                decreases next,
            {
                if pch.looplength != 0 {
                    next = next.wrapping_sub(pch.looplength);
                } else {
                    next = pch.currentptr;
                }
            }
            assert(next == next_position(ptr, pch.length, pch.looplength));
            let s1 = data[pch.currentptr as usize] as i8 as i32;
            let s2 = data[next as usize] as i8 as i32;
            let sub = pch.currentsubptr as i32;
            let w = 0x10000i32 - sub;
            assert(-128 * 65536 <= s1 * w <= 127 * 65536) by (nonlinear_arith)
                requires -128 <= s1 <= 127, 1 <= w <= 65536;
            assert(-128 * 65535 <= s2 * sub <= 127 * 65535) by (nonlinear_arith)
                requires -128 <= s2 <= 127, 0 <= sub <= 65535;
            let mixed = s1 * w + s2 * sub;
            assert(-16777216 * 64 <= mixed * pch.volume <= 16777216 * 64) by (nonlinear_arith)
                requires -16777216 <= mixed <= 16777216, 0 <= pch.volume <= 64;
            let sample = mixed * pch.volume / 65536i32;
            let lane = ci & 3;
            assert(lane == ci % 4) by (bit_vector) requires lane == ci & 3;
            if lane == 1 || lane == 2 {
                l = l.wrapping_add(sample.wrapping_mul(minor_mul));
                r = r.wrapping_add(sample.wrapping_mul(major_mul));
            } else {
                l = l.wrapping_add(sample.wrapping_mul(major_mul));
                r = r.wrapping_add(sample.wrapping_mul(minor_mul));
            }
        }
        pch.currentsubptr = pch.currentsubptr.wrapping_add(pch.period);
        if pch.currentsubptr >= 0x10000 {
            pch.currentptr = pch.currentptr.wrapping_add(pch.currentsubptr >> 16);
            pch.currentsubptr &= 0xFFFF;
        }
        if pch.age < AGE_MAX {
            pch.age += 1;
        }
    }
    (pch, l, r)
}

impl<'a, const N: usize> ModPlayer<'a, N> {
    /// Fills `buf` with interleaved stereo frames (left, right), playing ticks as they fall
    /// due, and returns the number of frames written. It stops for good at a frame that is
    /// due a tick that would read a missing cell; the rest of `buf`, and an odd last
    /// element, are left as they were.
    pub fn render(&mut self, buf: &mut [i16]) -> (frames: usize)
        requires
            old(self).wf(),
            old(self)@.samples_complete(),
        ensures
            final(self).wf(),
            final(self)@.samples_complete(),
            final(self)@ == old(self)@.render_run((old(buf)@.len() / 2) as nat).0,
            2 * frames == old(self)@.render_run((old(buf)@.len() / 2) as nat).1.len(),
            final(buf)@ == old(self)@.render_run((old(buf)@.len() / 2) as nat).1
                + old(buf)@.skip(2 * frames as int),
            frames < old(buf)@.len() / 2 ==> final(self)@.stuck(),
            old(self)@.settled() ==> final(self)@.settled(),
            old(self)@.course_ok() ==> final(self)@.course_ok(),
            final(self)@.channels == old(self)@.channels,
    {
        proof {
            lemma_render_keeps_valid(self@, (buf@.len() / 2) as nat);
            lemma_render_settles(self@, (buf@.len() / 2) as nat);
        }
        let samples = buf.len() / 2;
        let h = self.channels as usize / 2;
        let half_chan = if h > 1 { h } else { 1 };
        let major_mul = 131072i32 / half_chan as i32;
        let minor_mul = 131072i32 / 3 / half_chan as i32;
        let ghost s0 = self@;
        let ghost b0 = buf@;
        let mut s: usize = 0;
        let mut stopped = false;
        while s < samples && !stopped
            invariant
                s <= samples,
                samples == b0.len() / 2,
                buf@.len() == b0.len(),
                self.wf(),
                self@.samples_complete(),
                self@.channels == s0.channels,
                major_mul == s0.major_mul(),
                minor_mul == s0.minor_mul(),
                self@ == s0.render_run(s as nat).0,
                s0.render_run(s as nat).1.len() == 2 * s,
                buf@ == s0.render_run(s as nat).1 + b0.skip(2 * s as int),
                stopped ==> self@.stuck(),
            decreases samples - s + (if stopped { 0int } else { 1int }),
        {
            if self.audiotick == 0 && !self.reads_in_bounds() {
                stopped = true;
            } else {
                let ghost before = self@;
                assert(!before.stuck());
                if self.audiotick == 0 {
                    self.process();
                    self.audiotick = self.audiospeed;
                }
                self.audiotick = self.audiotick.wrapping_sub(1);
                let ghost pre = self@;
                assert(pre == before.frame_start());
                proof {
                    if before.audiotick == 0 {
                        lemma_step_valid(before);
                    }
                }
                let mut l = 0i32;
                let mut r = 0i32;
                let mut ci: usize = 0;
                let nch = self.channels as usize;
                while ci < nch
                    invariant
                        ci <= nch,
                        nch == pre.channels,
                        pre.valid(),
                        pre.samples_complete(),
                        pre.ch.len() == N,
                        self.wf(),
                        (self@, l, r) == pre.mix_channels(ci as nat, major_mul, minor_mul),
                    decreases nch - ci,
                {
                    proof {
                        lemma_mix_channels_valid(pre, ci as nat, major_mul, minor_mul);
                        assert(channel_ok(self@.ch[ci as int], pre.samples_complete()));
                    }
                    let (g, l2, r2) = mix_one(self.ch[ci].samplegen, ci, major_mul, minor_mul, l, r);
                    let mut c = self.ch[ci];
                    c.samplegen = g;
                    self.ch[ci] = c;
                    l = l2;
                    r = r2;
                    ci = ci + 1;
                    proof {
                        lemma_mix_channels_valid(pre, ci as nat, major_mul, minor_mul);
                    }
                }
                proof {
                    lemma_mix_channels_valid(pre, nch as nat, major_mul, minor_mul);
                }
                let lo = (l / 65536) as i16;
                let ro = (r / 65536) as i16;
                assert(lo == div_trunc(l as int, 65536) as i16);
                assert(ro == div_trunc(r as int, 65536) as i16);
                assert(s * 2 + 1 < buf.len());
                buf[s * 2] = lo;
                buf[s * 2 + 1] = ro;
                proof {
                    assert(before.frame() == (self@, lo, ro));
                    assert(s0.render_run((s + 1) as nat).1 =~= s0.render_run(s as nat).1 + seq![lo, ro]);
                    assert(buf@ =~= s0.render_run((s + 1) as nat).1 + b0.skip(2 * (s + 1) as int));
                }
                s = s + 1;
            }
        }
        proof {
            if stopped {
                lemma_render_stays_stuck(s0, s as nat, samples as nat);
            }
        }
        s
    }

    /// Restarts the song and plays silently up to an order: -2 is the order before the
    /// current one, -1 the one after it, anything else that order (each kept within the song).
    /// Playing stops early when the song wraps back to an earlier order. Rules are removed.
    pub fn jump(&mut self, dest: i32)
        requires
            old(self).wf(),
            old(self)@.jump_halts(dest),
        ensures
            final(self).wf(),
            final(self)@ == old(self)@.jump_result(dest),
            final(self)@.settled(),
            final(self)@.course_ok(),
            final(self)@.channels == old(self)@.channels,
    {
        proof {
            lemma_restart_settles(self@, dest);
            lemma_channels_and_speed_kept(self@, 0, dest);
        }
        let cur = self.order as i32;
        let last = self.orders as i32 - 1;
        let target: u8 = if dest == -2 {
            let x = cur - 1;
            (if x > 0 { x } else { 0 }) as u8
        } else if dest == -1 {
            let x = cur + 1;
            (if x < last { x } else { last }) as u8
        } else {
            let d = if dest > 0 { dest } else { 0 };
            (if d < last { d } else { last }) as u8
        };
        assert(target == old(self)@.jump_target(dest));

        self.order = 0;
        self.row = 0;
        self.tick = 0;
        self.maxtick = 6;
        self.speed = 6;
        self.skiporderrequest = -1;
        self.skiporderdestrow = 0;
        self.patlooprow = 0;
        self.patloopcycle = 0;
        self.audiospeed = self.samplerate / 50;
        self.audiotick = 0;
        self.random = 0;
        self.ch = fresh_channels(N);
        self.rules = None;
        proof {
            lemma_fresh_channels_ok(self@.ch);
        }
        assert(self@ =~= old(self)@.reset());

        let ghost f = choose|f: nat| old(self)@.reset().seek(0, target, f) is Some;
        let ghost res = old(self)@.reset().seek(0, target, f).unwrap();
        let ghost mut fuel: nat = f;
        let mut prev_order: u8 = 0;
        while self.order < target
            invariant_except_break
                self.wf(),
                self@.seek(prev_order, target, fuel) == Some(res),
            ensures
                self.wf(),
                self@ == res,
            decreases fuel,
        {
            self.process();
            if prev_order > self.order {
                break;
            }
            prev_order = self.order;
            proof {
                fuel = (fuel - 1) as nat;
            }
        }
    }
}

impl<'a, const N: usize> ModPlayer<'a, N> {
    /// Whether every sample that a cell of the pattern data can start holds all of its words,
    /// with its loop within them.
    fn samples_complete(&self) -> (r: bool)
        requires
            self@.samples.len() == 31,
        ensures
            r == self@.samples_complete(),
    {
        let cells = self.patterndata.len() / 4;
        let mut k: usize = 0;
        while k < cells
            invariant
                k <= cells,
                cells == self@.patterndata.len() / 4,
                self.samples@.len() == 31,
                forall|m: int| 0 <= m < k ==> #[trigger] cell_starts_ok(self@.samples, self@.patterndata, m),
            decreases cells - k,
        {
            assert(4 * k + 3 < self.patterndata.len());
            let b0 = self.patterndata[4 * k];
            let b2 = self.patterndata[4 * k + 2];
            let n: u8 = (b0 & 0xF0) | (b2 >> 4);
            if n != 0 {
                let idx = (if n > 31 { 1 } else { n }) as usize - 1;
                let smp = self.samples[idx];
                if 2 * (smp.actuallength as usize) > smp.data.len() || smp.looplength > smp.actuallength {
                    assert(!cell_starts_ok(self@.samples, self@.patterndata, k as int));
                    return false;
                }
            }
            k = k + 1;
        }
        true
    }

    /// Whether the player can be rendered: it is well formed, and every sample that the patterns
    /// can start is complete.
    pub fn is_playable(&self) -> (r: bool)
        ensures
            r == (self.wf() && self@.samples_complete()),
    {
        self.is_well_formed() && self.samples_complete()
    }

    /// Whether the player can be ticked: it is well formed (see `is_well_formed`), and the
    /// next tick reads only cells that exist.
    pub fn can_process(&self) -> (r: bool)
        ensures
            r == (self.wf() && self@.reads_ok()),
    {
        self.is_well_formed() && self.reads_in_bounds()
    }

    /// Whether the next tick reads only cells that exist.
    fn reads_in_bounds(&self) -> (r: bool)
        requires
            self.wf(),
        ensures
            r == self@.reads_ok(),
    {
        if self.tick != 0 {
            return true;
        }
        let (order, row) = self.rules_position();
        proof {
            lemma_rules_valid(self@);
        }
        let pat = self.ordertable[order as usize] as usize;
        (row as usize) + 64 * pat < 64 * (self.maxpattern as usize)
    }

    /// The order and row that the rules move the song to at the start of the current row.
    fn rules_position(&self) -> (r: (u8, u8))
        requires
            self.wf(),
        ensures
            r == (self@.after_rules().order, self@.after_rules().row),
    {
        let mut order = self.order;
        let mut row = self.row;
        if let Some(rules) = self.rules {
            let ghost s0 = self@;
            let mut k: usize = 0;
            while k < rules.len()
                invariant
                    k <= rules@.len(),
                    s0.rules == Some(rules@),
                    order == s0.apply_rules(rules@, k as nat).order,
                    row == s0.apply_rules(rules@, k as nat).row,
                decreases rules@.len() - k,
            {
                let rule = rules[k];
                let ghost sk = s0.apply_rules(rules@, k as nat);
                if (rule.order >= 0 && rule.order != order as i32) || (rule.row >= 0 && rule.row != row as i32) {
                } else {
                    let mut m: usize = 0;
                    while m < rule.actions.len()
                        invariant
                            m <= rule.actions@.len(),
                            order == sk.apply_actions(rule.actions@, m as nat).order,
                            row == sk.apply_actions(rule.actions@, m as nat).row,
                        decreases rule.actions@.len() - m,
                    {
                        match rule.actions[m] {
                            ModAction::Jump { order: o, row: r } => {
                                row = r as u8;
                                order = o as u8;
                            },
                        }
                        m = m + 1;
                    }
                }
                k = k + 1;
            }
        }
        (order, row)
    }

    /// Whether the module's order table and patterns are consistent, the rules jump within
    /// the song, and the position and channels are in range (with their samples fitting,
    /// where every sample that the patterns can start is complete).
    pub fn is_well_formed(&self) -> (r: bool)
        ensures
            r == self.wf(),
    {
        let nch = self.channels;
        if nch < 2 || nch > 32 || nch as usize > self.ch.len() || self.ch.len() != N {
            return false;
        }
        if self.ordertable.len() != 128 || self.maxpattern < 1 || self.orders > 128 {
            return false;
        }
        let mut j: usize = 0;
        while j < 128
            invariant
                j <= 128,
                self.ordertable@.len() == 128,
                forall|k: int| 0 <= k < j ==> #[trigger] self.ordertable@[k] < self.maxpattern,
            decreases 128 - j,
        {
            if self.ordertable[j] >= self.maxpattern {
                return false;
            }
            j = j + 1;
        }
        assert(256 * (nch as int) * (self.maxpattern as int) <= 256 * 32 * 255) by (nonlinear_arith)
            requires nch <= 32, self.maxpattern <= 255;
        if self.patterndata.len() != 256 * nch as usize * self.maxpattern as usize {
            return false;
        }
        if self.sampleheaders.len() != 31 || self.samples.len() != 31 {
            return false;
        }
        let complete = self.samples_complete();
        if self.order >= 128 || self.row >= 66 || self.skiporderdestrow >= 66 || self.patlooprow >= 66
            || self.speed < 1 || self.speed > 31 || self.tick >= 255 {
            return false;
        }
        if let Some(rules) = self.rules {
            let mut k: usize = 0;
            while k < rules.len()
                invariant
                    k <= rules@.len(),
                    self.rules == Some(rules),
                    forall|a: int, m: int| 0 <= a < k && 0 <= m < rules@[a].actions@.len() ==>
                        #[trigger] action_ok(rules@[a].actions@[m]),
                decreases rules@.len() - k,
            {
                let acts = rules[k].actions;
                let mut m: usize = 0;
                while m < acts.len()
                    invariant
                        m <= acts@.len(),
                        k < rules@.len(),
                        self.rules == Some(rules),
                        acts == rules@[k as int].actions,
                        forall|a: int, q: int| 0 <= a < k && 0 <= q < rules@[a].actions@.len() ==>
                            #[trigger] action_ok(rules@[a].actions@[q]),
                        forall|q: int| 0 <= q < m ==> #[trigger] action_ok(acts@[q]),
                    decreases acts@.len() - m,
                {
                    match acts[m] {
                        ModAction::Jump { order, row } => {
                            if order as u8 >= 128 || row as u8 >= 64 {
                                assert(!action_ok(rules@[k as int].actions@[m as int]));
                                assert(self@.rules == Some(rules@));
                                assert(acts@[m as int] == rules@[k as int].actions@[m as int]);
                                assert(0 <= (m as int) < rules@[k as int].actions@.len());
                                assert(0 <= (k as int) < rules@.len());
                                proof {
                                    lemma_rules_not_ok(rules@, k as int, m as int);
                                }
                                assert(!rules_ok(self@.rules));
                                return false;
                            }
                        },
                    }
                    m = m + 1;
                }
                k = k + 1;
            }
        }
        let mut j: usize = 0;
        while j < self.ch.len()
            invariant
                j <= self.ch@.len(),
                complete == self@.samples_complete(),
                forall|m: int| 0 <= m < j ==> #[trigger] channel_ok(self.ch@[m], complete),
            decreases self.ch@.len() - j,
        {
            let c = self.ch[j];
            if c.volume < 0 || c.volume > 255 || c.samplegen.volume < 0 || c.samplegen.volume > 64
                || c.samplegen.currentsubptr >= 0x10000 {
                assert(!channel_ok(self@.ch[j as int], complete));
                return false;
            }
            if complete {
                if let Some(d) = c.samplegen.sample {
                    if c.samplegen.looplength > c.samplegen.length || c.samplegen.length as usize > d.len() {
                        assert(!channel_ok(self@.ch[j as int], complete));
                        return false;
                    }
                }
            }
            j = j + 1;
        }
        true
    }
}

// ------------------------------------------------------------------------ proofs

/// The cell a channel reads lies within the pattern data.
proof fn lemma_seq_max_bound(s: Seq<u8>)
    ensures
        forall|j: int| 0 <= j < s.len() ==> s[j] <= seq_max(s),
    decreases s.len(),
{
    if s.len() > 0 {
        lemma_seq_max_bound(s.drop_last());
        assert forall|j: int| 0 <= j < s.len() implies s[j] <= seq_max(s) by {
            if j < s.len() - 1 {
                assert(s[j] == s.drop_last()[j]);
            }
        }
    }
}

proof fn lemma_cell_bound(i: int, nch: int, row: int, pat: int, mp: int)
    requires
        0 <= i < nch,
        0 <= row,
        0 <= pat,
        row + 64 * pat < 64 * mp,
    ensures
        0 <= i + nch * (row + 64 * pat),
        i + nch * (row + 64 * pat) + 1 <= 64 * nch * mp,
{
    assert(nch * (row + 64 * pat) <= nch * (64 * mp - 1)) by (nonlinear_arith)
        requires
            0 <= row + 64 * pat <= 64 * mp - 1,
            nch >= 0,
    ;
    assert(nch * (64 * mp - 1) == 64 * nch * mp - nch) by (nonlinear_arith);
    assert(0 <= nch * (row + 64 * pat)) by (nonlinear_arith)
        requires
            nch >= 0,
            row + 64 * pat >= 0,
    ;
}

proof fn lemma_double(a: u16)
    ensures
        ((a as u32) << 1) == 2 * (a as u32),
{
    assert(((a as u32) << 1) == 2 * (a as u32)) by (bit_vector);
}

/// Reading a cell keeps a channel in range.
proof fn lemma_prepare_ok<'a>(s: PlayerState<'a>, c: TrackerChannel<'a>, b0: u8, b1: u8, b2: u8, b3: u8)
    requires
        s.valid(),
        channel_ok(c, s.samples_complete()),
        s.samples_complete() ==> cell_sample_ok(s.samples, b0, b2),
    ensures
        channel_ok(s.row_prepare(c, b0, b1, b2, b3), s.samples_complete()),
{
    reveal(PlayerState::row_prepare);
    let sample_num = cell_sample(b0, b2);
    if sample_num != 0 && s.samples_complete() {
        let idx: int = sample_index(sample_num);
        let smp = s.samples[idx];
        assert(sample_ok(smp));
        lemma_double(smp.actuallength);
        lemma_double(smp.looplength);
    }
}

/// Where every sample the patterns start is complete, the cell that channel `i` reads
/// chooses no sample or a complete one.
proof fn lemma_cell_sample_ok<'a>(s: PlayerState<'a>, i: int)
    requires
        s.valid(),
        s.row_in_bounds(),
        0 <= i < s.channels,
        s.samples_complete(),
    ensures
        cell_sample_ok(s.samples, s.patterndata[s.cell_index(i)], s.patterndata[s.cell_index(i) + 2]),
{
    let pat = s.ordertable[s.order as int] as int;
    lemma_cell_bound(i, s.channels as int, s.row as int, pat, s.maxpattern as int);
    let k = i + s.channels * (s.row + 64 * pat);
    assert(s.cell_index(i) == 4 * k);
    assert(4 * (64 * (s.channels as int) * (s.maxpattern as int)) == 256 * (s.channels as int) * (s.maxpattern as int))
        by (nonlinear_arith);
    assert(k < s.patterndata.len() / 4);
    assert(cell_starts_ok(s.samples, s.patterndata, k));
}

proof fn lemma_row_effect_len<'a>(s: PlayerState<'a>, i: int, c: TrackerChannel<'a>, note_raw: u16, eff: u8, effval: u8)
    requires
        0 <= i < s.ch.len(),
    ensures
        s.row_effect(i, c, note_raw, eff, effval).ch.len() == s.ch.len(),
{
    reveal(PlayerState::row_effect);
}

/// The effect of a cell keeps the state valid, given that a break names an existing row.
proof fn lemma_row_effect_valid<'a>(s: PlayerState<'a>, i: int, c: TrackerChannel<'a>, note_raw: u16, eff: u8, effval: u8)
    requires
        s.valid(),
        0 <= i < s.channels,
        channel_ok(c, s.samples_complete()),
    ensures
        s.row_effect(i, c, note_raw, eff, effval).valid(),
        s.row_effect(i, c, note_raw, eff, effval).samples == s.samples,
        s.row_effect(i, c, note_raw, eff, effval).same_module(s),
        s.row_effect(i, c, note_raw, eff, effval).ordertable == s.ordertable,
        s.row_effect(i, c, note_raw, eff, effval).maxpattern == s.maxpattern,
        s.row_effect(i, c, note_raw, eff, effval).ch.len() == s.ch.len(),
        s.row_effect(i, c, note_raw, eff, effval).channels == s.channels,
        s.row_effect(i, c, note_raw, eff, effval).order == s.order,
        s.row_effect(i, c, note_raw, eff, effval).row == s.row,
        s.row_effect(i, c, note_raw, eff, effval).tick == s.tick,
{
    reveal(PlayerState::row_effect);
    lemma_break_row_bound(effval);
    let r = s.row_effect(i, c, note_raw, eff, effval);
    assert(r.samples == s.samples);
    assert(forall|j: int| 0 <= j < r.ch.len() ==> #[trigger] channel_ok(r.ch[j], r.samples_complete()));
}

/// A channel reading its cell keeps the state valid.
pub proof fn lemma_row_channel_valid<'a>(s: PlayerState<'a>, i: int)
    requires
        s.valid(),
        s.row_in_bounds(),
        0 <= i < s.channels,
    ensures
        s.row_channel(i).valid(),
        s.row_channel(i).samples == s.samples,
        s.row_channel(i).same_module(s),
        s.row_channel(i).ordertable == s.ordertable,
        s.row_channel(i).maxpattern == s.maxpattern,
        s.row_channel(i).ch.len() == s.ch.len(),
        s.row_channel(i).channels == s.channels,
        s.row_channel(i).order == s.order,
        s.row_channel(i).row == s.row,
        s.row_channel(i).tick == s.tick,
{
    let pat = s.ordertable[s.order as int] as int;
    lemma_cell_bound(i, s.channels as int, s.row as int, pat, s.maxpattern as int);
    let k = i + s.channels * (s.row + 64 * pat);
    let off = s.cell_index(i);
    assert(off == 4 * k);
    assert(4 * (64 * (s.channels as int) * (s.maxpattern as int)) == 256 * (s.channels as int) * (s.maxpattern as int))
        by (nonlinear_arith);
    assert(off + 4 <= s.patterndata.len());
    let b0 = s.patterndata[off];
    let b1 = s.patterndata[off + 1];
    let b2 = s.patterndata[off + 2];
    let b3 = s.patterndata[off + 3];
    assert(channel_ok(s.ch[i], s.samples_complete()));
    if s.samples_complete() {
        assert(k < s.patterndata.len() / 4);
        assert(cell_starts_ok(s.samples, s.patterndata, k));
    }
    lemma_prepare_ok(s, s.ch[i], b0, b1, b2, b3);
    let c = s.row_prepare(s.ch[i], b0, b1, b2, b3);
    lemma_row_effect_valid(s, i, c, cell_note(b0, b1), b2 & 0x0F, b3);
    let r = s.row_effect(i, c, cell_note(b0, b1), b2 & 0x0F, b3);
    assert(channel_ok(r.ch[i], s.samples_complete()));
    let f = s.row_channel(i);
    assert(f.samples == s.samples);
    assert(forall|j: int| 0 <= j < f.ch.len() ==> #[trigger] channel_ok(f.ch[j], f.samples_complete())) by {
        assert forall|j: int| 0 <= j < f.ch.len() implies #[trigger] channel_ok(f.ch[j], f.samples_complete()) by {
            if j != i {
                assert(f.ch[j] == r.ch[j]);
            }
        }
    }
}


/// A running effect keeps a channel in range.
proof fn lemma_tick_effect_ok<'a>(s: PlayerState<'a>, c: TrackerChannel<'a>, b: bool)
    requires
        channel_ok(c, b),
    ensures
        channel_ok(s.tick_effect(c).0, b),
{
    reveal(PlayerState::tick_effect);
}

/// A channel's tick keeps the state valid.
pub proof fn lemma_tick_channel_valid<'a>(s: PlayerState<'a>, i: int)
    requires
        s.valid(),
        0 <= i < s.channels,
    ensures
        s.tick_channel(i).valid(),
        s.tick_channel(i).samples == s.samples,
        s.tick_channel(i).same_module(s),
        s.tick_channel(i).ch.len() == s.ch.len(),
        s.tick_channel(i).channels == s.channels,
        s.tick_channel(i).tick == s.tick,
{
    assert(channel_ok(s.ch[i], s.samples_complete()));
    lemma_tick_effect_ok(s, s.ch[i], s.samples_complete());
    let f = s.tick_channel(i);
    assert(f.samples == s.samples);
    assert(channel_ok(f.ch[i], s.samples_complete()));
    assert(forall|j: int| 0 <= j < f.ch.len() ==> #[trigger] channel_ok(f.ch[j], f.samples_complete())) by {
        assert forall|j: int| 0 <= j < f.ch.len() implies #[trigger] channel_ok(f.ch[j], f.samples_complete()) by {
            if j != i {
                assert(f.ch[j] == s.ch[j]);
            }
        }
    }
}

/// Advancing the tick counter and position keeps the state valid.
pub proof fn lemma_advance_valid<'a>(s: PlayerState<'a>)
    requires
        s.valid(),
    ensures
        s.advance().valid(),
        s.advance().samples == s.samples,
        s.advance().same_module(s),
        s.advance().ch == s.ch,
        s.advance().channels == s.channels,
{
}

proof fn lemma_actions_valid<'a>(s: PlayerState<'a>, acts: Seq<ModAction>, k: nat)
    requires
        s.valid(),
        k <= acts.len(),
        forall|m: int| 0 <= m < acts.len() ==> #[trigger] action_ok(acts[m]),
    ensures
        s.apply_actions(acts, k).valid(),
        s.apply_actions(acts, k) == (PlayerState {
            order: s.apply_actions(acts, k).order,
            row: s.apply_actions(acts, k).row,
            ..s
        }),
    decreases k,
{
    if k > 0 {
        lemma_actions_valid(s, acts, (k - 1) as nat);
        assert(action_ok(acts[k - 1]));
    }
}

proof fn lemma_rules_k_valid<'a>(s: PlayerState<'a>, rs: Seq<ModRule<'a>>, k: nat)
    requires
        s.valid(),
        s.rules == Some(rs),
        k <= rs.len(),
    ensures
        s.apply_rules(rs, k).valid(),
        s.apply_rules(rs, k) == (PlayerState {
            order: s.apply_rules(rs, k).order,
            row: s.apply_rules(rs, k).row,
            ..s
        }),
    decreases k,
{
    if k > 0 {
        lemma_rules_k_valid(s, rs, (k - 1) as nat);
        let p = s.apply_rules(rs, (k - 1) as nat);
        let r = rs[k - 1];
        assert forall|m: int| 0 <= m < r.actions@.len() implies #[trigger] action_ok(r.actions@[m]) by {
            assert(action_ok(rs[k - 1].actions@[m]));
        }
        lemma_actions_valid(p, r.actions@, r.actions@.len());
    }
}

/// The rules keep the state valid, changing only the order and row.
pub proof fn lemma_rules_valid<'a>(s: PlayerState<'a>)
    requires
        s.valid(),
    ensures
        s.after_rules().valid(),
        s.after_rules() == (PlayerState { order: s.after_rules().order, row: s.after_rules().row, ..s }),
{
    if let Some(rs) = s.rules {
        lemma_rules_k_valid(s, rs, rs.len());
    }
}

/// A pattern break names a row below 66.
proof fn lemma_break_row_bound(effval: u8)
    ensures
        break_row(effval) < 66,
{
    let bcd: u8 = if effval > 0x63 { 0u8 } else { effval };
    let hi = bcd >> 4;
    let lo = bcd & 0x0F;
    assert(bcd <= 0x63 ==> (hi as int) * 10 + (lo as int) < 66) by (bit_vector)
        requires hi == bcd >> 4, lo == bcd & 0x0F;
}

pub proof fn lemma_row_channels_valid<'a>(s: PlayerState<'a>, k: nat)
    requires
        s.valid(),
        s.row_in_bounds(),
        k <= s.channels,
    ensures
        s.row_channels(k).valid(),
        s.row_channels(k).samples == s.samples,
        s.row_channels(k).same_module(s),
        s.row_channels(k).ordertable == s.ordertable,
        s.row_channels(k).maxpattern == s.maxpattern,
        s.row_channels(k).ch.len() == s.ch.len(),
        s.row_channels(k).channels == s.channels,
        s.row_channels(k).tick == s.tick,
        s.row_channels(k).row == s.row,
        s.row_channels(k).order == s.order,
    decreases k,
{
    if k > 0 {
        lemma_row_channels_valid(s, (k - 1) as nat);
        lemma_row_channel_valid(s.row_channels((k - 1) as nat), k - 1);
    }
}

pub proof fn lemma_tick_channels_valid<'a>(s: PlayerState<'a>, k: nat)
    requires
        s.valid(),
        k <= s.channels,
    ensures
        s.tick_channels(k).valid(),
        s.tick_channels(k).samples == s.samples,
        s.tick_channels(k).same_module(s),
        s.tick_channels(k).ch.len() == s.ch.len(),
        s.tick_channels(k).channels == s.channels,
    decreases k,
{
    if k > 0 {
        lemma_tick_channels_valid(s, (k - 1) as nat);
        lemma_tick_channel_valid(s.tick_channels((k - 1) as nat), k - 1);
    }
}

/// Every tick keeps the state valid: the position stays within the song, every channel's
/// volumes stay in range and its loop within its sample.
pub proof fn lemma_step_valid<'a>(s: PlayerState<'a>)
    requires
        s.valid(),
        s.reads_ok(),
    ensures
        s.step().valid(),
        s.step().samples == s.samples,
        s.step().same_module(s),
        s.step().ch.len() == s.ch.len(),
        s.step().channels == s.channels,
{
    let s1 = if s.tick == 0 { s.row_start() } else { s };
    if s.tick == 0 {
        lemma_rules_valid(s);
        let sb = PlayerState { skiporderrequest: -1i8, ..s.after_rules() };
        assert(sb.row_in_bounds());
        lemma_row_channels_valid(sb, s.channels as nat);
    }
    lemma_tick_channels_valid(s1, s.channels as nat);
    lemma_advance_valid(s1.tick_channels(s.channels as nat));
}


proof fn lemma_rules_not_ok<'a>(rs: Seq<ModRule<'a>>, k: int, m: int)
    requires
        0 <= k < rs.len(),
        0 <= m < rs[k].actions@.len(),
        !action_ok(rs[k].actions@[m]),
    ensures
        !rules_ok(Some(rs)),
{
    assert(!actions_ok(rs));
}

/// Mixing keeps a channel in range: only its position, sub-position and age move.
proof fn lemma_mix_channel_ok<'a>(c: TrackerChannel<'a>, ci: int, major: i32, minor: i32, l: i32, r: i32, b: bool)
    requires
        channel_ok(c, b),
    ensures
        channel_ok(TrackerChannel { samplegen: mix_channel(c.samplegen, ci, major, minor, l, r).0, ..c }, b),
{
    let g = c.samplegen;
    let sub = g.currentsubptr.wrapping_add(g.period);
    assert(sub & 0xFFFF < 0x10000) by (bit_vector);
}

pub proof fn lemma_mix_channels_valid<'a>(s: PlayerState<'a>, k: nat, major: i32, minor: i32)
    requires
        s.valid(),
        k <= s.channels,
    ensures
        s.mix_channels(k, major, minor).0.valid(),
        s.mix_channels(k, major, minor).0 == (PlayerState { ch: s.mix_channels(k, major, minor).0.ch, ..s }),
        s.mix_channels(k, major, minor).0.ch.len() == s.ch.len(),
    decreases k,
{
    if k > 0 {
        lemma_mix_channels_valid(s, (k - 1) as nat, major, minor);
        let (p, l, r) = s.mix_channels((k - 1) as nat, major, minor);
        let c = p.ch[k - 1];
        assert(channel_ok(c, s.samples_complete()));
        lemma_mix_channel_ok(c, k - 1, major, minor, l, r, s.samples_complete());
        let f = s.mix_channels(k, major, minor).0;
        assert(f.samples == s.samples);
        assert(forall|j: int| 0 <= j < f.ch.len() ==> #[trigger] channel_ok(f.ch[j], f.samples_complete())) by {
            assert forall|j: int| 0 <= j < f.ch.len() implies #[trigger] channel_ok(f.ch[j], f.samples_complete()) by {
                if j != k - 1 {
                    assert(f.ch[j] == p.ch[j]);
                }
            }
        }
    }
}

/// Once rendering is stuck, rendering more frames changes nothing.
proof fn lemma_render_stays_stuck<'a>(s: PlayerState<'a>, k: nat, n: nat)
    requires
        k <= n,
        s.render_run(k).0.stuck(),
    ensures
        s.render_run(n) == s.render_run(k),
    decreases n,
{
    if n > k {
        lemma_render_stays_stuck(s, k, (n - 1) as nat);
    }
}

} // verus!
