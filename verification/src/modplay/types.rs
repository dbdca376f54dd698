//! Plain data of the player: tables, oscillators, channels, samples and rules.
use vstd::prelude::*;

verus! {

/// Period multipliers for the sixteen finetune settings, in 16.16 fixed point.
pub const FINETUNE_TABLE: [i32; 16] = [
    65536, 65065, 64596, 64132, 63670, 63212, 62757, 62306,
    69433, 68933, 68438, 67945, 67456, 66971, 66489, 66011,
];

/// One period of a sine wave over 64 steps, of which the first 32 are stored.
pub const SINE_TABLE: [u8; 32] = [
    0, 24, 49, 74, 97, 120, 141, 161, 180, 197, 212, 224, 235, 244, 250, 253,
    255, 253, 250, 244, 235, 224, 212, 197, 180, 161, 141, 120, 97, 74, 49, 24,
];

/// Period multipliers for arpeggio offsets of 0 to 15 semitones, in 16.16 fixed point.
pub const ARPEGGIO_TABLE: [i32; 16] = [
    65536, 61858, 58386, 55109, 52016, 49096, 46341, 43740,
    41285, 38968, 36781, 34716, 32768, 30929, 29193, 27554,
];

/// The largest age a sample generator counts up to.
pub const AGE_MAX: u32 = 2147483647;

/// The output side of a channel: which sample plays, where, how fast and how loud.
#[derive(Clone, Copy, Debug, Default)]
pub struct PaulaChannel<'a> {
    pub sample: Option<&'a [u8]>,
    pub age: u32,
    pub currentptr: u32,
    pub length: u32,
    pub looplength: u32,
    pub period: u32,
    pub volume: i32,
    pub currentsubptr: u32,
    pub muted: bool,
}

/// A sample of the module: its bytes and the lengths (in words) that playback uses.
#[derive(Clone, Copy, Debug, Default)]
pub struct Sample<'a> {
    pub data: &'a [u8],
    pub actuallength: u16,
    pub looplength: u16,
}

/// A low-frequency oscillator, as used by vibrato and tremolo.
#[derive(Clone, Copy, Debug, Default)]
pub struct Oscillator {
    pub val: i32,
    pub waveform: u8,
    pub phase: u8,
    pub speed: u8,
    pub depth: u8,
}

/// What a rule does when it fires.
#[derive(Clone, Copy, Debug)]
pub enum ModAction {
    Jump { order: i32, row: i32 },
}

/// A rule fires at the start of a row whose order and row match (a negative value matches any).
#[derive(Clone, Copy, Debug)]
pub struct ModRule<'a> {
    pub order: i32,
    pub row: i32,
    pub actions: &'a [ModAction],
}

/// The tracker side of a channel: note, effect memory and the oscillators.
#[derive(Clone, Copy, Debug, Default)]
pub struct TrackerChannel<'a> {
    pub note: u32,
    pub sample: u8,
    pub eff: u8,
    pub effval: u8,
    pub slideamount: u8,
    pub sampleoffset: u8,
    pub volume: i16,
    pub slidenote: i32,
    pub period: i32,
    pub vibrato: Oscillator,
    pub tremolo: Oscillator,
    pub samplegen: PaulaChannel<'a>,
}

/// A 30-byte sample header: the sample's name, its length in words, finetune, volume, and
/// loop start and length in words.
#[derive(Clone, Copy, Debug)]
pub struct SampleHeader {
    pub name: [u8; 22],
    pub length: u16,
    pub finetune: u8,
    pub volume: u8,
    pub looppoint: u16,
    pub looplength: u16,
}

/// A big-endian 16-bit value.
pub open spec fn be16(hi: u8, lo: u8) -> u16 {
    (hi as int * 256 + lo as int) as u16
}

/// The header stored in the 30 bytes starting at `off`, with the given name.
pub open spec fn header_at(data: Seq<u8>, off: int, name: [u8; 22]) -> SampleHeader {
    SampleHeader {
        name,
        length: be16(data[off + 22], data[off + 23]),
        finetune: data[off + 24],
        volume: data[off + 25],
        looppoint: be16(data[off + 26], data[off + 27]),
        looplength: be16(data[off + 28], data[off + 29]),
    }
}

/// `h` is the header stored in the 30 bytes starting at `off`: its name is the first 22.
pub open spec fn reads_header(h: SampleHeader, data: Seq<u8>, off: int) -> bool {
    h == header_at(data, off, h.name) && h.name@ == data.subrange(off, off + 22)
}

impl SampleHeader {
    /// Reads a header from its 30 bytes.
    pub fn from_bytes(bytes: &[u8; 30]) -> (r: SampleHeader)
        ensures
            reads_header(r, bytes@, 0),
    {
        let mut name = [0u8; 22];
        let mut k: usize = 0;
        while k < 22
            invariant
                k <= 22,
                forall|m: int| 0 <= m < k ==> name@[m] == bytes@[m],
            decreases 22 - k,
        {
            name[k] = bytes[k];
            k = k + 1;
        }
        assert(name@ =~= bytes@.subrange(0, 22));
        SampleHeader {
            name,
            length: (bytes[22] as u16) * 256 + bytes[23] as u16,
            finetune: bytes[24],
            volume: bytes[25],
            looppoint: (bytes[26] as u16) * 256 + bytes[27] as u16,
            looplength: (bytes[28] as u16) * 256 + bytes[29] as u16,
        }
    }
}

/// The value of an oscillator at its current phase, before scaling by depth;
/// waveform 3 reads the random generator.
pub open spec fn waveform_value(osc: Oscillator, random: u32) -> int {
    if osc.waveform == 0 {
        let r = SINE_TABLE[(osc.phase & 0x1F) as int] as int;
        if (osc.phase & 0x20) != 0 { -r } else { r }
    } else if osc.waveform == 1 {
        255 - ((((osc.phase as i32 + 0x20) as i32) & 0x3F) << 3)
    } else if osc.waveform == 2 {
        255 - (((osc.phase as i32) & 0x20) << 4)
    } else if osc.waveform == 3 {
        (random >> 20) as int - 255
    } else {
        0
    }
}

/// The random generator after an oscillator has been recalculated.
pub open spec fn next_random(osc: Oscillator, random: u32) -> u32 {
    if osc.waveform == 3 {
        random.wrapping_mul(65).wrapping_add(17) & 0x1FFFFFFF
    } else {
        random
    }
}

/// The oscillator after recalculation: its value is the waveform value times the depth.
pub open spec fn recalculated(osc: Oscillator, random: u32) -> Oscillator {
    Oscillator { val: (waveform_value(osc, random) * osc.depth) as i32, ..osc }
}

/// Sets the oscillator's value from its waveform, phase and depth, advancing the
/// random generator when the waveform is the random one.
pub fn recalculate_waveform(osc: &mut Oscillator, random: &mut u32)
    ensures
        *final(osc) == recalculated(*old(osc), *old(random)),
        *final(random) == next_random(*old(osc), *old(random)),
{
    let phase = osc.phase;
    let result: i32 = if osc.waveform == 0 {
        let idx = phase & 0x1F;
        assert(idx < 32) by (bit_vector) requires idx == phase & 0x1F;
        let r = SINE_TABLE[idx as usize] as i32;
        assert(0 <= r <= 255);
        if (phase & 0x20) != 0 { -r } else { r }
    } else if osc.waveform == 1 {
        let a: i32 = phase as i32 + 0x20;
        let b: i32 = a & 0x3F;
        assert(0 <= b <= 63) by (bit_vector) requires b == a & 0x3F, a >= 0;
        let c: i32 = b << 3;
        assert(0 <= c <= 504) by (bit_vector) requires c == b << 3, 0 <= b <= 63;
        255i32 - c
    } else if osc.waveform == 2 {
        let a: i32 = phase as i32;
        let b: i32 = a & 0x20;
        assert(0 <= b <= 32) by (bit_vector) requires b == a & 0x20, 0 <= a <= 255;
        let c: i32 = b << 4;
        assert(0 <= c <= 512) by (bit_vector) requires c == b << 4, 0 <= b <= 32;
        255i32 - c
    } else if osc.waveform == 3 {
        let rv = *random;
        let hi = rv >> 20;
        assert(hi <= 4095) by (bit_vector) requires hi == rv >> 20;
        let v = hi as i32 - 255;
        *random = rv.wrapping_mul(65).wrapping_add(17) & 0x1FFFFFFF;
        v
    } else {
        0
    };
    assert(-257 <= result <= 3840);
    assert(-257 * 255 <= result * (osc.depth as i32) <= 3840 * 255) by (nonlinear_arith)
        requires -257 <= result <= 3840, 0 <= osc.depth <= 255;
    osc.val = result * osc.depth as i32;
}

} // verus!
