//! The packed game data that the library works on: textures and music modules.
use vstd::prelude::*;

verus! {

/// An RGBA texture: `width * height` pixels of four bytes each.
pub struct Texture {
    pub width: usize,
    pub height: usize,
    pub bytes: Vec<u8>,
}

/// The textures of the game.
pub struct Textures {
    pub player: Texture,
    pub sausage_bullet: Texture,
    pub sausage_tip: Texture,
    pub apple: Texture,
    pub pear: Texture,
    pub terrain: Texture,
}

/// The music of the game: three ProTracker modules.
pub struct Music {
    pub space_debris: Vec<u8>,
    pub humntrgt: Vec<u8>,
    pub brewery: Vec<u8>,
}

/// Texture memory starts on a 16-byte boundary.
pub const TEXTURE_ALIGN: usize = 16;

/// How many bytes to skip from `addr` to reach the next 16-byte boundary.
pub fn alignment_padding(addr: usize) -> (r: usize)
    ensures
        r < TEXTURE_ALIGN,
        (addr as int + r as int) % (TEXTURE_ALIGN as int) == 0,
        addr as int % (TEXTURE_ALIGN as int) == 0 ==> r == 0,
{
    let low = addr % TEXTURE_ALIGN;
    if low == 0 {
        0
    } else {
        TEXTURE_ALIGN - low
    }
}

/// Appends `start_offset` zero bytes of padding and then the texture's pixels to `out`, the
/// buffer they are drawn from.
pub fn append_padded_texture(out: &mut Vec<u8>, tex: &Texture, start_offset: usize)
    requires
        start_offset < TEXTURE_ALIGN,
        old(out)@.len() + TEXTURE_ALIGN + tex.bytes@.len() <= usize::MAX,
    ensures
        final(out)@ == old(out)@ + Seq::new(start_offset as nat, |i: int| 0u8) + tex.bytes@,
{
    let ghost start = out@;
    let mut k: usize = 0;
    while k < start_offset
        invariant
            k <= start_offset,
            out@ == start + Seq::new(k as nat, |i: int| 0u8),
        decreases start_offset - k,
    {
        out.push(0);
        k = k + 1;
        assert(out@ =~= start + Seq::new(k as nat, |i: int| 0u8));
    }
    let n = tex.bytes.len();
    let mut j: usize = 0;
    while j < n
        invariant
            j <= n,
            n == tex.bytes@.len(),
            out@ == start + Seq::new(start_offset as nat, |i: int| 0u8) + tex.bytes@.subrange(0, j as int),
        decreases n - j,
    {
        out.push(tex.bytes[j]);
        j = j + 1;
        assert(out@ =~= start + Seq::new(start_offset as nat, |i: int| 0u8) + tex.bytes@.subrange(0, j as int));
    }
    assert(tex.bytes@.subrange(0, n as int) =~= tex.bytes@);
}

} // verus!
