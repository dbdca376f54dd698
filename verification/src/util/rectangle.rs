//! Batching textured rectangles by texture.
use vstd::prelude::*;

verus! {

/// A texture in video memory.
#[derive(Debug, Copy, Clone, PartialEq, Eq, Structural)]
pub struct Texture {
    pub ptr: usize,
    pub width: usize,
    pub height: usize,
    pub linear_filter: bool,
}

/// The texture that the rectangles from `rectangle_arena_idx` on are drawn with.
#[derive(Debug, Copy, Clone, PartialEq, Eq, Structural)]
pub struct TextureReference {
    pub rectangle_arena_idx: usize,
    pub texture: Texture,
}

/// A rectangle drawn with `texture` starts a new batch unless the last batch uses the same
/// texture memory.
pub fn needs_new_reference(top: Option<&TextureReference>, texture: &Texture) -> (r: bool)
    ensures
        r == match top {
            None => true,
            Some(t) => t.texture.ptr != texture.ptr,
        },
{
    match top {
        Some(t) => t.texture.ptr != texture.ptr,
        None => true,
    }
}

/// Where batch `i` ends: where the next one starts, or at the last rectangle.
pub open spec fn batch_end(refs: Seq<TextureReference>, total: usize, i: int) -> usize {
    if i + 1 < refs.len() { refs[i + 1].rectangle_arena_idx } else { total }
}

/// The rectangles each batch draws: batch `i` runs from where batch `i - 1` ended (the first from
/// 0) to where batch `i + 1` starts (the last to `total`).
pub fn batch_ranges(refs: &[TextureReference], total: usize) -> (r: Vec<(usize, usize)>)
    requires
        forall|i: int, j: int| 0 <= i <= j < refs@.len() ==>
            #[trigger] refs@[i].rectangle_arena_idx <= #[trigger] refs@[j].rectangle_arena_idx,
        forall|i: int| 0 <= i < refs@.len() ==> #[trigger] refs@[i].rectangle_arena_idx <= total,
    ensures
        r@.len() == refs@.len(),
        forall|i: int| 0 <= i < r@.len() ==> (#[trigger] r@[i]).1 == batch_end(refs@, total, i),
        forall|i: int| 0 <= i < r@.len() ==> (#[trigger] r@[i]).0 == (if i == 0 { 0 } else { batch_end(refs@, total, i - 1) }),
        forall|i: int| 0 <= i < r@.len() ==> (#[trigger] r@[i]).0 <= r@[i].1,
{
    let mut out: Vec<(usize, usize)> = Vec::new();
    let mut last_idx: usize = 0;
    let mut i: usize = 0;
    while i < refs.len()
        invariant
            i <= refs@.len(),
            out@.len() == i,
            last_idx == (if i == 0 { 0 } else { batch_end(refs@, total, i - 1) as int }),
            i < refs@.len() ==> last_idx <= batch_end(refs@, total, i as int),
            forall|i: int, j: int| 0 <= i <= j < refs@.len() ==>
                #[trigger] refs@[i].rectangle_arena_idx <= #[trigger] refs@[j].rectangle_arena_idx,
            forall|i: int| 0 <= i < refs@.len() ==> #[trigger] refs@[i].rectangle_arena_idx <= total,
            forall|k: int| 0 <= k < i ==> (#[trigger] out@[k]).1 == batch_end(refs@, total, k),
            forall|k: int| 0 <= k < i ==> (#[trigger] out@[k]).0 == (if k == 0 { 0 } else { batch_end(refs@, total, k - 1) }),
            forall|k: int| 0 <= k < i ==> (#[trigger] out@[k]).0 <= out@[k].1,
        decreases refs@.len() - i,
    {
        let top = if i + 1 < refs.len() { refs[i + 1].rectangle_arena_idx } else { total };
        out.push((last_idx, top));
        last_idx = top;
        i = i + 1;
        proof {
            if i < refs@.len() {
                if i + 1 < refs@.len() {
                    assert(refs@[i as int].rectangle_arena_idx <= refs@[i + 1].rectangle_arena_idx);
                }
            }
        }
    }
    out
}

} // verus!
