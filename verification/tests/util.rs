use wurstenstein::playfield::{dimensions, ground_cells, mesh_quads, quad_indices, Face, Quad, TestPiece};
use wurstenstein::util::arena::Arena;
use wurstenstein::util::font::{aligned_x, atlas_layout, Glyph, HorizAlign, RenderedFonts, RenderedScale, CHAR_NUM};
use wurstenstein::util::rectangle::{batch_ranges, needs_new_reference, Texture, TextureReference};

#[test]
fn arena_push_and_top() {
    let mut a: Arena<u32, 4> = Arena::init(0);
    assert_eq!(a.len(), 0);
    assert_eq!(a.get_top(), None);
    a.push(7);
    a.push(9);
    assert_eq!(a.len(), 2);
    assert_eq!(a.get_top(), Some(&9));
    assert_eq!(a.get_all(), &[7, 9]);
    a.clear();
    assert_eq!(a.len(), 0);
    assert_eq!(a.get_all(), &[] as &[u32]);
}

#[test]
fn arena_memory_blocks() {
    let mut a: Arena<u8, 8> = Arena::init(1);
    {
        let m = a.get_memory(3);
        assert_eq!(m, &[1, 1, 1]);
        m[0] = 5;
        m[2] = 6;
    }
    assert_eq!(a.len(), 3);
    assert_eq!(a.get_all(), &[5, 1, 6]);
    let m = a.get_memory(5);
    assert_eq!(m.len(), 5);
    assert_eq!(a.len(), 8);
}

#[test]
fn atlas_single_row() {
    let layout = atlas_layout(&[Some((100, 10)), None, Some((20, 12))]);
    assert_eq!(layout.positions, vec![(0, 0), (0, 0), (100, 0)]);
    assert_eq!(layout.tex_w, 128);
    assert_eq!(layout.tex_h, 16);
}

#[test]
fn atlas_wraps_rows() {
    let layout = atlas_layout(&[Some((100, 10)), Some((300, 20)), Some((200, 15))]);
    assert_eq!(layout.positions, vec![(0, 0), (100, 0), (0, 20)]);
    assert_eq!(layout.tex_w, 512);
    assert_eq!(layout.tex_h, 64);
}

#[test]
fn atlas_power_above_exact_power() {
    let layout = atlas_layout(&[Some((128, 16))]);
    assert_eq!(layout.tex_w, 256);
    assert_eq!(layout.tex_h, 32);
}

fn glyph(w: u32) -> Glyph {
    Glyph { tex_x: w, tex_y: 1, tex_w: w + 1, x_off: -1, y_off: 2, w, h: 3 }
}

fn fonts() -> RenderedFonts {
    let mut f = RenderedFonts::new();
    f.register_scale(RenderedScale::new(20, 0x4000, 64, 32, &[glyph(4), glyph(5), glyph(6)]));
    f.register_scale(RenderedScale::new(50, 0x8000, 128, 64, &[glyph(10), glyph(11), glyph(12)]));
    f
}

#[test]
fn char_widths() {
    let t = fonts();
    assert_eq!(t.calculate_char_width(' ', 20), 4);
    assert_eq!(t.calculate_char_width('"', 50), 12);
    assert_eq!(t.calculate_char_width('#', 50), 0);
    assert_eq!(t.calculate_char_width('\n', 50), 0);
    assert_eq!(t.calculate_char_width(' ', 30), 0);
}

#[test]
fn glyph_lookup() {
    let t = fonts();
    let (scale, g) = t.find_glyph('!', 50).unwrap();
    assert_eq!(g, glyph(11));
    assert_eq!((scale.scale, scale.texture, scale.tex_w, scale.tex_h), (50, 0x8000, 128, 64));
    assert!(t.find_glyph('~', 50).is_none());
    assert!(t.find_glyph(' ', 51).is_none());
}

#[test]
fn glyph_map_holds_one_per_character() {
    let glyphs: Vec<Glyph> = (0..CHAR_NUM as u32 + 3).map(glyph).collect();
    let mut f = RenderedFonts::new();
    f.register_scale(RenderedScale::new(8, 0, 16, 16, &glyphs));
    assert_eq!(f.calculate_char_width('~', 8), (CHAR_NUM - 1) as i32);
    assert_eq!(f.calculate_char_width('\u{7f}', 8), 0);
}

#[test]
fn font_keeps_first_three_scales() {
    let mut f = RenderedFonts::new();
    for scale in [10, 20, 30, 40, 10] {
        f.register_scale(RenderedScale::new(scale, 0, 16, 16, &[glyph(scale)]));
    }
    assert_eq!(f.calculate_char_width(' ', 10), 10);
    assert_eq!(f.calculate_char_width(' ', 30), 30);
    assert_eq!(f.calculate_char_width(' ', 40), 0);
}

#[test]
fn string_widths_and_alignment() {
    let t = fonts();
    let s: Vec<char> = " !\"!".chars().collect();
    assert_eq!(t.calculate_string_width(&s, 20), 4 + 5 + 6 + 5);
    assert_eq!(t.calculate_string_width(&[], 20), 0);
    assert_eq!(aligned_x(100, 20, HorizAlign::Left), 100);
    assert_eq!(aligned_x(100, 21, HorizAlign::Center), 90);
    assert_eq!(aligned_x(100, -21, HorizAlign::Center), 110);
    assert_eq!(aligned_x(100, 20, HorizAlign::Right), 80);
}

#[test]
fn string_width_of_prefix_extends() {
    let t = fonts();
    let s: Vec<char> = "  !".chars().collect();
    let whole = t.calculate_string_width(&s, 50);
    let head = t.calculate_string_width(&s[..2], 50);
    assert_eq!(whole, head + t.calculate_char_width('!', 50));
}

fn tex(ptr: usize) -> Texture {
    Texture { ptr, width: 16, height: 16, linear_filter: false }
}

#[test]
fn rectangle_batches() {
    let top = TextureReference { rectangle_arena_idx: 0, texture: tex(0x100) };
    assert!(needs_new_reference(None, &tex(0x100)));
    assert!(!needs_new_reference(Some(&top), &tex(0x100)));
    assert!(needs_new_reference(Some(&top), &tex(0x200)));
    let refs = [
        top,
        TextureReference { rectangle_arena_idx: 3, texture: tex(0x200) },
        TextureReference { rectangle_arena_idx: 5, texture: tex(0x100) },
    ];
    assert_eq!(batch_ranges(&refs, 9), vec![(0, 3), (3, 5), (5, 9)]);
    assert_eq!(batch_ranges(&[], 9), vec![]);
}

#[test]
fn field_dimensions() {
    let rows: [&[u8]; 3] = [&[1, 2, 3], &[1, 2], &[1, 2, 3, 4]];
    assert_eq!(dimensions(&rows), (2, 3));
}

#[test]
fn single_block_mesh() {
    let holes: [&[bool]; 1] = [&[false]];
    let quads = mesh_quads(&holes);
    let faces: Vec<Face> = quads.iter().map(|q| q.face).collect();
    assert_eq!(faces, vec![Face::Top, Face::Bottom, Face::Left, Face::Right, Face::Front, Face::Back]);
    let idx = quad_indices(&quads);
    assert_eq!(idx.len(), 36);
    assert_eq!(&idx[0..6], &[2, 1, 0, 2, 3, 1]);
    assert_eq!(&idx[6..12], &[6, 4, 5, 6, 5, 7]);
    assert!(idx.iter().enumerate().all(|(i, v)| (*v as usize) / 4 == i / 6));
}

#[test]
fn holes_make_walls() {
    let holes: [&[bool]; 2] = [&[false, true], &[false, false]];
    let quads = mesh_quads(&holes);
    let at = |x: usize, z: usize| -> Vec<Face> {
        quads.iter().filter(|q| q.x == x && q.z == z).map(|q| q.face).collect()
    };
    assert_eq!(at(1, 0), vec![]);
    assert_eq!(at(0, 0), vec![Face::Top, Face::Bottom, Face::Left, Face::Right, Face::Front]);
    assert_eq!(at(1, 1), vec![Face::Top, Face::Bottom, Face::Right, Face::Front, Face::Back]);
    assert_eq!(quads.len(), 5 + 4 + 5);
    assert_eq!(quads[0], Quad { face: Face::Top, x: 0, z: 0 });
}

#[test]
fn ground_cells_near_corner() {
    let holes: [&[bool]; 2] = [&[false, true], &[false, false]];
    assert_eq!(ground_cells(&holes, 1, 1), vec![(0, 0), (0, 1), (1, 1)]);
    assert_eq!(ground_cells(&holes, 0, 0), vec![(0, 0)]);
    assert_eq!(ground_cells(&holes, 5, 5), vec![]);
    assert_eq!(ground_cells(&holes, isize::MIN, 1), vec![]);
}

#[test]
fn test_piece_holes() {
    assert!(TestPiece::__.is_empty());
    assert!(!TestPiece::Stone.is_empty());
    assert!(!TestPiece::Brick.is_empty());
    assert!(!TestPiece::Grass.is_empty());
}
