use agb::font::{Font, FontLetter};
use agb::tiled::{RegularBackgroundSize, RegularMap};
use agb::tiles::{TileFormat, TileIndex, TileSet};
use agb::vram::VRamManager;

fn solid_glyph_font() -> Font {
    // Glyphs for every code up to 'a'; only 'a' has ink: a full 8x8 block.
    let mut letters = Vec::new();
    for code in 0..=97u32 {
        if code == 'a' as u32 {
            letters.push(FontLetter::new(8, 8, vec![255u8; 64], 0, 0, 8));
        } else {
            letters.push(FontLetter::new(0, 0, Vec::new(), 0, 0, 4));
        }
    }
    Font::new(letters)
}

#[test]
fn letter_lookup_finds_the_glyph() {
    let font = solid_glyph_font();
    let glyph = font.letter('a');
    assert_eq!(glyph.width, 8);
    assert_eq!(glyph.height, 8);
    assert_eq!(glyph.advance_width, 8);
    assert_eq!(font.letter(' ').width, 0);
}

#[test]
fn font_letter_carries_its_metrics() {
    let letter = FontLetter::new(3, 5, vec![0u8; 15], -1, 2, 4);
    assert_eq!(letter.width, 3);
    assert_eq!(letter.height, 5);
    assert_eq!(letter.data.len(), 15);
    assert_eq!(letter.xmin, -1);
    assert_eq!(letter.ymin, 2);
    assert_eq!(letter.advance_width, 4);
}

#[test]
fn render_text_draws_into_a_dynamic_tile() {
    let font = solid_glyph_font();
    let mut bg = RegularMap::new(RegularBackgroundSize::Background32x32);
    let mut vram = VRamManager::new();

    let result = font.render_text(2, 1, "a", 1, 0, i32::MAX, &mut bg, &mut vram);
    assert_eq!(result, Ok(1));

    // The fully inked 8x8 glyph lands in the first dynamic tile: every
    // nibble carries the foreground colour over the background fill.
    let bytes = vram.slot_bytes(TileIndex(0));
    for i in 0..32 {
        assert_eq!(bytes[i], 0x11);
    }

    // The map entry at the target position names that slot, and the handle
    // was released afterwards.
    assert_eq!(bg.tile_at(2, 1), 0);
    assert_eq!(vram.reference_count(TileIndex(0)), 0);
}

#[test]
fn render_text_leaves_the_shared_cache_alone() {
    let font = solid_glyph_font();
    let mut bg = RegularMap::new(RegularBackgroundSize::Background32x32);
    let mut vram = VRamManager::new();

    let ts = TileSet::new(vec![0x42u8; 32], TileFormat::FourBpp, 9);
    let slot = vram.add_tile(&ts, 0).unwrap();

    font.render_text(0, 0, "aa", 2, 0, i32::MAX, &mut bg, &mut vram).unwrap();

    // The cached entry is still live and still a dedup hit.
    assert_eq!(vram.reference_count(slot), 1);
    let again = vram.add_tile(&ts, 0).unwrap();
    assert_eq!(again.index(), slot.index());
}

#[test]
fn render_text_spans_two_tiles_for_two_glyphs() {
    let font = solid_glyph_font();
    let mut bg = RegularMap::new(RegularBackgroundSize::Background64x64);
    let mut vram = VRamManager::new();

    font.render_text(0, 0, "aa", 3, 0, i32::MAX, &mut bg, &mut vram).unwrap();

    // Two 8-pixel-wide glyphs with advance 8 fill two tile columns.
    for slot in 0..2u16 {
        let bytes = vram.slot_bytes(TileIndex(slot));
        for i in 0..32 {
            assert_eq!(bytes[i], 0x33);
        }
    }
    // The second column's map entry names the second slot.
    assert_eq!(bg.tile_at(1, 0), 1);

    // Both handles were released again.
    assert_eq!(vram.reference_count(TileIndex(0)), 0);
    assert_eq!(vram.reference_count(TileIndex(1)), 0);
}
