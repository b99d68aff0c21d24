use agb::tiled::{RegularBackgroundSize, RegularMap, Tile, TileSetting, TileSize};
use agb::tiles::TileIndex;

const SIZES: [RegularBackgroundSize; 4] = [
    RegularBackgroundSize::Background32x32,
    RegularBackgroundSize::Background64x32,
    RegularBackgroundSize::Background32x64,
    RegularBackgroundSize::Background64x64,
];

#[test]
fn background_dimensions() {
    assert_eq!(RegularBackgroundSize::Background32x32.width(), 32);
    assert_eq!(RegularBackgroundSize::Background32x32.height(), 32);
    assert_eq!(RegularBackgroundSize::Background64x32.width(), 64);
    assert_eq!(RegularBackgroundSize::Background64x32.height(), 32);
    assert_eq!(RegularBackgroundSize::Background32x64.width(), 32);
    assert_eq!(RegularBackgroundSize::Background32x64.height(), 64);
    assert_eq!(RegularBackgroundSize::Background64x64.width(), 64);
    assert_eq!(RegularBackgroundSize::Background64x64.height(), 64);
}

#[test]
fn background_tile_counts_and_flags() {
    assert_eq!(RegularBackgroundSize::Background32x32.num_tiles(), 1024);
    assert_eq!(RegularBackgroundSize::Background64x64.num_tiles(), 4096);
    assert_eq!(RegularBackgroundSize::Background32x32.num_screen_blocks(), 1);
    assert_eq!(RegularBackgroundSize::Background64x32.num_screen_blocks(), 2);
    assert_eq!(RegularBackgroundSize::Background64x64.num_screen_blocks(), 4);
    assert_eq!(RegularBackgroundSize::Background32x32.size_flag(), 0);
    assert_eq!(RegularBackgroundSize::Background64x32.size_flag(), 1);
    assert_eq!(RegularBackgroundSize::Background32x64.size_flag(), 2);
    assert_eq!(RegularBackgroundSize::Background64x64.size_flag(), 3);
}

#[test]
fn rem_euclid_width_works() {
    for size in SIZES.iter() {
        let width = size.width() as i32;

        assert_eq!(size.tile_pos_x(8), 8);
        assert_eq!(size.tile_pos_x(3 + width), 3);
        assert_eq!(size.tile_pos_x(7 + width * 9), 7);

        assert_eq!(size.tile_pos_x(-8), (size.width() - 8) as u16);
        assert_eq!(size.tile_pos_x(-17 - width * 8), (size.width() - 17) as u16);
    }
}

#[test]
fn rem_euclid_height_works() {
    for size in SIZES.iter() {
        let height = size.height() as i32;
        assert_eq!(size.tile_pos_y(5 + height * 3), 5);
        assert_eq!(size.tile_pos_y(-1), (size.height() - 1) as u16);
    }
}

#[test]
fn pixel_offsets_wrap_at_the_pixel_width() {
    let size = RegularBackgroundSize::Background32x32;
    assert_eq!(size.px_offset_x(0), 0);
    assert_eq!(size.px_offset_x(256), 0);
    assert_eq!(size.px_offset_x(300), 44);
    assert_eq!(size.px_offset_x(-1), 255);
    assert_eq!(size.px_offset_y(511), 255);
}

#[test]
fn gba_offset_crosses_screen_blocks() {
    // Within the first screen block the layout is row-major.
    let small = RegularBackgroundSize::Background32x32;
    assert_eq!(small.gba_offset(0, 0), 0);
    assert_eq!(small.gba_offset(5, 3), 5 + 3 * 32);
    // Wrapping at the edge.
    assert_eq!(small.gba_offset(33, 0), 1);

    // A 64-wide background keeps columns 32..63 in the second block.
    let wide = RegularBackgroundSize::Background64x64;
    assert_eq!(wide.gba_offset(33, 1), 1024 + 1 + 32);
    // Row 32 starts the lower pair of blocks.
    assert_eq!(wide.gba_offset(0, 32), 2 * 1024);
    assert_eq!(wide.gba_offset(63, 63), 4 * 1024 - 1);
}

#[test]
fn tile_setting_packs_its_fields() {
    let setting = TileSetting::new(5, true, false, 2);
    assert_eq!(setting.0, 5 | (1 << 10) | (2 << 12));
    assert_eq!(setting.index(), 5);
    assert_eq!(setting.setting(), (1 << 10) | (2 << 12));

    let raw = TileSetting::from_raw(0x1234);
    assert_eq!(raw.0, 0x1234);

    // Out-of-range tile numbers are masked to ten bits.
    let masked = TileSetting::new(0x7FF, false, true, 0);
    assert_eq!(masked.index(), 0x3FF);
    assert_eq!(masked.setting(), 1 << 11);
}

#[test]
fn tile_combines_index_and_flags() {
    let tile = Tile::new(TileIndex(7), TileSetting::from_raw(0xFC05));
    assert_eq!(tile.0, 7 | 0xFC00);
    assert_eq!(tile.tile_index(), TileIndex(7));
}

#[test]
fn regular_map_stores_entries_at_their_offset() {
    let mut map = RegularMap::new(RegularBackgroundSize::Background32x32);
    assert_eq!(map.tile_at(4, 2), 0);

    map.set_tile(4, 2, TileIndex(9), TileSetting::new(0, true, false, 1));
    assert_eq!(map.tile_at(4, 2), 9 | (1 << 10) | (1 << 12));

    // Positions wrap like the hardware's own lookup.
    assert_eq!(map.tile_at(4 + 32, 2), 9 | (1 << 10) | (1 << 12));
}

#[test]
fn tile_size_values() {
    assert_eq!(TileSize::Tile8.to_size(), 8);
    assert_eq!(TileSize::Tile16.to_size(), 16);
    assert_eq!(TileSize::Tile32.to_size(), 32);
}
