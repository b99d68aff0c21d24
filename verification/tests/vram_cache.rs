use agb::tiles::{TileFormat, TileIndex, TileInTileSetReference, TileReference, TileSet};
use agb::vram::{Palette16, VRamManager};
use agb::ResourceError;

fn tile_set_with(tiles: usize, fill: u8, id: u32) -> TileSet {
    TileSet::new(vec![fill; tiles * 32], TileFormat::FourBpp, id)
}

#[test]
fn dedup_hit_returns_same_slot() {
    let mut vram = VRamManager::new();
    let ts = tile_set_with(4, 0xAB, 1);

    let first = vram.add_tile(&ts, 2).unwrap();
    let second = vram.add_tile(&ts, 2).unwrap();

    assert_eq!(first.index(), second.index());
    assert_eq!(vram.reference_count(first), 2);
}

#[test]
fn distinct_ids_are_not_deduplicated() {
    // Identity is per-buffer: byte-identical sets with different ids get
    // separate slots.
    let mut vram = VRamManager::new();
    let a = tile_set_with(1, 0x77, 10);
    let b = tile_set_with(1, 0x77, 11);

    let slot_a = vram.add_tile(&a, 0).unwrap();
    let slot_b = vram.add_tile(&b, 0).unwrap();

    assert_ne!(slot_a.index(), slot_b.index());
}

#[test]
fn add_tile_copies_pixel_bytes() {
    let mut vram = VRamManager::new();
    let mut data = vec![0u8; 3 * 32];
    for i in 0..32 {
        data[32 + i] = i as u8;
    }
    let ts = TileSet::new(data, TileFormat::FourBpp, 5);

    let slot = vram.add_tile(&ts, 1).unwrap();

    let bytes = vram.slot_bytes(slot);
    for i in 0..32 {
        assert_eq!(bytes[i], i as u8);
    }
}

#[test]
fn reference_symmetry_frees_slot_for_reuse() {
    let mut vram = VRamManager::new();
    let a = tile_set_with(1, 1, 20);
    let b = tile_set_with(1, 2, 21);

    let slot = vram.add_tile(&a, 0).unwrap();
    vram.remove_tile(slot);
    vram.gc();

    assert_eq!(vram.reference_count(slot), 0);

    // A subsequently requested distinct key reuses the freed slot.
    let slot_b = vram.add_tile(&b, 0).unwrap();
    assert_eq!(slot_b.index(), slot.index());
}

#[test]
fn reclaim_cancellation_keeps_slot_live() {
    let mut vram = VRamManager::new();
    let ts = tile_set_with(1, 0x5A, 30);

    let slot = vram.add_tile(&ts, 0).unwrap();
    vram.remove_tile(slot);
    let again = vram.add_tile(&ts, 0).unwrap();
    assert_eq!(again.index(), slot.index());

    vram.gc();

    // The queue entry was skipped: the slot is still live with count 1.
    assert_eq!(vram.reference_count(slot), 1);
    let third = vram.add_tile(&ts, 0).unwrap();
    assert_eq!(third.index(), slot.index());
    assert_eq!(vram.reference_count(slot), 2);
}

#[test]
fn capacity_boundary_returns_resource_exhausted() {
    let mut vram = VRamManager::new();
    let ts = tile_set_with(1024, 0xFF, 40);

    for tile in 0..1024u16 {
        vram.add_tile(&ts, tile).unwrap();
    }

    let overflow = tile_set_with(1, 0, 41);
    assert_eq!(
        vram.add_tile(&overflow, 0),
        Err(ResourceError::ResourceExhausted)
    );
}

#[test]
fn dynamic_tile_capacity_boundary() {
    let mut vram = VRamManager::new();
    for _ in 0..1024 {
        vram.new_dynamic_tile().unwrap();
    }
    assert!(matches!(
        vram.new_dynamic_tile(),
        Err(ResourceError::ResourceExhausted)
    ));
}

#[test]
fn fill_with_packs_the_nibbles() {
    let mut vram = VRamManager::new();
    let tile = vram.new_dynamic_tile().unwrap();
    let tile = tile.fill_with(3);

    assert_eq!(tile.tile_data.len(), 32);
    for &b in tile.tile_data.iter() {
        assert_eq!(b, 0x33);
    }
}

#[test]
fn remove_dynamic_tile_writes_back_and_releases() {
    let mut vram = VRamManager::new();
    let tile = vram.new_dynamic_tile().unwrap();
    let tile = tile.fill_with(5);
    let index = tile.tile_index();

    vram.remove_dynamic_tile(tile);

    let bytes = vram.slot_bytes(TileIndex(index));
    for i in 0..32 {
        assert_eq!(bytes[i], 0x55);
    }
    assert_eq!(vram.reference_count(TileIndex(index)), 0);
}

#[test]
fn replace_tile_overwrites_content_only() {
    let mut vram = VRamManager::new();
    let source = tile_set_with(1, 0x11, 50);
    let target = tile_set_with(2, 0x99, 51);

    let slot = vram.add_tile(&source, 0).unwrap();
    vram.replace_tile(&source, 0, &target, 1);

    let bytes = vram.slot_bytes(slot);
    for i in 0..32 {
        assert_eq!(bytes[i], 0x99);
    }
    // Counts and the cache map are untouched: a re-add is still a hit.
    assert_eq!(vram.reference_count(slot), 1);
    let again = vram.add_tile(&source, 0).unwrap();
    assert_eq!(again.index(), slot.index());
}

#[test]
fn replace_tile_without_source_does_nothing() {
    let mut vram = VRamManager::new();
    let source = tile_set_with(1, 0x11, 60);
    let target = tile_set_with(1, 0x99, 61);

    vram.replace_tile(&source, 0, &target, 0);
    let bytes = vram.slot_bytes(TileIndex(0));
    for i in 0..32 {
        assert_eq!(bytes[i], 0);
    }
}

#[test]
fn address_arithmetic_round_trips() {
    let reference = VRamManager::reference_from_index(TileIndex(37));
    assert_eq!(reference.0, 0x0600_0000 + 37 * 32);
    assert_eq!(VRamManager::index_from_reference(reference), 37);
    assert_eq!(
        VRamManager::index_from_reference(TileReference(0x0600_0000)),
        0
    );
}

#[test]
fn tile_set_reference_is_its_identity() {
    let ts = tile_set_with(1, 0, 77);
    assert_eq!(ts.reference(), 77);
    let key = TileInTileSetReference::new(&ts, 3);
    assert_eq!(key.tileset, 77);
    assert_eq!(key.tile, 3);
    assert_eq!(key.encode(), 77 * 0x1_0000 + 3);
}

#[test]
fn tile_format_size() {
    assert_eq!(TileFormat::FourBpp.tile_size(), 32);
}

#[test]
fn background_palettes_are_written_in_blocks() {
    let mut vram = VRamManager::new();
    let first = Palette16::new((0..16u16).collect());
    let second = Palette16::new((100..116u16).collect());

    vram.set_background_palettes(&vec![first, second]);

    for i in 0..16u16 {
        assert_eq!(vram.background_palette_entry(i), i);
        assert_eq!(vram.background_palette_entry(16 + i), 100 + i);
    }
    assert_eq!(vram.background_palette_entry(32), 0);
}

#[test]
fn single_palette_block_placement() {
    let mut vram = VRamManager::new();
    let palette = Palette16::new(vec![7u16; 16]);

    vram.set_background_palette(3, &palette);

    assert_eq!(vram.background_palette_entry(47), 0);
    assert_eq!(vram.background_palette_entry(48), 7);
    assert_eq!(vram.background_palette_entry(63), 7);
    assert_eq!(vram.background_palette_entry(64), 0);
}
