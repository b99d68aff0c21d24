//! Tile data model: fixed-size 8x8-pixel tiles at 4 bits per pixel, stored in
//! a bounded video-memory arena of 1024 slots of 32 bytes each.

use vstd::prelude::*;

verus! {

/// Base address of the tile arena in the console's address space.
pub const TILE_RAM_START: u32 = 0x0600_0000;

/// Number of tile slots in the arena.
pub const TILE_SLOT_COUNT: u16 = 1024;

/// Size in bytes of one tile slot (8x8 pixels at 4 bits per pixel).
pub const TILE_SIZE_BYTES: u16 = 32;

/// Pixel format of a tile.  Only one fixed bit depth is supported: 16-colour
/// palette indices, 4 bits per pixel, row-major within an 8x8 tile.
#[derive(Clone, Copy, Debug)]
pub enum TileFormat {
    FourBpp,
}

impl TileFormat {
    /// Returns the size of the tile in bytes.
    pub fn tile_size(self) -> (r: usize)
        ensures
            r == TILE_SIZE_BYTES,
    {
        match self {
            TileFormat::FourBpp => 8 * 8 / 2,
        }
    }
}

/// A source buffer of tile pixel data, together with its identity.
///
/// Identity is deliberately per-buffer, not per-byte-content: `id` stands for
/// the address of the source buffer, so two byte-identical tile sets with
/// distinct ids are not deduplicated against each other.
pub struct TileSet {
    tiles: Vec<u8>,
    format: TileFormat,
    id: u32,
}

impl TileSet {
    pub closed spec fn spec_tiles(&self) -> Seq<u8> {
        self.tiles@
    }

    pub closed spec fn spec_id(&self) -> u32 {
        self.id
    }

    pub fn new(tiles: Vec<u8>, format: TileFormat, id: u32) -> (r: TileSet)
        ensures
            r.spec_tiles() == tiles@,
            r.spec_id() == id,
    {
        TileSet { tiles, format, id }
    }

    /// The identity under which tiles of this set are entered in the cache.
    pub fn reference(&self) -> (r: u32)
        ensures
            r == self.spec_id(),
    {
        self.id
    }

    /// Borrow of the raw pixel bytes.
    pub fn tiles(&self) -> (r: &Vec<u8>)
        ensures
            r@ == self.spec_tiles(),
    {
        &self.tiles
    }
}

/// An index of a slot in the tile arena: an opaque 16-bit handle handed to
/// display consumers.
#[derive(Clone, Copy, Debug, PartialEq, Eq, Structural)]
pub struct TileIndex(pub u16);

impl TileIndex {
    pub fn new(index: usize) -> (r: TileIndex)
        requires
            index < 0x1_0000,
        ensures
            r.0 == index,
    {
        TileIndex(index as u16)
    }

    pub fn index(&self) -> (r: u16)
        ensures
            r == self.0,
    {
        self.0
    }
}

/// The address of a tile slot within the arena.
#[derive(Clone, Copy, Debug, PartialEq, Eq, Structural)]
pub struct TileReference(pub u32);

/// Identity of one source tile: which tile set, and which tile within it.
/// This is the key of the cache map.
#[derive(Clone, Copy, Debug, PartialEq, Eq, Structural)]
pub struct TileInTileSetReference {
    pub tileset: u32,
    pub tile: u16,
}

impl TileInTileSetReference {
    pub fn new(tileset: &TileSet, tile: u16) -> (r: TileInTileSetReference)
        ensures
            r.tileset == tileset.spec_id(),
            r.tile == tile,
    {
        TileInTileSetReference { tileset: tileset.reference(), tile }
    }

    /// The key packed into one integer; injective, since the tile occupies
    /// the low 16 bits.
    pub open spec fn spec_encode(self) -> int {
        self.tileset * 0x1_0000 + self.tile
    }

    pub fn encode(&self) -> (r: u64)
        ensures
            r == self.spec_encode(),
    {
        self.tileset as u64 * 0x1_0000 + self.tile as u64
    }
}

/// Two distinct tile identities never share an encoding: the buffer
/// identity and the tile number are recovered by dividing out the low
/// sixteen bits.
pub proof fn lemma_encode_injective(k1: TileInTileSetReference, k2: TileInTileSetReference)
    requires
        k1.spec_encode() == k2.spec_encode(),
    ensures
        k1 == k2,
{
    assert(k1.tileset == k2.tileset && k1.tile == k2.tile) by (nonlinear_arith)
        requires
            k1.tileset * 0x1_0000 + k1.tile == k2.tileset * 0x1_0000 + k2.tile,
            k1.tile < 0x1_0000,
            k2.tile < 0x1_0000,
            k1.tileset < 0x1_0000_0000,
            k2.tileset < 0x1_0000_0000,
    ;
}

/// Per-slot bookkeeping record: how many callers hold the slot, and, for a
/// shared (cache-owned) slot, the key it caches.  Dynamic (caller-exclusive)
/// slots carry no key.  The record table grows to cover every ever-allocated
/// slot and never shrinks.
#[derive(Clone, Copy)]
pub struct TileReferenceCount {
    pub reference_count: u16,
    pub tile_in_tile_set: Option<TileInTileSetReference>,
}

impl TileReferenceCount {
    pub open spec fn spec_count(&self) -> u16 {
        self.reference_count
    }

    pub open spec fn spec_key(&self) -> Option<TileInTileSetReference> {
        self.tile_in_tile_set
    }

    /// A record for a freshly referenced slot.
    pub fn new(tile_in_tile_set: Option<TileInTileSetReference>) -> (r: TileReferenceCount)
        ensures
            r.spec_count() == 1,
            r.spec_key() == tile_in_tile_set,
    {
        TileReferenceCount { reference_count: 1, tile_in_tile_set }
    }

    /// An empty record, used to pad the table up to a newly allocated slot.
    pub fn empty() -> (r: TileReferenceCount)
        ensures
            r.spec_count() == 0,
            r.spec_key() is None,
    {
        TileReferenceCount { reference_count: 0, tile_in_tile_set: None }
    }

    pub fn increment_reference_count(&mut self)
        requires
            old(self).spec_count() < 0xFFFF,
        ensures
            final(self).spec_count() == old(self).spec_count() + 1,
            final(self).spec_key() == old(self).spec_key(),
    {
        self.reference_count += 1;
    }

    /// Decrements the count and returns the new value.  Decrementing a count
    /// already at zero is a programmer error, excluded by the precondition.
    pub fn decrement_reference_count(&mut self) -> (r: u16)
        requires
            old(self).spec_count() > 0,
        ensures
            final(self).spec_count() == old(self).spec_count() - 1,
            final(self).spec_key() == old(self).spec_key(),
            r == final(self).spec_count(),
    {
        self.reference_count -= 1;
        self.reference_count
    }

    pub fn clear(&mut self)
        ensures
            final(self).spec_count() == 0,
            final(self).spec_key() is None,
    {
        self.reference_count = 0;
        self.tile_in_tile_set = None;
    }

    pub fn current_count(&self) -> (r: u16)
        ensures
            r == self.spec_count(),
    {
        self.reference_count
    }

    pub fn key(&self) -> (r: Option<TileInTileSetReference>)
        ensures
            r == self.spec_key(),
    {
        self.tile_in_tile_set
    }
}

} // verus!
