//! The video-memory tile cache: deduplicates tile content against occupied
//! slots, reference-counts sharing, and defers physical reclamation.
//!
//! Logical removal (a cheap decrement) is separated from physical reclamation
//! (batched in [`VRamManager::gc`]): a slot whose count reaches zero is only
//! queued, and reclamation re-checks the current count, so a slot freed and
//! re-requested within the same frame costs nothing.  `gc` should be called
//! once per frame, after all removals for that frame are issued.

use vstd::prelude::*;
use std::collections::HashMap;
use crate::ResourceError;
use crate::slot_alloc::SlotAllocator;
use crate::tiles::{
    TileInTileSetReference, TileIndex, TileReference, TileReferenceCount, TileSet,
    TILE_RAM_START, TILE_SIZE_BYTES, TILE_SLOT_COUNT,
};

verus! {

broadcast use {vstd::std_specs::hash::group_hash_axioms, vstd::seq_lib::group_seq_properties};

/// Number of 16-bit entries in the background palette table.
pub const PALETTE_ENTRIES: u16 = 256;

/// A table of 16 colours; tile pixels store 4-bit indices into a palette.
pub struct Palette16 {
    colours: Vec<u16>,
}

impl Palette16 {
    pub closed spec fn spec_colours(&self) -> Seq<u16> {
        self.colours@
    }

    /// A palette holds exactly 16 colour entries.
    pub open spec fn wf(&self) -> bool {
        self.spec_colours().len() == 16
    }

    pub fn new(colours: Vec<u16>) -> (r: Palette16)
        requires
            colours@.len() == 16,
        ensures
            r.wf(),
            r.spec_colours() == colours@,
    {
        Palette16 { colours }
    }

    pub fn colours(&self) -> (r: &Vec<u16>)
        ensures
            r@ == self.spec_colours(),
    {
        &self.colours
    }
}

/// Mathematical state of the tile cache: the cache map (encoded key to slot),
/// the reference-count table, the pending-reclaim queue, the allocator's
/// occupancy, the arena contents, and the background palette.
pub ghost struct VramView {
    pub map: Map<u64, u16>,
    pub counts: Seq<TileReferenceCount>,
    pub queue: Seq<u16>,
    pub allocated: Seq<bool>,
    pub vram: Seq<Seq<u8>>,
    pub palette: Seq<u16>,
}

impl VramView {
    /// Shape of the modelled memories: the arena holds a fixed number of
    /// fixed-size slots, and the palette table has a fixed length.
    pub open spec fn mem_wf(self) -> bool {
        &&& self.vram.len() == TILE_SLOT_COUNT
        &&& (forall|s: int| 0 <= s < self.vram.len() ==> (#[trigger] self.vram[s]).len()
            == TILE_SIZE_BYTES)
        &&& self.palette.len() == PALETTE_ENTRIES
    }

    /// Well-formedness of the cache state.
    ///
    /// The cache map and the record table are kept as mutual inverses over
    /// records that hold a key; a record's count may be zero while its map
    /// entry survives, which is exactly the window between logical removal
    /// and reclamation.
    pub open spec fn wf(self) -> bool {
        &&& self.mem_wf()
        &&& self.counts.len() <= TILE_SLOT_COUNT
        &&& self.allocated.len() == TILE_SLOT_COUNT
        // A referenced slot is a handed-out slot.
        &&& (forall|s: int|
            0 <= s < self.counts.len() && (#[trigger] self.counts[s]).spec_count() > 0
                ==> self.allocated[s])
        // A slot that still caches a key has not been physically reclaimed,
        // even while its count sits at zero awaiting `gc`.
        &&& (forall|s: int|
            0 <= s < self.counts.len() && (#[trigger] self.counts[s]).spec_key() is Some
                ==> self.allocated[s])
        // Every ever-handed-out slot has a record.
        &&& (forall|s: int|
            0 <= s < self.allocated.len() && #[trigger] self.allocated[s]
                ==> s < self.counts.len())
        // A map entry points at a record holding exactly its key.
        &&& (forall|k: u64|
            #[trigger] self.map.contains_key(k) ==> {
                &&& 0 <= self.map[k] < self.counts.len()
                &&& self.counts[self.map[k] as int].spec_key() is Some
                &&& self.counts[self.map[k] as int].spec_key()->Some_0.spec_encode() == k
            })
        // A record holding a key is pointed at by exactly that map entry.
        &&& (forall|s: int|
            0 <= s < self.counts.len() && (#[trigger] self.counts[s]).spec_key() is Some
                ==> {
                    let k = self.counts[s].spec_key()->Some_0.spec_encode() as u64;
                    &&& self.map.contains_key(k)
                    &&& self.map[k] == s
                })
        // Queued slots have records.
        &&& (forall|i: int|
            0 <= i < self.queue.len() ==> (#[trigger] self.queue[i]) < self.counts.len())
    }

    /// True if the key is present in the cache map.
    pub open spec fn cached(self, kref: TileInTileSetReference) -> bool {
        self.map.contains_key(kref.spec_encode() as u64)
    }

    /// The slot the key is cached in.
    pub open spec fn slot_of(self, kref: TileInTileSetReference) -> u16 {
        self.map[kref.spec_encode() as u64]
    }

    /// The reference count of slot `s`.
    pub open spec fn count_of(self, s: int) -> u16 {
        self.counts[s].spec_count()
    }
}

/// The 32 bytes of tile `tile` within a tile set's pixel data.
pub open spec fn tile_bytes(tiles: Seq<u8>, tile: int) -> Seq<u8> {
    tiles.subrange(tile * TILE_SIZE_BYTES, tile * TILE_SIZE_BYTES + TILE_SIZE_BYTES)
}

/// The cache key under which tile `tile` of `tile_set` is entered.
pub open spec fn key_of(tile_set: &TileSet, tile: u16) -> TileInTileSetReference {
    TileInTileSetReference { tileset: tile_set.spec_id(), tile }
}

/// An unoccupied reference record.
pub open spec fn empty_rc() -> TileReferenceCount {
    TileReferenceCount { reference_count: 0, tile_in_tile_set: None }
}

/// The record table after slot `s` is (re)written with record `rc`, growing
/// the table with empty records as needed so that it covers `s`.
pub open spec fn counts_with(
    counts: Seq<TileReferenceCount>,
    s: int,
    rc: TileReferenceCount,
) -> Seq<TileReferenceCount> {
    Seq::new(
        if s + 1 > counts.len() {
            (s + 1) as nat
        } else {
            counts.len()
        },
        |j: int|
            if j == s {
                rc
            } else if j < counts.len() {
                counts[j]
            } else {
                empty_rc()
            },
    )
}

/// True if every slot of the arena is handed out.
pub open spec fn arena_full(allocated: Seq<bool>) -> bool {
    forall|s: int| 0 <= s < allocated.len() ==> allocated[s]
}

/// What `remove_tile` does: the slot's count drops by one, and on the
/// transition to zero the slot is appended to the pending-reclaim queue.
/// Nothing is freed yet, and the cache map keeps the slot's key.
pub open spec fn remove_tile_post(pre: VramView, idx: u16, post: VramView) -> bool {
    let s = idx as int;
    let newc = (pre.counts[s].reference_count - 1) as u16;
    &&& post.counts == pre.counts.update(
        s,
        (TileReferenceCount {
            reference_count: newc,
            tile_in_tile_set: pre.counts[s].tile_in_tile_set,
        }),
    )
    &&& post.queue == if newc == 0 {
        pre.queue.push(idx)
    } else {
        pre.queue
    }
    &&& post.map == pre.map
    &&& post.allocated == pre.allocated
    &&& post.vram == pre.vram
    &&& post.palette == pre.palette
}

/// True if `gc` run on state `pre` reclaims slot `s`: the slot was queued
/// and its count still stood at zero when the queue was drained.
pub open spec fn gc_reclaims(pre: VramView, s: int) -> bool {
    &&& 0 <= s < pre.counts.len()
    &&& pre.queue.contains(s as u16)
    &&& pre.counts[s].spec_count() == 0
}

/// What `gc` does: the pending-reclaim queue is drained; every queued slot
/// whose count is still zero is returned to the allocator, its cache-map
/// entry is dropped and its record cleared; a queued slot that was
/// re-referenced in the meantime is skipped and stays live, and slots never
/// queued are untouched.
pub open spec fn gc_post(pre: VramView, post: VramView) -> bool {
    &&& post.queue == Seq::<u16>::empty()
    &&& post.counts.len() == pre.counts.len()
    &&& post.allocated.len() == pre.allocated.len()
    &&& (forall|s: int|
        0 <= s < pre.counts.len() ==> if gc_reclaims(pre, s) {
            (#[trigger] post.counts[s]) == empty_rc() && !post.allocated[s]
        } else {
            post.counts[s] == pre.counts[s] && post.allocated[s] == pre.allocated[s]
        })
    &&& (forall|s: int|
        pre.counts.len() <= s < pre.allocated.len() ==> (#[trigger] post.allocated[s])
            == pre.allocated[s])
    &&& (forall|k: u64|
        #[trigger] pre.map.contains_key(k) ==> if gc_reclaims(pre, pre.map[k] as int) {
            !post.map.contains_key(k)
        } else {
            post.map.contains_key(k) && post.map[k] == pre.map[k]
        })
    &&& (forall|k: u64| #[trigger] post.map.contains_key(k) ==> pre.map.contains_key(k))
    &&& post.vram == pre.vram
    &&& post.palette == pre.palette
}

/// What `add_tile` does: a hit increments the slot's count and copies
/// nothing; a miss allocates the lowest free slot, copies the tile's bytes
/// into it and registers the key; an exhausted arena fails and changes
/// nothing.  `tdata` is the 32-byte pixel content of the requested tile.
pub open spec fn add_tile_post(
    pre: VramView,
    kref: TileInTileSetReference,
    tdata: Seq<u8>,
    post: VramView,
    r: Result<TileIndex, ResourceError>,
) -> bool {
    let k = kref.spec_encode() as u64;
    if pre.map.contains_key(k) {
        let s = pre.map[k] as int;
        &&& r == Result::<TileIndex, ResourceError>::Ok(TileIndex(pre.map[k]))
        &&& post.map == pre.map
        &&& post.counts == pre.counts.update(
            s,
            (TileReferenceCount {
                reference_count: (pre.counts[s].reference_count + 1) as u16,
                tile_in_tile_set: pre.counts[s].tile_in_tile_set,
            }),
        )
        &&& post.queue == pre.queue
        &&& post.allocated == pre.allocated
        &&& post.vram == pre.vram
        &&& post.palette == pre.palette
    } else if !arena_full(pre.allocated) {
        let s = crate::slot_alloc::first_free_from(pre.allocated, 0);
        &&& r == Result::<TileIndex, ResourceError>::Ok(TileIndex(s as u16))
        &&& post.map == pre.map.insert(k, s as u16)
        &&& post.counts == counts_with(
            pre.counts,
            s,
            (TileReferenceCount { reference_count: 1, tile_in_tile_set: Some(kref) }),
        )
        &&& post.queue == pre.queue
        &&& post.allocated == pre.allocated.update(s, true)
        &&& post.vram == pre.vram.update(s, tdata)
        &&& post.palette == pre.palette
    } else {
        &&& r == Result::<TileIndex, ResourceError>::Err(ResourceError::ResourceExhausted)
        &&& post == pre
    }
}

/// A caller-owned, exclusive tile slot for mutable or generated content.
///
/// The handle carries the slot's pixel bytes; the slot index is kept with
/// the handle (in place of recovering it from a raw address, which a
/// verified model cannot do).  The bytes are written back to the arena when
/// the handle is returned through
/// [`VRamManager::remove_dynamic_tile`]; callers must not retain a handle
/// past that call.
pub struct DynamicTile {
    pub tile_data: Vec<u8>,
    pub index: u16,
}

impl DynamicTile {
    pub open spec fn spec_index(&self) -> u16 {
        self.index
    }

    pub open spec fn wf(&self) -> bool {
        &&& self.tile_data@.len() == TILE_SIZE_BYTES
        &&& self.spec_index() < TILE_SLOT_COUNT
    }

    /// The slot index of the handle, the opaque 16-bit value consumers store
    /// for hardware display lookup.
    pub fn tile_index(&self) -> (r: u16)
        ensures
            r == self.spec_index(),
    {
        self.index
    }

    /// Packs the 4-bit colour index into every nibble of the tile, so every
    /// pixel shows that colour.
    pub fn fill_with(self, colour_index: u8) -> (r: DynamicTile)
        requires
            self.wf(),
            colour_index < 16,
        ensures
            r.wf(),
            r.spec_index() == self.spec_index(),
            forall|i: int|
                0 <= i < TILE_SIZE_BYTES ==> (#[trigger] r.tile_data@[i]) == colour_index * 0x11,
    {
        let value: u8 = colour_index | (colour_index << 4u8);
        proof {
            assert(colour_index | (colour_index << 4u8) == colour_index * 0x11) by (bit_vector)
                requires
                    colour_index < 16,
            ;
        }
        let ghost orig = self;
        let mut tile = self;
        let mut i: usize = 0;
        while i < TILE_SIZE_BYTES as usize
            invariant
                i <= TILE_SIZE_BYTES,
                value == colour_index * 0x11,
                tile.tile_data@.len() == TILE_SIZE_BYTES,
                tile.spec_index() == orig.spec_index(),
                orig.spec_index() < TILE_SLOT_COUNT,
                forall|j: int| 0 <= j < i ==> (#[trigger] tile.tile_data@[j]) == value,
            decreases TILE_SIZE_BYTES - i,
        {
            tile.tile_data.set(i, value);
            i += 1;
        }
        tile
    }
}

/// The owner of the tile arena: cache map, reference counts, reclaim queue,
/// slot allocator, the arena bytes, and the background palette table.
pub struct VRamManager {
    tile_set_to_vram: HashMap<u64, u16>,
    reference_counts: Vec<TileReferenceCount>,
    indices_to_gc: Vec<TileIndex>,
    allocator: SlotAllocator,
    vram: Vec<Vec<u8>>,
    palette: Vec<u16>,
}

impl View for VRamManager {
    type V = VramView;

    closed spec fn view(&self) -> VramView {
        VramView {
            map: self.tile_set_to_vram@,
            counts: self.reference_counts@,
            queue: self.indices_to_gc@.map_values(|t: TileIndex| t.0),
            allocated: self.allocator@,
            vram: self.vram@.map_values(|v: Vec<u8>| v@),
            palette: self.palette@,
        }
    }
}

impl VRamManager {
    pub open spec fn wf(&self) -> bool {
        &&& self@.wf()
        &&& self.spec_allocator_wf()
    }

    pub closed spec fn spec_allocator_wf(&self) -> bool {
        self.allocator.wf()
    }

    pub fn new() -> (r: VRamManager)
        ensures
            r.wf(),
            r@.map == Map::<u64, u16>::empty(),
            r@.counts.len() == 0,
            r@.queue.len() == 0,
            forall|s: int| 0 <= s < TILE_SLOT_COUNT ==> !r@.allocated[s],
            forall|s: int, j: int|
                0 <= s < TILE_SLOT_COUNT && 0 <= j < TILE_SIZE_BYTES ==> r@.vram[s][j] == 0,
            forall|i: int| 0 <= i < PALETTE_ENTRIES ==> r@.palette[i] == 0,
    {
        let tile_set_to_vram: HashMap<u64, u16> = HashMap::with_capacity(256);
        let mut vram: Vec<Vec<u8>> = Vec::new();
        let mut s: usize = 0;
        while s < TILE_SLOT_COUNT as usize
            invariant
                s <= TILE_SLOT_COUNT,
                vram@.len() == s,
                forall|i: int| 0 <= i < s ==> (#[trigger] vram@[i])@.len() == TILE_SIZE_BYTES,
                forall|i: int, j: int|
                    0 <= i < s && 0 <= j < TILE_SIZE_BYTES ==> vram@[i]@[j] == 0,
            decreases TILE_SLOT_COUNT - s,
        {
            let mut slot: Vec<u8> = Vec::new();
            let mut j: usize = 0;
            while j < TILE_SIZE_BYTES as usize
                invariant
                    j <= TILE_SIZE_BYTES,
                    slot@.len() == j,
                    forall|i: int| 0 <= i < j ==> slot@[i] == 0,
                decreases TILE_SIZE_BYTES - j,
            {
                slot.push(0);
                j += 1;
            }
            vram.push(slot);
            s += 1;
        }
        let mut palette: Vec<u16> = Vec::new();
        let mut p: usize = 0;
        while p < PALETTE_ENTRIES as usize
            invariant
                p <= PALETTE_ENTRIES,
                palette@.len() == p,
                forall|i: int| 0 <= i < p ==> palette@[i] == 0,
            decreases PALETTE_ENTRIES - p,
        {
            palette.push(0);
            p += 1;
        }
        let allocator = SlotAllocator::new();
        proof {
            assert forall|s: int| 0 <= s < TILE_SLOT_COUNT implies !allocator@[s] by {
                assert(!allocator.spec_allocated(s));
            }
        }
        VRamManager {
            tile_set_to_vram,
            reference_counts: Vec::new(),
            indices_to_gc: Vec::new(),
            allocator,
            vram,
            palette,
        }
    }

    /// The arena slot a tile address refers to: pure address arithmetic.
    pub fn index_from_reference(reference: TileReference) -> (r: usize)
        requires
            TILE_RAM_START <= reference.0,
            reference.0 < TILE_RAM_START + TILE_SLOT_COUNT * TILE_SIZE_BYTES,
        ensures
            r == (reference.0 - TILE_RAM_START) as int / (TILE_SIZE_BYTES as int),
    {
        let difference = reference.0 - TILE_RAM_START;
        (difference / (8 * 8 / 2)) as usize
    }

    /// The address of an arena slot: the inverse of `index_from_reference`.
    pub fn reference_from_index(index: TileIndex) -> (r: TileReference)
        requires
            index.0 < TILE_SLOT_COUNT,
        ensures
            r.0 == TILE_RAM_START + index.0 * TILE_SIZE_BYTES,
    {
        let ptr = (index.index() as u32) * (8 * 8 / 2) + TILE_RAM_START;
        TileReference(ptr)
    }

    /// Bulk copy of one tile's pixel bytes from a source buffer into the
    /// arena slot a reference addresses, the software model of the hardware
    /// block copy.
    pub fn copy_tile_to_location(
        &mut self,
        tile_set: &TileSet,
        tile_id: u16,
        tile_reference: TileReference,
    )
        requires
            old(self)@.mem_wf(),
            TILE_RAM_START <= tile_reference.0,
            tile_reference.0 < TILE_RAM_START + TILE_SLOT_COUNT * TILE_SIZE_BYTES,
            (tile_reference.0 - TILE_RAM_START) % (TILE_SIZE_BYTES as int) == 0,
            (tile_id + 1) * TILE_SIZE_BYTES <= tile_set.spec_tiles().len(),
        ensures
            final(self)@.mem_wf(),
            final(self)@.vram == old(self)@.vram.update(
                (tile_reference.0 - TILE_RAM_START) as int / (TILE_SIZE_BYTES as int),
                tile_bytes(tile_set.spec_tiles(), tile_id as int),
            ),
            final(self)@.map == old(self)@.map,
            final(self)@.counts == old(self)@.counts,
            final(self)@.queue == old(self)@.queue,
            final(self)@.allocated == old(self)@.allocated,
            final(self)@.palette == old(self)@.palette,
    {
        let index = Self::index_from_reference(tile_reference);
        let tile_size = TILE_SIZE_BYTES as usize;
        let tile_offset = (tile_id as usize) * tile_size;
        let tiles = tile_set.tiles();
        let mut slot: Vec<u8> = Vec::new();
        let mut j: usize = 0;
        while j < tile_size
            invariant
                j <= tile_size,
                tile_size == TILE_SIZE_BYTES,
                tile_offset == tile_id * TILE_SIZE_BYTES,
                tile_offset + tile_size <= tiles@.len(),
                slot@.len() == j,
                forall|i: int| 0 <= i < j ==> slot@[i] == tiles@[tile_offset + i],
            decreases tile_size - j,
        {
            slot.push(tiles[tile_offset + j]);
            j += 1;
        }
        proof {
            assert(slot@ =~= tile_bytes(tile_set.spec_tiles(), tile_id as int));
            assert(index < TILE_SLOT_COUNT);
        }
        self.vram.set(index, slot);
        proof {
            assert(self@.vram =~= old(self)@.vram.update(
                index as int,
                tile_bytes(tile_set.spec_tiles(), tile_id as int),
            ));
        }
    }

    /// Resolves a tile to an arena slot: a pure dedup hit increments the
    /// slot's count and performs no copy; otherwise a fresh slot is
    /// allocated, the tile's bytes are copied in, and the key is registered
    /// with a count of one.  Fails with `ResourceExhausted`, changing
    /// nothing, when the arena is full.
    pub fn add_tile(&mut self, tile_set: &TileSet, tile: u16) -> (r: Result<
        TileIndex,
        ResourceError,
    >)
        requires
            old(self).wf(),
            (tile + 1) * TILE_SIZE_BYTES <= tile_set.spec_tiles().len(),
            old(self)@.cached(key_of(tile_set, tile)) ==> old(self)@.count_of(
                old(self)@.slot_of(key_of(tile_set, tile)) as int,
            ) < 0xFFFF,
        ensures
            final(self).wf(),
            add_tile_post(
                old(self)@,
                key_of(tile_set, tile),
                tile_bytes(tile_set.spec_tiles(), tile as int),
                final(self)@,
                r,
            ),
    {
        let kref = TileInTileSetReference::new(tile_set, tile);
        let k = kref.encode();
        let cached = self.tile_set_to_vram.get(&k);
        if let Some(slot_ref) = cached {
            let slot = *slot_ref;
            let index = slot as usize;
            let mut record = self.reference_counts[index];
            record.increment_reference_count();
            self.reference_counts.set(index, record);
            proof {
                assert(self@.vram == old(self)@.vram);
                assert(self@.palette == old(self)@.palette);
                assert(self@.allocated == old(self)@.allocated);
                assert(self@.queue == old(self)@.queue);
                assert(self@.map == old(self)@.map);
                assert(self@.counts == old(self)@.counts.update(index as int, record));
            }
            return Ok(TileIndex::new(index));
        }

        let slot = match self.allocator.allocate() {
            Ok(slot) => slot,
            Err(e) => {
                return Err(e);
            },
        };
        let tile_reference = Self::reference_from_index(TileIndex::new(slot as usize));
        proof {
            assert((tile_reference.0 - TILE_RAM_START) as int / (TILE_SIZE_BYTES as int)
                == slot as int) by (nonlinear_arith)
                requires
                    tile_reference.0 == TILE_RAM_START + slot * TILE_SIZE_BYTES,
                    slot < TILE_SLOT_COUNT,
            ;
            assert((tile_reference.0 - TILE_RAM_START) % (TILE_SIZE_BYTES as int) == 0)
                by (nonlinear_arith)
                requires
                    tile_reference.0 == TILE_RAM_START + slot * TILE_SIZE_BYTES,
                    slot < TILE_SLOT_COUNT,
            ;
        }
        self.copy_tile_to_location(tile_set, tile, tile_reference);

        let index = Self::index_from_reference(tile_reference);
        self.tile_set_to_vram.insert(k, slot);

        while self.reference_counts.len() < index + 1
            invariant
                index < TILE_SLOT_COUNT,
                self@.map == old(self)@.map.insert(k, slot),
                self@.allocated == old(self)@.allocated.update(index as int, true),
                self@.vram == old(self)@.vram.update(
                    index as int,
                    tile_bytes(tile_set.spec_tiles(), tile as int),
                ),
                self@.queue == old(self)@.queue,
                self@.palette == old(self)@.palette,
                self.spec_allocator_wf(),
                self@.counts == self.reference_counts@,
                self.reference_counts@.len() >= old(self)@.counts.len(),
                self.reference_counts@.len() == old(self)@.counts.len()
                    || self.reference_counts@.len() <= index + 1,
                forall|j: int|
                    0 <= j < old(self)@.counts.len() ==> #[trigger] self.reference_counts@[j]
                        == old(self)@.counts[j],
                forall|j: int|
                    old(self)@.counts.len() <= j < self.reference_counts@.len()
                        ==> #[trigger] self.reference_counts@[j] == empty_rc(),
            decreases index + 1 - self.reference_counts.len(),
        {
            self.reference_counts.push(TileReferenceCount::empty());
        }
        self.reference_counts.set(index, TileReferenceCount::new(Some(kref)));
        proof {
            let pre = old(self)@;
            let post = self@;
            let kspec = kref.spec_encode() as u64;
            let rc = (TileReferenceCount { reference_count: 1, tile_in_tile_set: Some(kref) });
            assert(k == kspec);
            assert(!pre.map.contains_key(kspec));
            assert(index == crate::slot_alloc::first_free_from(pre.allocated, 0));
            assert(post.counts =~= counts_with(pre.counts, index as int, rc));
            assert(post.map == pre.map.insert(kspec, index as u16));
            assert(post.allocated == pre.allocated.update(index as int, true));
            assert(post.vram == pre.vram.update(
                index as int,
                tile_bytes(tile_set.spec_tiles(), tile as int),
            ));
            assert(post.queue == pre.queue);
            assert(post.palette == pre.palette);
            assert(!pre.allocated[index as int]);

            assert forall|s: int|
                0 <= s < post.counts.len() && ((#[trigger] post.counts[s]).spec_count() > 0
                    || post.counts[s].spec_key() is Some) implies post.allocated[s] by {
                if s != index {
                    assert(s < pre.counts.len());
                    assert(post.counts[s] == pre.counts[s]);
                }
            }
            assert forall|s: int|
                0 <= s < post.allocated.len() && #[trigger] post.allocated[s] implies s
                < post.counts.len() by {
                if s != index {
                    assert(pre.allocated[s]);
                }
            }
            assert forall|k2: u64| #[trigger] post.map.contains_key(k2) implies {
                &&& 0 <= post.map[k2] < post.counts.len()
                &&& post.counts[post.map[k2] as int].spec_key() is Some
                &&& post.counts[post.map[k2] as int].spec_key()->Some_0.spec_encode() == k2
            } by {
                if k2 != kspec {
                    assert(pre.map.contains_key(k2));
                    let s2 = pre.map[k2] as int;
                    if s2 == index {
                        // A free slot cannot still cache a key.
                        assert(pre.counts[s2].spec_key() is Some);
                        assert(pre.allocated[s2]);
                        assert(false);
                    }
                    assert(post.counts[s2] == pre.counts[s2]);
                }
            }
            assert forall|s: int|
                0 <= s < post.counts.len() && (#[trigger] post.counts[s]).spec_key() is Some
                    implies {
                    let k2 = post.counts[s].spec_key()->Some_0.spec_encode() as u64;
                    &&& post.map.contains_key(k2)
                    &&& post.map[k2] == s
                } by {
                if s == index {
                    assert(post.counts[s] == rc);
                } else if s < pre.counts.len() {
                    assert(post.counts[s] == pre.counts[s]);
                    let k2 = pre.counts[s].spec_key()->Some_0.spec_encode() as u64;
                    assert(pre.map.contains_key(k2));
                    assert(pre.map[k2] == s);
                    assert(k2 != kspec);
                    assert(post.map.contains_key(k2));
                } else {
                    assert(post.counts[s] == empty_rc());
                }
            }
        }
        Ok(TileIndex::new(index))
    }

    /// Allocates a fresh exclusive slot for caller-generated content and
    /// hands back a mutable handle over its bytes.  The slot bypasses the
    /// cache map entirely: it is never deduplicated, and its record carries
    /// no key.  Fails with `ResourceExhausted`, changing nothing, when the
    /// arena is full.
    pub fn new_dynamic_tile(&mut self) -> (r: Result<DynamicTile, ResourceError>)
        requires
            old(self).wf(),
        ensures
            final(self).wf(),
            arena_full(old(self)@.allocated) ==> {
                &&& r == Result::<DynamicTile, ResourceError>::Err(ResourceError::ResourceExhausted)
                &&& final(self)@ == old(self)@
            },
            !arena_full(old(self)@.allocated) ==> {
                let s = crate::slot_alloc::first_free_from(old(self)@.allocated, 0);
                &&& r is Ok
                &&& !old(self)@.allocated[s]
                &&& r->Ok_0.wf()
                &&& r->Ok_0.spec_index() == s
                &&& r->Ok_0.tile_data@ == old(self)@.vram[s]
                &&& final(self)@.map == old(self)@.map
                &&& final(self)@.queue == old(self)@.queue
                &&& final(self)@.vram == old(self)@.vram
                &&& final(self)@.palette == old(self)@.palette
                &&& final(self)@.allocated == old(self)@.allocated.update(s, true)
                &&& final(self)@.counts == counts_with(
                    old(self)@.counts,
                    s,
                    (TileReferenceCount { reference_count: 1, tile_in_tile_set: None }),
                )
            },
    {
        let slot = match self.allocator.allocate() {
            Ok(slot) => slot,
            Err(e) => {
                return Err(e);
            },
        };
        let index = slot as usize;

        let source = &self.vram[index];
        let mut tile_data: Vec<u8> = Vec::new();
        let mut j: usize = 0;
        while j < source.len()
            invariant
                j <= source@.len(),
                tile_data@.len() == j,
                forall|i: int| 0 <= i < j ==> (#[trigger] tile_data@[i]) == source@[i],
            decreases source@.len() - j,
        {
            tile_data.push(source[j]);
            j += 1;
        }
        proof {
            assert(tile_data@ =~= old(self)@.vram[slot as int]);
        }

        while self.reference_counts.len() < index + 1
            invariant
                index < TILE_SLOT_COUNT,
                self@.map == old(self)@.map,
                self@.allocated == old(self)@.allocated.update(index as int, true),
                self@.vram == old(self)@.vram,
                self@.queue == old(self)@.queue,
                self@.palette == old(self)@.palette,
                self.spec_allocator_wf(),
                self@.counts == self.reference_counts@,
                self.reference_counts@.len() >= old(self)@.counts.len(),
                self.reference_counts@.len() == old(self)@.counts.len()
                    || self.reference_counts@.len() <= index + 1,
                forall|j2: int|
                    0 <= j2 < old(self)@.counts.len() ==> #[trigger] self.reference_counts@[j2]
                        == old(self)@.counts[j2],
                forall|j2: int|
                    old(self)@.counts.len() <= j2 < self.reference_counts@.len()
                        ==> #[trigger] self.reference_counts@[j2] == empty_rc(),
            decreases index + 1 - self.reference_counts.len(),
        {
            self.reference_counts.push(TileReferenceCount::empty());
        }
        self.reference_counts.set(index, TileReferenceCount::new(None));
        proof {
            let rc = (TileReferenceCount { reference_count: 1, tile_in_tile_set: None });
            assert(self.reference_counts@ =~= counts_with(old(self)@.counts, index as int, rc));
            let pre = old(self)@;
            let post = self@;
            assert forall|s: int|
                0 <= s < post.counts.len() && ((#[trigger] post.counts[s]).spec_count() > 0
                    || post.counts[s].spec_key() is Some) implies post.allocated[s] by {
                if s != index {
                    assert(s < pre.counts.len());
                    assert(post.counts[s] == pre.counts[s]);
                }
            }
            assert forall|s: int|
                0 <= s < post.allocated.len() && #[trigger] post.allocated[s] implies s
                < post.counts.len() by {
                if s != index {
                    assert(pre.allocated[s]);
                }
            }
            assert forall|k2: u64| #[trigger] post.map.contains_key(k2) implies {
                &&& 0 <= post.map[k2] < post.counts.len()
                &&& post.counts[post.map[k2] as int].spec_key() is Some
                &&& post.counts[post.map[k2] as int].spec_key()->Some_0.spec_encode() == k2
            } by {
                let s2 = pre.map[k2] as int;
                if s2 == index {
                    // A free slot cannot still cache a key.
                    assert(pre.counts[s2].spec_key() is Some);
                    assert(pre.allocated[s2]);
                    assert(false);
                }
                assert(post.counts[s2] == pre.counts[s2]);
            }
            assert forall|s: int|
                0 <= s < post.counts.len() && (#[trigger] post.counts[s]).spec_key() is Some
                    implies {
                    let k2 = post.counts[s].spec_key()->Some_0.spec_encode() as u64;
                    &&& post.map.contains_key(k2)
                    &&& post.map[k2] == s
                } by {
                if s != index && s < pre.counts.len() {
                    assert(post.counts[s] == pre.counts[s]);
                }
            }
        }
        Ok(DynamicTile { tile_data, index: slot })
    }

    /// Returns an exclusive slot: the handle's bytes are written back to its
    /// arena slot (the model of writes that, on hardware, went through the
    /// handle directly), and the slot then takes the same decrement-and-queue
    /// path as `remove_tile`.
    pub fn remove_dynamic_tile(&mut self, dynamic_tile: DynamicTile)
        requires
            old(self).wf(),
            dynamic_tile.wf(),
            dynamic_tile.spec_index() < old(self)@.counts.len(),
            old(self)@.count_of(dynamic_tile.spec_index() as int) > 0,
        ensures
            final(self).wf(),
            remove_tile_post(
                (VramView {
                    vram: old(self)@.vram.update(
                        dynamic_tile.spec_index() as int,
                        dynamic_tile.tile_data@,
                    ),
                    ..old(self)@
                }),
                dynamic_tile.spec_index(),
                final(self)@,
            ),
    {
        let tile_index = TileIndex::new(dynamic_tile.tile_index() as usize);
        let index = tile_index.index() as usize;
        let DynamicTile { tile_data, index: _ } = dynamic_tile;
        self.vram.set(index, tile_data);
        proof {
            assert(self@.vram =~= old(self)@.vram.update(
                dynamic_tile.spec_index() as int,
                dynamic_tile.tile_data@,
            ));
        }
        self.remove_tile(tile_index);
    }

    /// Overwrites the arena bytes of the slot caching `source_tile_set` /
    /// `source_tile` with the pixel content of `target_tile_set` /
    /// `target_tile`, touching neither reference counts nor the cache map:
    /// a content hot-swap into an already-displayed slot.  Does nothing if
    /// the source key is not cached.
    pub fn replace_tile(
        &mut self,
        source_tile_set: &TileSet,
        source_tile: u16,
        target_tile_set: &TileSet,
        target_tile: u16,
    )
        requires
            old(self).wf(),
            old(self)@.cached(key_of(source_tile_set, source_tile)) ==> (target_tile + 1)
                * TILE_SIZE_BYTES <= target_tile_set.spec_tiles().len(),
        ensures
            final(self).wf(),
            old(self)@.cached(key_of(source_tile_set, source_tile)) ==> final(self)@
                == (VramView {
                vram: old(self)@.vram.update(
                    old(self)@.slot_of(key_of(source_tile_set, source_tile)) as int,
                    tile_bytes(target_tile_set.spec_tiles(), target_tile as int),
                ),
                ..old(self)@
            }),
            !old(self)@.cached(key_of(source_tile_set, source_tile)) ==> final(self)@ == old(
                self,
            )@,
    {
        let kref = TileInTileSetReference::new(source_tile_set, source_tile);
        let k = kref.encode();
        let cached = self.tile_set_to_vram.get(&k);
        if let Some(slot_ref) = cached {
            let slot = *slot_ref;
            let tile_reference = Self::reference_from_index(TileIndex::new(slot as usize));
            proof {
                assert((tile_reference.0 - TILE_RAM_START) as int / (TILE_SIZE_BYTES as int)
                    == slot as int) by (nonlinear_arith)
                    requires
                        tile_reference.0 == TILE_RAM_START + slot * TILE_SIZE_BYTES,
                        slot < TILE_SLOT_COUNT,
                ;
                assert((tile_reference.0 - TILE_RAM_START) as int % (TILE_SIZE_BYTES as int) == 0)
                    by (nonlinear_arith)
                    requires
                        tile_reference.0 == TILE_RAM_START + slot * TILE_SIZE_BYTES,
                        slot < TILE_SLOT_COUNT,
                ;
            }
            self.copy_tile_to_location(target_tile_set, target_tile, tile_reference);
        }
    }

    /// Writes one 16-colour palette into palette block `pal_index` of the
    /// background palette table.
    pub fn set_background_palette(&mut self, pal_index: u8, palette: &Palette16)
        requires
            old(self).wf(),
            pal_index < 16,
            palette.wf(),
        ensures
            final(self).wf(),
            final(self)@ == (VramView {
                palette: Seq::new(
                    PALETTE_ENTRIES as nat,
                    |i: int|
                        if pal_index * 16 <= i < pal_index * 16 + 16 {
                            palette.spec_colours()[i - pal_index * 16]
                        } else {
                            old(self)@.palette[i]
                        },
                ),
                ..old(self)@
            }),
    {
        let base = 16 * (pal_index as usize);
        let colours = palette.colours();
        let mut colour_index: usize = 0;
        while colour_index < 16
            invariant
                colour_index <= 16,
                base == 16 * pal_index,
                pal_index < 16,
                colours@.len() == 16,
                self@.map == old(self)@.map,
                self@.counts == old(self)@.counts,
                self@.queue == old(self)@.queue,
                self@.allocated == old(self)@.allocated,
                self@.vram == old(self)@.vram,
                self.spec_allocator_wf(),
                self@.palette.len() == PALETTE_ENTRIES,
                forall|i: int|
                    0 <= i < PALETTE_ENTRIES && !(base <= i < base + colour_index)
                        ==> (#[trigger] self@.palette[i]) == old(self)@.palette[i],
                forall|i: int|
                    base <= i < base + colour_index ==> (#[trigger] self@.palette[i])
                        == colours@[i - base],
            decreases 16 - colour_index,
        {
            self.palette.set(base + colour_index, colours[colour_index]);
            colour_index += 1;
        }
        proof {
            assert(self@.palette =~= Seq::new(
                PALETTE_ENTRIES as nat,
                |i: int|
                    if pal_index * 16 <= i < pal_index * 16 + 16 {
                        palette.spec_colours()[i - pal_index * 16]
                    } else {
                        old(self)@.palette[i]
                    },
            ));
        }
    }

    /// Writes a run of palettes into consecutive blocks of the background
    /// palette table, starting at block zero.
    pub fn set_background_palettes(&mut self, palettes: &Vec<Palette16>)
        requires
            old(self).wf(),
            palettes@.len() <= 16,
            forall|p: int| 0 <= p < palettes@.len() ==> (#[trigger] palettes@[p]).wf(),
        ensures
            final(self).wf(),
            final(self)@ == (VramView {
                palette: Seq::new(
                    PALETTE_ENTRIES as nat,
                    |i: int|
                        if i < palettes@.len() * 16 {
                            palettes@[i / 16].spec_colours()[i % 16]
                        } else {
                            old(self)@.palette[i]
                        },
                ),
                ..old(self)@
            }),
    {
        let mut palette_index: usize = 0;
        while palette_index < palettes.len()
            invariant
                palette_index <= palettes@.len(),
                palettes@.len() <= 16,
                forall|p: int| 0 <= p < palettes@.len() ==> (#[trigger] palettes@[p]).wf(),
                self.wf(),
                self@.map == old(self)@.map,
                self@.counts == old(self)@.counts,
                self@.queue == old(self)@.queue,
                self@.allocated == old(self)@.allocated,
                self@.vram == old(self)@.vram,
                self@.palette.len() == PALETTE_ENTRIES,
                forall|i: int|
                    palette_index * 16 <= i < PALETTE_ENTRIES ==> (#[trigger] self@.palette[i])
                        == old(self)@.palette[i],
                forall|i: int|
                    0 <= i < palette_index * 16 ==> (#[trigger] self@.palette[i])
                        == palettes@[i / 16].spec_colours()[i % 16],
            decreases palettes@.len() - palette_index,
        {
            let entry = &palettes[palette_index];
            self.set_background_palette(palette_index as u8, entry);
            proof {
                assert forall|i: int|
                    0 <= i < (palette_index + 1) * 16 implies (#[trigger] self@.palette[i])
                    == palettes@[i / 16].spec_colours()[i % 16] by {
                    if palette_index * 16 <= i {
                        assert(i / 16 == palette_index as int && i % 16 == i - palette_index * 16)
                            by (nonlinear_arith)
                            requires
                                palette_index * 16 <= i < (palette_index + 1) * 16,
                        ;
                    }
                }
            }
            palette_index += 1;
        }
        proof {
            assert(self@.palette =~= Seq::new(
                PALETTE_ENTRIES as nat,
                |i: int|
                    if i < palettes@.len() * 16 {
                        palettes@[i / 16].spec_colours()[i % 16]
                    } else {
                        old(self)@.palette[i]
                    },
            ));
        }
    }

    /// The current reference count of a slot, zero for slots that have
    /// never been handed out.
    pub fn reference_count(&self, index: TileIndex) -> (r: u16)
        requires
            self.wf(),
        ensures
            r == if index.0 < self@.counts.len() {
                self@.count_of(index.0 as int)
            } else {
                0u16
            },
    {
        if (index.0 as usize) < self.reference_counts.len() {
            self.reference_counts[index.0 as usize].current_count()
        } else {
            0
        }
    }

    /// One entry of the background palette table.
    pub fn background_palette_entry(&self, index: u16) -> (r: u16)
        requires
            self.wf(),
            index < PALETTE_ENTRIES,
        ensures
            r == self@.palette[index as int],
    {
        self.palette[index as usize]
    }

    /// The arena bytes of one slot, for display-side consumers.
    pub fn slot_bytes(&self, index: TileIndex) -> (r: &Vec<u8>)
        requires
            self.wf(),
            index.0 < TILE_SLOT_COUNT,
        ensures
            r@ == self@.vram[index.0 as int],
    {
        &self.vram[index.0 as usize]
    }

    /// Logically releases one reference to a slot.  On the transition to
    /// zero the slot is queued for reclamation; releasing a slot whose count
    /// is already zero is a programmer error, excluded by the precondition.
    pub fn remove_tile(&mut self, tile_index: TileIndex)
        requires
            old(self).wf(),
            tile_index.0 < old(self)@.counts.len(),
            old(self)@.count_of(tile_index.0 as int) > 0,
        ensures
            final(self).wf(),
            remove_tile_post(old(self)@, tile_index.0, final(self)@),
    {
        let index = tile_index.index() as usize;
        let mut record = self.reference_counts[index];
        let new_reference_count = record.decrement_reference_count();
        self.reference_counts.set(index, record);

        if new_reference_count != 0 {
            proof {
                assert(self@.queue == old(self)@.queue);
                assert(self@.counts.len() == old(self)@.counts.len());
                assert forall|i: int| 0 <= i < self@.queue.len() implies (#[trigger] self@.queue[i])
                    < self@.counts.len() by {
                    assert(old(self)@.queue[i] < old(self)@.counts.len());
                }
            }
            return;
        }

        self.indices_to_gc.push(tile_index);
        proof {
            assert(self@.queue =~= old(self)@.queue.push(tile_index.0));
        }
    }

    /// Drains the pending-reclaim queue.  Each queued slot is re-checked:
    /// if its count is still zero its space is returned to the allocator,
    /// its cache-map entry is removed and its record cleared; if it was
    /// re-referenced before collection ran it is skipped and left live.
    pub fn gc(&mut self)
        requires
            old(self).wf(),
        ensures
            final(self).wf(),
            gc_post(old(self)@, final(self)@),
    {
        let ghost pre = old(self)@;
        let ghost q = old(self)@.queue;
        let mut i: usize = 0;
        while i < self.indices_to_gc.len()
            invariant
                self.wf(),
                i <= q.len(),
                self@.queue == q,
                self@.vram == pre.vram,
                self@.palette == pre.palette,
                self@.counts.len() == pre.counts.len(),
                self@.allocated.len() == pre.allocated.len(),
                forall|s: int|
                    0 <= s < pre.counts.len() ==> if q.subrange(0, i as int).contains(s as u16)
                        && pre.counts[s].spec_count() == 0 {
                        (#[trigger] self@.counts[s]) == empty_rc() && !self@.allocated[s]
                    } else {
                        self@.counts[s] == pre.counts[s] && self@.allocated[s] == pre.allocated[s]
                    },
                forall|s: int|
                    pre.counts.len() <= s < pre.allocated.len() ==> (#[trigger] self@.allocated[s])
                        == pre.allocated[s],
                forall|k: u64|
                    #[trigger] pre.map.contains_key(k) ==> if q.subrange(0, i as int).contains(
                        pre.map[k],
                    ) && pre.counts[pre.map[k] as int].spec_count() == 0 {
                        !self@.map.contains_key(k)
                    } else {
                        self@.map.contains_key(k) && self@.map[k] == pre.map[k]
                    },
                forall|k: u64| #[trigger] self@.map.contains_key(k) ==> pre.map.contains_key(k),
            decreases q.len() - i,
        {
            let ghost view0 = self@;
            let tile_index = self.indices_to_gc[i];
            let ghost t = tile_index.0;
            proof {
                assert(q[i as int] == t);
            }
            let index = tile_index.index() as usize;
            let record = self.reference_counts[index];
            if record.current_count() == 0 && self.allocator.is_allocated(tile_index.index()) {
                // Still unreferenced and still physically held: reclaim it.
                self.allocator.deallocate(tile_index.index());
                match record.key() {
                    Some(tile_ref) => {
                        let k = tile_ref.encode();
                        self.tile_set_to_vram.remove(&k);
                    },
                    None => {},
                }
                let mut cleared = record;
                cleared.clear();
                self.reference_counts.set(index, cleared);
                proof {
                    // The record was live in `view0`, hence untouched so far,
                    // hence its count was already zero on entry.
                    assert(view0.counts[t as int] == pre.counts[t as int]);
                    assert(pre.counts[t as int].spec_count() == 0);
                    assert forall|k2: u64| #[trigger] view0.map.contains_key(k2) && view0.map[k2]
                        == t implies view0.counts[t as int].spec_key() is Some
                        && k2 == view0.counts[t as int].spec_key()->Some_0.spec_encode() as u64 by {
                        assert(view0.counts[view0.map[k2] as int].spec_key() is Some);
                    }
                }
            }
            i += 1;
            proof {
                assert(q.subrange(0, i as int) =~= q.subrange(0, i - 1).push(t));
            }
        }
        proof {
            assert(q.subrange(0, q.len() as int) =~= q);
        }
        self.indices_to_gc = Vec::new();
        proof {
            assert(self@.queue =~= Seq::<u16>::empty());
        }
    }
}

/// Dedup correctness: two `add_tile` resolutions of the same key with no
/// intervening removal return the same slot index, and the second performs
/// no copy into the arena and no allocation.
pub proof fn lemma_dedup_correctness(
    st0: VramView,
    st1: VramView,
    st2: VramView,
    kref: TileInTileSetReference,
    tdata: Seq<u8>,
    r1: Result<TileIndex, ResourceError>,
    r2: Result<TileIndex, ResourceError>,
)
    requires
        st0.wf(),
        add_tile_post(st0, kref, tdata, st1, r1),
        add_tile_post(st1, kref, tdata, st2, r2),
        r1 is Ok,
    ensures
        r2 == r1,
        st2.vram == st1.vram,
        st2.allocated == st1.allocated,
{
    let k = kref.spec_encode() as u64;
    if st0.map.contains_key(k) {
        assert(st1.map.contains_key(k));
    } else {
        assert(st1.map == st0.map.insert(k, crate::slot_alloc::first_free_from(st0.allocated, 0) as u16));
        assert(st1.map.contains_key(k));
    }
}

/// Reference symmetry: once the adds and removes of a key have balanced out
/// — its slot's count stands at zero — and the slot sits in the reclaim
/// queue, `gc` removes the key from the cache map and returns the slot to
/// the allocator's free pool, where a later request may reuse it.
pub proof fn lemma_reference_symmetry(
    st: VramView,
    post: VramView,
    kref: TileInTileSetReference,
)
    requires
        st.wf(),
        st.cached(kref),
        st.count_of(st.slot_of(kref) as int) == 0,
        st.queue.contains(st.slot_of(kref)),
        gc_post(st, post),
    ensures
        !post.cached(kref),
        !post.allocated[st.slot_of(kref) as int],
{
    let k = kref.spec_encode() as u64;
    let s = st.slot_of(kref) as int;
    assert(st.map.contains_key(k));
    assert(gc_reclaims(st, s));
    assert(post.counts[s] == empty_rc());
}

/// A balanced pair on a cached key cancels out: an `add_tile` hit followed
/// by `remove_tile` of the returned slot restores every reference count and
/// leaves the cache map unchanged; the remove queues the slot exactly when
/// the count before the pair was already zero.
pub proof fn lemma_balanced_pair(
    st0: VramView,
    st1: VramView,
    st2: VramView,
    kref: TileInTileSetReference,
    tdata: Seq<u8>,
    r: Result<TileIndex, ResourceError>,
)
    requires
        st0.wf(),
        st0.cached(kref),
        st0.count_of(st0.slot_of(kref) as int) < 0xFFFF,
        add_tile_post(st0, kref, tdata, st1, r),
        remove_tile_post(st1, st0.slot_of(kref), st2),
    ensures
        st2.counts == st0.counts,
        st2.map == st0.map,
        st2.vram == st0.vram,
        st2.allocated == st0.allocated,
        st2.queue == if st0.count_of(st0.slot_of(kref) as int) == 0 {
            st0.queue.push(st0.slot_of(kref))
        } else {
            st0.queue
        },
{
    let k = kref.spec_encode() as u64;
    let s = st0.slot_of(kref) as int;
    assert(st0.map.contains_key(k));
    assert(st1.counts == st0.counts.update(
        s,
        (TileReferenceCount {
            reference_count: (st0.counts[s].reference_count + 1) as u16,
            tile_in_tile_set: st0.counts[s].tile_in_tile_set,
        }),
    ));
    assert(st2.counts =~= st0.counts);
}

/// Reclaim cancellation: after a slot's last reference is removed (which
/// queues it), re-adding the same key before `gc` resurrects the slot in
/// place — same index, no copy, no allocation — and `gc` then skips the
/// queue entry, leaving the slot live with count one and its key cached.
pub proof fn lemma_reclaim_cancellation(
    st0: VramView,
    st1: VramView,
    st2: VramView,
    st3: VramView,
    kref: TileInTileSetReference,
    tdata: Seq<u8>,
    r: Result<TileIndex, ResourceError>,
)
    requires
        st0.wf(),
        st0.cached(kref),
        st0.count_of(st0.slot_of(kref) as int) == 1,
        remove_tile_post(st0, st0.slot_of(kref), st1),
        add_tile_post(st1, kref, tdata, st2, r),
        gc_post(st2, st3),
    ensures
        r == Result::<TileIndex, ResourceError>::Ok(TileIndex(st0.slot_of(kref))),
        st2.vram == st1.vram,
        st2.allocated == st1.allocated,
        st3.cached(kref),
        st3.slot_of(kref) == st0.slot_of(kref),
        st3.count_of(st0.slot_of(kref) as int) == 1,
        st3.allocated[st0.slot_of(kref) as int],
{
    let k = kref.spec_encode() as u64;
    let s = st0.slot_of(kref) as int;
    assert(st0.map.contains_key(k));
    assert(0 <= s < st0.counts.len());
    assert(st1.map == st0.map);
    assert(st1.counts[s].spec_count() == 0);
    assert(st2.counts == st1.counts.update(
        s,
        (TileReferenceCount {
            reference_count: (st1.counts[s].reference_count + 1) as u16,
            tile_in_tile_set: st1.counts[s].tile_in_tile_set,
        }),
    ));
    assert(st2.counts[s].spec_count() == 1);
    assert(!gc_reclaims(st2, s));
    assert(st2.map.contains_key(k) && st2.map[k] == s);
    assert(st2.counts.len() == st0.counts.len());
    assert(0 <= s < st2.counts.len());
    assert(st3.counts[s] == st2.counts[s] && st3.allocated[s] == st2.allocated[s]);
    assert(st2.allocated[s] == st0.allocated[s]);
    assert(st0.allocated[s]);
}

} // verus!
