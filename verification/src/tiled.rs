//! Regular tiled backgrounds: the background sizes the hardware offers, the
//! packed tile entries its map memory stores, and a background map that
//! holds such entries for display lookup.

use vstd::prelude::*;
use crate::tiles::TileIndex;

verus! {

/// The sizes, in tiles, a regular background can have.
#[derive(Clone, Copy, Debug, PartialEq, Eq, Structural)]
pub enum RegularBackgroundSize {
    Background32x32,
    Background64x32,
    Background32x64,
    Background64x64,
}

/// The sizes, in pixels, of the square tile groups the asset pipeline can
/// emit: one hardware tile, or a 2x2 or 4x4 block of them.
#[derive(Clone, Copy, Debug)]
pub enum TileSize {
    Tile8,
    Tile16,
    Tile32,
}

impl TileSize {
    pub fn to_size(self) -> (r: usize)
        ensures
            r == match self {
                TileSize::Tile8 => 8int,
                TileSize::Tile16 => 16int,
                TileSize::Tile32 => 32int,
            },
    {
        match self {
            TileSize::Tile8 => 8,
            TileSize::Tile16 => 16,
            TileSize::Tile32 => 32,
        }
    }
}

impl RegularBackgroundSize {
    pub open spec fn spec_width(self) -> int {
        match self {
            RegularBackgroundSize::Background32x32 => 32,
            RegularBackgroundSize::Background64x32 => 64,
            RegularBackgroundSize::Background32x64 => 32,
            RegularBackgroundSize::Background64x64 => 64,
        }
    }

    pub open spec fn spec_height(self) -> int {
        match self {
            RegularBackgroundSize::Background32x32 => 32,
            RegularBackgroundSize::Background64x32 => 32,
            RegularBackgroundSize::Background32x64 => 64,
            RegularBackgroundSize::Background64x64 => 64,
        }
    }

    pub fn width(&self) -> (r: u32)
        ensures
            r == self.spec_width(),
    {
        match self {
            RegularBackgroundSize::Background32x32 => 32,
            RegularBackgroundSize::Background64x32 => 64,
            RegularBackgroundSize::Background32x64 => 32,
            RegularBackgroundSize::Background64x64 => 64,
        }
    }

    pub fn height(&self) -> (r: u32)
        ensures
            r == self.spec_height(),
    {
        match self {
            RegularBackgroundSize::Background32x32 => 32,
            RegularBackgroundSize::Background64x32 => 32,
            RegularBackgroundSize::Background32x64 => 64,
            RegularBackgroundSize::Background64x64 => 64,
        }
    }

    /// The two-bit size field of the hardware background control register.
    pub fn size_flag(&self) -> (r: u16)
        ensures
            r == match *self {
                RegularBackgroundSize::Background32x32 => 0int,
                RegularBackgroundSize::Background64x32 => 1int,
                RegularBackgroundSize::Background32x64 => 2int,
                RegularBackgroundSize::Background64x64 => 3int,
            },
    {
        match self {
            RegularBackgroundSize::Background32x32 => 0,
            RegularBackgroundSize::Background64x32 => 1,
            RegularBackgroundSize::Background32x64 => 2,
            RegularBackgroundSize::Background64x64 => 3,
        }
    }

    pub open spec fn spec_num_tiles(self) -> int {
        self.spec_width() * self.spec_height()
    }

    pub fn num_tiles(&self) -> (r: usize)
        ensures
            r == self.spec_num_tiles(),
    {
        (self.width() * self.height()) as usize
    }

    /// How many 32x32-tile screen blocks the background spans.
    pub fn num_screen_blocks(&self) -> (r: usize)
        ensures
            r == self.spec_num_tiles() / (32int * 32int),
    {
        self.num_tiles() / (32 * 32)
    }

    /// Where the entry for tile position `(x, y)` sits in background map
    /// memory.  Positions wrap at the background's edges; within the
    /// background, memory is laid out as 32x32-tile screen blocks, row-major
    /// within a block and blocks row-major in turn.
    pub open spec fn spec_gba_offset(self, x: u16, y: u16) -> int {
        let xm = (x as int) % self.spec_width();
        let ym = (y as int) % self.spec_height();
        (xm / 32 + (ym / 32) * (self.spec_width() / 32)) * (32 * 32) + (xm % 32) + 32 * (ym % 32)
    }

    pub fn gba_offset(&self, x: u16, y: u16) -> (r: usize)
        ensures
            r == self.spec_gba_offset(x, y),
            r < self.spec_num_tiles(),
    {
        let width = self.width() as u16;
        let height = self.height() as u16;
        let x_mod = x & (width - 1);
        let y_mod = y & (height - 1);
        proof {
            assert(width == 32 || width == 64);
            assert(x & 31u16 == x % 32u16) by (bit_vector);
            assert(x & 63u16 == x % 64u16) by (bit_vector);
            assert(y & 31u16 == y % 32u16) by (bit_vector);
            assert(y & 63u16 == y % 64u16) by (bit_vector);
            assert(x_mod < width);
            assert(y_mod < height);
            assert(((y_mod as usize) / 32) * ((width as usize) / 32) <= 2) by (nonlinear_arith)
                requires
                    (y_mod as usize) / 32 <= 1,
                    (width as usize) / 32 <= 2,
            ;
        }

        let screenblock: usize = (x_mod as usize) / 32 + ((y_mod as usize) / 32) * ((
        width as usize) / 32);
        proof {
            assert((x_mod as usize) / 32 <= 1);
            assert(screenblock <= 3);
        }
        let block_base: usize = screenblock * 1024;
        let inner: usize = (x_mod as usize) % 32 + 32 * ((y_mod as usize) % 32);
        let pos: usize = block_base + inner;
        proof {
            let w = self.spec_width();
            let h = self.spec_height();
            let xm = (x as int) % w;
            let ym = (y as int) % h;
            assert(x_mod == xm);
            assert(y_mod == ym);
            assert(width == w);
            assert(((y_mod as usize) / 32) * ((width as usize) / 32) == (ym / 32) * (w / 32));
            assert(screenblock == xm / 32 + (ym / 32) * (w / 32));
            assert(pos == (xm / 32 + (ym / 32) * (w / 32)) * (32 * 32) + (xm % 32) + 32 * (ym
                % 32)) by (nonlinear_arith)
                requires
                    pos == block_base + inner,
                    block_base == screenblock * 1024,
                    screenblock == xm / 32 + (ym / 32) * (w / 32),
                    inner == (xm % 32) + 32 * (ym % 32),
            ;
            if w == 32 && h == 32 {
                assert((ym / 32) * (w / 32) == 0) by (nonlinear_arith)
                    requires
                        ym / 32 == 0,
                ;
                assert(pos < 1024);
            } else if w == 64 && h == 64 {
                assert(pos < 4096);
            } else if w == 64 {
                assert(ym / 32 == 0);
                assert((ym / 32) * (w / 32) == 0) by (nonlinear_arith)
                    requires
                        ym / 32 == 0,
                ;
                assert(pos < 2048);
            } else {
                assert(w / 32 == 1);
                assert((ym / 32) * (w / 32) == ym / 32) by (nonlinear_arith)
                    requires
                        w / 32 == 1,
                ;
                assert(pos < 2048);
            }
        }
        pos
    }

    /// The horizontal tile position `x` lands on, wrapping at the
    /// background's width.
    pub fn tile_pos_x(&self, x: i32) -> (r: u16)
        ensures
            r == (x as int) % self.spec_width(),
    {
        floor_rem(x, self.width())
    }

    /// The vertical tile position `y` lands on, wrapping at the
    /// background's height.
    pub fn tile_pos_y(&self, y: i32) -> (r: u16)
        ensures
            r == (y as int) % self.spec_height(),
    {
        floor_rem(y, self.height())
    }

    /// The hardware scroll offset for a horizontal pixel position, wrapping
    /// at the background's width in pixels.
    pub fn px_offset_x(&self, x: i32) -> (r: u16)
        ensures
            r == (x as int) % (self.spec_width() * 8),
    {
        floor_rem(x, self.width() * 8)
    }

    /// The hardware scroll offset for a vertical pixel position, wrapping
    /// at the background's height in pixels.
    pub fn px_offset_y(&self, y: i32) -> (r: u16)
        ensures
            r == (y as int) % (self.spec_height() * 8),
    {
        floor_rem(y, self.height() * 8)
    }
}

/// The remainder of Euclidean division of `x` by `w`: the unique `r` in
/// `0 <= r < w` with `x = w * q + r`, which is how positions wrap around a
/// background edge.
fn floor_rem(x: i32, w: u32) -> (r: u16)
    requires
        0 < w <= 0x8000,
    ensures
        r == (x as int) % (w as int),
{
    if x >= 0 {
        let r = (x as u32) % w;
        r as u16
    } else {
        let n = (-(x as i64)) as u64;
        let rem = (n % (w as u64)) as u32;
        proof {
            let xi = x as int;
            let wi = w as int;
            let ni = n as int;
            vstd::arithmetic::div_mod::lemma_fundamental_div_mod(ni, wi);
            assert((-(ni / wi)) * wi == -(wi * (ni / wi))) by (nonlinear_arith);
            assert((-(ni / wi) - 1) * wi == -(wi * (ni / wi)) - wi) by (nonlinear_arith);
            if ni % wi == 0 {
                vstd::arithmetic::div_mod::lemma_fundamental_div_mod_converse(
                    xi,
                    wi,
                    -(ni / wi),
                    0,
                );
            } else {
                vstd::arithmetic::div_mod::lemma_fundamental_div_mod_converse(
                    xi,
                    wi,
                    -(ni / wi) - 1,
                    wi - ni % wi,
                );
            }
        }
        if rem == 0 {
            0
        } else {
            (w - rem) as u16
        }
    }
}

/// One entry of background map memory: a slot index in the low ten bits,
/// flip flags and a palette number above it.
#[derive(Clone, Copy, Debug, PartialEq, Eq, Structural)]
pub struct Tile(pub u16);

impl Tile {
    pub fn new(idx: TileIndex, setting: TileSetting) -> (r: Tile)
        ensures
            r.0 == (idx.0 | (setting.0 & 0xFC00)),
    {
        Tile(idx.index() | setting.setting())
    }

    pub fn tile_index(self) -> (r: TileIndex)
        ensures
            r.0 == (self.0 & 0x3FF),
    {
        let raw = self.0;
        let masked = raw & 0x3FF;
        proof {
            assert(raw & 0x3FF < 0x1_0000) by (bit_vector);
        }
        TileIndex::new(masked as usize)
    }
}

/// How one tile should be displayed: which tile of a set, whether to flip
/// it, and which palette colours it.  Packed exactly as map memory wants it.
#[derive(Clone, Copy, Debug)]
pub struct TileSetting(pub u16);

impl TileSetting {
    pub fn new(tile_id: u16, hflip: bool, vflip: bool, palette_id: u8) -> (r: TileSetting)
        ensures
            r.0 == ((tile_id & 0x3FF) | ((if hflip {
                1u16
            } else {
                0u16
            }) << 10) | ((if vflip {
                1u16
            } else {
                0u16
            }) << 11) | ((palette_id as u16) << 12)),
    {
        TileSetting(
            (tile_id & 0x3FF) | ((if hflip {
                1u16
            } else {
                0u16
            }) << 10) | ((if vflip {
                1u16
            } else {
                0u16
            }) << 11) | ((palette_id as u16) << 12),
        )
    }

    pub fn from_raw(raw: u16) -> (r: TileSetting)
        ensures
            r.0 == raw,
    {
        TileSetting(raw)
    }

    /// The tile number in the low ten bits.
    pub fn index(self) -> (r: u16)
        ensures
            r == (self.0 & 0x3FF),
    {
        self.0 & 0x3FF
    }

    /// The flag bits above the tile number.
    pub fn setting(self) -> (r: u16)
        ensures
            r == (self.0 & 0xFC00),
    {
        self.0 & 0xFC00
    }
}

/// A regular background map: the tile entries the hardware reads, indexed by
/// the screen-block layout of `gba_offset`.  Entries are opaque handles into
/// the tile arena; taking and releasing arena references stays with the
/// caller, which must release each index exactly once after overwriting it.
pub struct RegularMap {
    size: RegularBackgroundSize,
    tiles: Vec<u16>,
}

impl RegularMap {
    pub closed spec fn spec_size(&self) -> RegularBackgroundSize {
        self.size
    }

    pub closed spec fn view(&self) -> Seq<u16> {
        self.tiles@
    }

    pub open spec fn wf(&self) -> bool {
        self@.len() == self.spec_size().spec_num_tiles()
    }

    pub fn new(size: RegularBackgroundSize) -> (r: RegularMap)
        ensures
            r.wf(),
            r.spec_size() == size,
            forall|i: int| 0 <= i < r@.len() ==> (#[trigger] r@[i]) == 0,
    {
        let count = size.num_tiles();
        let mut tiles: Vec<u16> = Vec::new();
        let mut i: usize = 0;
        while i < count
            invariant
                i <= count,
                tiles@.len() == i,
                forall|j: int| 0 <= j < i ==> (#[trigger] tiles@[j]) == 0,
            decreases count - i,
        {
            tiles.push(0);
            i += 1;
        }
        RegularMap { size, tiles }
    }

    pub fn size(&self) -> (r: RegularBackgroundSize)
        ensures
            r == self.spec_size(),
    {
        self.size
    }

    /// Stores the map entry for tile position `(x, y)`: the given arena slot
    /// index combined with the setting's flag bits.
    pub fn set_tile(&mut self, x: u16, y: u16, index: TileIndex, setting: TileSetting)
        requires
            old(self).wf(),
        ensures
            final(self).wf(),
            final(self).spec_size() == old(self).spec_size(),
            final(self)@ == old(self)@.update(
                old(self).spec_size().spec_gba_offset(x, y),
                (index.0 | (setting.0 & 0xFC00)) as u16,
            ),
    {
        let offset = self.size.gba_offset(x, y);
        let tile = Tile::new(index, setting);
        self.tiles.set(offset, tile.0);
    }

    /// The map entry at tile position `(x, y)`.
    pub fn tile_at(&self, x: u16, y: u16) -> (r: u16)
        requires
            self.wf(),
        ensures
            r == self@[self.spec_size().spec_gba_offset(x, y)],
    {
        let offset = self.size.gba_offset(x, y);
        self.tiles[offset]
    }
}

} // verus!
