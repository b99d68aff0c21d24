//! Font rendering on top of the tile cache: glyphs are rasterized into
//! dynamic tiles, the tiles are handed to a background map for display, and
//! the handles are then returned to the cache.

use vstd::prelude::*;
use vstd::string::*;
use crate::ResourceError;
use crate::tiled::{RegularMap, TileSetting};
use crate::tiles::TileIndex;
use crate::vram::{DynamicTile, VRamManager};

verus! {

/// One glyph: a byte per pixel (values above the ink threshold are drawn),
/// row-major, with metrics.
pub struct FontLetter {
    pub width: u8,
    pub height: u8,
    pub data: Vec<u8>,
    pub xmin: i8,
    pub ymin: i8,
    pub advance_width: u8,
}

impl FontLetter {
    /// The pixel data covers the glyph's box.
    pub open spec fn wf(&self) -> bool {
        self.data@.len() >= self.width * self.height
    }

    pub fn new(
        width: u8,
        height: u8,
        data: Vec<u8>,
        xmin: i8,
        ymin: i8,
        advance_width: u8,
    ) -> (r: FontLetter)
        ensures
            r.width == width,
            r.height == height,
            r.data == data,
            r.xmin == xmin,
            r.ymin == ymin,
            r.advance_width == advance_width,
    {
        FontLetter { width, height, data, xmin, ymin, advance_width }
    }
}

/// A font: glyphs indexed directly by character code.
pub struct Font {
    letters: Vec<FontLetter>,
}

/// Every handle in the rasterization grid is a live exclusive slot of the
/// cache state `st`.
pub open spec fn grid_wf(tiles: Seq<Vec<DynamicTile>>, st: crate::vram::VramView) -> bool {
    forall|c: int, r: int|
        0 <= c < tiles.len() && 0 <= r < tiles[c]@.len() ==> {
            &&& (#[trigger] tiles[c]@[r]).wf()
            &&& tiles[c]@[r].spec_index() < st.counts.len()
            &&& st.counts[tiles[c]@[r].spec_index() as int].spec_count() > 0
            &&& st.counts[tiles[c]@[r].spec_index() as int].spec_key() is None
        }
}

/// Every handle in the grid is a well-formed exclusive slot of `st` that
/// carries no cache key, so releasing it can only touch keyless records.
pub open spec fn grid_exclusive(tiles: Seq<Vec<DynamicTile>>, st: crate::vram::VramView) -> bool {
    forall|c: int, r: int|
        0 <= c < tiles.len() && 0 <= r < tiles[c]@.len() ==> {
            &&& (#[trigger] tiles[c]@[r]).wf()
            &&& tiles[c]@[r].spec_index() < st.counts.len()
            &&& st.counts[tiles[c]@[r].spec_index() as int].spec_key() is None
        }
}

/// The records of shared (key-carrying) slots are the same in `post` as in
/// `pre`: the content-addressed side of the cache is untouched.
pub open spec fn shared_records_unchanged(
    pre: crate::vram::VramView,
    post: crate::vram::VramView,
) -> bool {
    &&& post.counts.len() >= pre.counts.len()
    &&& (forall|s: int|
        0 <= s < pre.counts.len() && (#[trigger] pre.counts[s]).spec_key() is Some
            ==> post.counts[s] == pre.counts[s])
}

/// The larger of two integers.
pub open spec fn max2(a: int, b: int) -> int {
    if a >= b {
        a
    } else {
        b
    }
}

/// The length of column `c` of the grid, zero if there is no such column.
pub open spec fn col_len(tiles: Seq<Vec<DynamicTile>>, c: int) -> int {
    if 0 <= c < tiles.len() {
        tiles[c]@.len() as int
    } else {
        0
    }
}

impl Font {
    pub closed spec fn spec_letters(&self) -> Seq<FontLetter> {
        self.letters@
    }

    pub open spec fn wf(&self) -> bool {
        forall|i: int| 0 <= i < self.spec_letters().len() ==> (#[trigger] self.spec_letters()[i]).wf()
    }

    pub fn new(letters: Vec<FontLetter>) -> (r: Font)
        ensures
            r.spec_letters() == letters@,
    {
        Font { letters }
    }

    /// The glyph for a character; the font must cover the character's code.
    pub fn letter(&self, letter: char) -> (r: &FontLetter)
        requires
            (letter as int) < self.spec_letters().len(),
        ensures
            *r == self.spec_letters()[letter as int],
    {
        &self.letters[letter as usize]
    }

    /// Renders `text` into dynamic tiles and installs them in `bg` at tile
    /// position `(tile_x, tile_y)`, one map entry per rasterized tile.  Each
    /// tile handle is released back to the cache after its index is stored,
    /// per the consumer contract.  Fails with `ResourceExhausted` if the
    /// tile arena runs out mid-render; rendering is abandoned at that point.
    ///
    /// The shared content-addressed cache map is untouched throughout:
    /// dynamic tiles bypass it.
    pub fn render_text(
        &self,
        tile_x: u16,
        tile_y: u16,
        text: &str,
        foreground_colour: u8,
        background_colour: u8,
        _max_width: i32,
        bg: &mut RegularMap,
        vram_manager: &mut VRamManager,
    ) -> (r: Result<i32, ResourceError>)
        requires
            self.wf(),
            old(bg).wf(),
            old(vram_manager).wf(),
            foreground_colour < 16,
            background_colour < 16,
            text@.len() <= 128,
            forall|i: int|
                0 <= i < text@.len() ==> (#[trigger] text@[i] as int) < self.spec_letters().len(),
            tile_x + 4113 <= u16::MAX,
            tile_y + 33 <= u16::MAX,
        ensures
            final(bg).wf(),
            final(vram_manager).wf(),
            final(vram_manager)@.map == old(vram_manager)@.map,
            shared_records_unchanged(old(vram_manager)@, final(vram_manager)@),
            r is Ok ==> r->Ok_0 == 1,
            r is Err ==> r->Err_0 == ResourceError::ResourceExhausted,
    {
        let mut tiles: Vec<Vec<DynamicTile>> = Vec::new();

        let mut current_x_pos: i32 = 0;
        let current_y_pos: i32 = 0;

        let text_len = text.unicode_len();
        let mut ci: usize = 0;
        while ci < text_len
            invariant
                self.wf(),
                text_len == text@.len(),
                text@.len() <= 128,
                forall|i: int|
                    0 <= i < text@.len() ==> (#[trigger] text@[i] as int)
                        < self.spec_letters().len(),
                ci <= text_len,
                foreground_colour < 16,
                background_colour < 16,
                current_y_pos == 0,
                0 <= current_x_pos <= 255 * ci,
                bg.wf(),
                vram_manager.wf(),
                vram_manager@.map == old(vram_manager)@.map,
                shared_records_unchanged(old(vram_manager)@, vram_manager@),
                grid_wf(tiles@, vram_manager@),
                tiles@.len() <= 4112,
                forall|c: int| 0 <= c < tiles@.len() ==> (#[trigger] tiles@[c])@.len() <= 32,
            decreases text_len - ci,
        {
            let c = text.get_char(ci);
            let letter = self.letter(c);
            proof {
                assert(letter.wf());
            }

            let letter_height = letter.height as i32;
            let letter_width = letter.width as i32;
            let mut letter_y: i32 = 0;
            while letter_y < letter_height
                invariant
                    0 <= letter_y <= letter_height,
                    letter_height == letter.height,
                    letter_width == letter.width,
                    letter.wf(),
                    foreground_colour < 16,
                    background_colour < 16,
                    current_y_pos == 0,
                    0 <= current_x_pos <= 255 * ci,
                    ci < text@.len() <= 128,
                    bg.wf(),
                    vram_manager.wf(),
                    vram_manager@.map == old(vram_manager)@.map,
                    shared_records_unchanged(old(vram_manager)@, vram_manager@),
                    grid_wf(tiles@, vram_manager@),
                    tiles@.len() <= 4112,
                    forall|c2: int| 0 <= c2 < tiles@.len() ==> (#[trigger] tiles@[c2])@.len() <= 32,
                decreases letter_height - letter_y,
            {
                let mut letter_x: i32 = 0;
                while letter_x < letter_width
                    invariant
                        0 <= letter_x <= letter_width,
                        0 <= letter_y < letter_height,
                        letter_height == letter.height,
                        letter_width == letter.width,
                        letter.wf(),
                        foreground_colour < 16,
                        background_colour < 16,
                        current_y_pos == 0,
                        0 <= current_x_pos <= 255 * ci,
                        ci < text@.len() <= 128,
                        bg.wf(),
                        vram_manager.wf(),
                        vram_manager@.map == old(vram_manager)@.map,
                        shared_records_unchanged(old(vram_manager)@, vram_manager@),
                        grid_wf(tiles@, vram_manager@),
                        tiles@.len() <= 4112,
                        forall|c2: int|
                            0 <= c2 < tiles@.len() ==> (#[trigger] tiles@[c2])@.len() <= 32,
                    decreases letter_width - letter_x,
                {
                    let x = current_x_pos + letter_x;
                    let y = current_y_pos + letter_y;

                    proof {
                        assert(0 <= letter_y * letter_width <= 255 * 255) by (nonlinear_arith)
                            requires
                                0 <= letter_y < 256,
                                0 <= letter_width < 256,
                        ;
                        assert(letter_x + letter_y * letter_width < letter_width * letter_height)
                            by (nonlinear_arith)
                            requires
                                0 <= letter_x < letter_width,
                                0 <= letter_y < letter_height,
                        ;
                        assert(letter_width * letter_height == letter.width * letter.height);
                    }
                    let px_index = (letter_x + letter_y * letter_width) as usize;
                    let px = letter.data[px_index];

                    if px > 100 {
                        proof {
                            assert(0 <= x < 32895);
                            assert(0 <= y < 256);
                        }
                        match render_pixel(
                            &mut tiles,
                            vram_manager,
                            x as u16,
                            y as u16,
                            foreground_colour,
                            background_colour,
                        ) {
                            Ok(()) => {},
                            Err(e) => {
                                return Err(e);
                            },
                        }
                    }
                    letter_x = letter_x + 1;
                }
                letter_y = letter_y + 1;
            }

            current_x_pos = current_x_pos + letter.advance_width as i32;
            ci += 1;
        }

        proof {
            assert forall|c: int, r: int|
                0 <= c < tiles@.len() && 0 <= r < tiles@[c]@.len() implies {
                &&& (#[trigger] tiles@[c]@[r]).wf()
                &&& tiles@[c]@[r].spec_index() < vram_manager@.counts.len()
                &&& vram_manager@.counts[tiles@[c]@[r].spec_index() as int].spec_key() is None
            } by {
                assert(grid_wf(tiles@, vram_manager@));
            }
        }

        // Hand the rasterized tiles to the background map, releasing each
        // handle once its index is stored.
        let ghost total_cols = tiles@.len();
        let mut x_idx: usize = 0;
        let cols = tiles.len();
        while x_idx < cols
            invariant
                bg.wf(),
                vram_manager.wf(),
                vram_manager@.map == old(vram_manager)@.map,
                shared_records_unchanged(old(vram_manager)@, vram_manager@),
                grid_exclusive(tiles@, vram_manager@),
                cols == total_cols <= 4112,
                x_idx <= cols,
                tiles@.len() == cols - x_idx,
                forall|c2: int| 0 <= c2 < tiles@.len() ==> (#[trigger] tiles@[c2])@.len() <= 32,
                tile_x + 4113 <= u16::MAX,
                tile_y + 33 <= u16::MAX,
            decreases cols - x_idx,
        {
            let mut x_tiles = tiles.remove(0);
            let ghost col0 = x_tiles@;
            let rows = x_tiles.len();
            let mut y_idx: usize = 0;
            while y_idx < rows
                invariant
                    bg.wf(),
                    vram_manager.wf(),
                    vram_manager@.map == old(vram_manager)@.map,
                    shared_records_unchanged(old(vram_manager)@, vram_manager@),
                    grid_exclusive(tiles@, vram_manager@),
                    rows <= 32,
                    y_idx <= rows,
                    x_tiles@.len() == rows - y_idx,
                    forall|r2: int|
                        0 <= r2 < x_tiles@.len() ==> {
                            &&& (#[trigger] x_tiles@[r2]).wf()
                            &&& x_tiles@[r2].spec_index() < vram_manager@.counts.len()
                            &&& vram_manager@.counts[x_tiles@[r2].spec_index() as int].spec_key()
                                is None
                        },
                    x_idx < cols <= 4112,
                    tile_x + 4113 <= u16::MAX,
                    tile_y + 33 <= u16::MAX,
                decreases rows - y_idx,
            {
                let tile = x_tiles.remove(0);
                let index_raw = tile.tile_index();
                bg.set_tile(
                    tile_x + (x_idx as u16),
                    tile_y + (y_idx as u16),
                    TileIndex::new(index_raw as usize),
                    TileSetting::from_raw(index_raw),
                );
                if vram_manager.reference_count(TileIndex::new(index_raw as usize)) > 0 {
                    vram_manager.remove_dynamic_tile(tile);
                }
                y_idx += 1;
            }
            x_idx += 1;
        }

        Ok(1)
    }
}

/// Draws one foreground pixel at text-space position `(x, y)`: the covering
/// tile is created on demand (filled with the background colour), and the
/// pixel's 4-bit colour is or-ed into its packed data.
fn render_pixel(
    tiles: &mut Vec<Vec<DynamicTile>>,
    vram_manager: &mut VRamManager,
    x: u16,
    y: u16,
    foreground_colour: u8,
    background_colour: u8,
) -> (r: Result<(), ResourceError>)
    requires
        old(vram_manager).wf(),
        grid_wf(old(tiles)@, old(vram_manager)@),
        foreground_colour < 16,
        background_colour < 16,
        x < 32895,
        y < 256,
    ensures
        final(vram_manager).wf(),
        final(vram_manager)@.map == old(vram_manager)@.map,
        shared_records_unchanged(old(vram_manager)@, final(vram_manager)@),
        grid_wf(final(tiles)@, final(vram_manager)@),
        final(tiles)@.len() <= max2(old(tiles)@.len() as int, (x as int) / 8 + 1),
        forall|c: int|
            0 <= c < final(tiles)@.len() ==> (#[trigger] final(tiles)@[c])@.len() <= max2(
                col_len(old(tiles)@, c),
                (y as int) / 8 + 1,
            ),
{
    let ghost t0 = old(tiles)@;
    let tile_x = (x / 8) as usize;
    let tile_y = (y / 8) as usize;
    let inner_x = x % 8;
    let inner_y = y % 8;

    while tiles.len() <= tile_x
        invariant
            tile_x < 4112,
            vram_manager.wf(),
            vram_manager@ == old(vram_manager)@,
            grid_wf(tiles@, vram_manager@),
            t0 == old(tiles)@,
            t0.len() <= tiles@.len(),
            tiles@.len() == t0.len() || tiles@.len() <= tile_x + 1,
            forall|c: int| 0 <= c < t0.len() ==> (#[trigger] tiles@[c]) == t0[c],
            forall|c: int| t0.len() <= c < tiles@.len() ==> (#[trigger] tiles@[c])@.len() == 0,
        decreases tile_x + 1 - tiles@.len(),
    {
        let empty_column: Vec<DynamicTile> = Vec::new();
        tiles.push(empty_column);
    }
    let ghost t1 = tiles@;
    proof {
        assert(t1.len() <= max2(t0.len() as int, tile_x + 1));
        assert(tile_x < t1.len());
    }

    // Make sure the column reaches the target row, creating background-
    // filled tiles on the way.
    let mut column = tiles.remove(tile_x);
    let ghost c0 = column@;
    while column.len() <= tile_y
        invariant
            tile_y < 32,
            tile_x == (x as int) / 8,
            tile_y == (y as int) / 8,
            tile_x < t1.len(),
            tile_x < 4112,
            t0 == old(tiles)@,
            t0.len() <= t1.len(),
            t1.len() <= max2(t0.len() as int, tile_x + 1),
            forall|c: int| 0 <= c < t0.len() ==> (#[trigger] t1[c]) == t0[c],
            forall|c: int| t0.len() <= c < t1.len() ==> (#[trigger] t1[c])@.len() == 0,
            tiles@ == t1.remove(tile_x as int),
            c0 == t1[tile_x as int]@,
            vram_manager.wf(),
            vram_manager@.map == old(vram_manager)@.map,
            shared_records_unchanged(old(vram_manager)@, vram_manager@),
            grid_wf(tiles@, vram_manager@),
            grid_wf(t1, vram_manager@),
            c0.len() <= column@.len(),
            column@.len() == c0.len() || column@.len() <= tile_y + 1,
            forall|r2: int| 0 <= r2 < c0.len() ==> (#[trigger] column@[r2]) == c0[r2],
            forall|r2: int|
                0 <= r2 < column@.len() ==> {
                    &&& (#[trigger] column@[r2]).wf()
                    &&& column@[r2].spec_index() < vram_manager@.counts.len()
                    &&& vram_manager@.counts[column@[r2].spec_index() as int].spec_count() > 0
                    &&& vram_manager@.counts[column@[r2].spec_index() as int].spec_key() is None
                },
            background_colour < 16,
        decreases tile_y + 1 - column@.len(),
    {
        let ghost st_before = vram_manager@;
        let new_tile = match vram_manager.new_dynamic_tile() {
            Ok(t) => t,
            Err(e) => {
                // Put the column back so every live handle stays owned.
                tiles.insert(tile_x, column);
                proof {
                    assert(tiles@ =~= t1.update(tile_x as int, tiles@[tile_x as int]));
                    lemma_grid_update(t1, tiles@, vram_manager@, tile_x as int);
                    assert forall|c: int|
                        0 <= c < tiles@.len() implies (#[trigger] tiles@[c])@.len() <= max2(
                        col_len(t0, c),
                        (y as int) / 8 + 1,
                    ) by {
                        if c == tile_x {
                            assert(column@.len() == c0.len() || column@.len() <= tile_y + 1);
                            if tile_x < t0.len() {
                                assert(t1[c] == t0[c]);
                                assert(c0 == t0[tile_x as int]@);
                            } else {
                                assert(t1[c]@.len() == 0);
                            }
                        } else {
                            assert(tiles@[c] == t1[c]);
                            if c < t0.len() {
                                assert(t1[c] == t0[c]);
                            } else {
                                assert(t1[c]@.len() == 0);
                            }
                        }
                    }
                }
                return Err(e);
            },
        };
        proof {
            // The fresh slot was free, so it is distinct from every slot a
            // live handle holds, and their records survive unchanged.
            let st = vram_manager@;
            let s = crate::slot_alloc::first_free_from(st_before.allocated, 0);
            assert forall|r2: int|
                0 <= r2 < column@.len() implies {
                    &&& (#[trigger] column@[r2]).wf()
                    &&& column@[r2].spec_index() < st.counts.len()
                    &&& st.counts[column@[r2].spec_index() as int].spec_count() > 0
                    &&& st.counts[column@[r2].spec_index() as int].spec_key() is None
                } by {
                let idx = column@[r2].spec_index() as int;
                assert(st_before.counts[idx].spec_count() > 0);
                assert(st_before.allocated[idx]);
                assert(idx != s);
                assert(st.counts[idx] == st_before.counts[idx]);
            }
            assert forall|c: int, r2: int|
                0 <= c < tiles@.len() && 0 <= r2 < tiles@[c]@.len() implies {
                    &&& (#[trigger] tiles@[c]@[r2]).wf()
                    &&& tiles@[c]@[r2].spec_index() < st.counts.len()
                    &&& st.counts[tiles@[c]@[r2].spec_index() as int].spec_count() > 0
                    &&& st.counts[tiles@[c]@[r2].spec_index() as int].spec_key() is None
                } by {
                let idx = tiles@[c]@[r2].spec_index() as int;
                assert(st_before.counts[idx].spec_count() > 0);
                assert(st_before.allocated[idx]);
                assert(idx != s);
                assert(st.counts[idx] == st_before.counts[idx]);
            }
            assert forall|c: int, r2: int|
                0 <= c < t1.len() && 0 <= r2 < t1[c]@.len() implies {
                    &&& (#[trigger] t1[c]@[r2]).wf()
                    &&& t1[c]@[r2].spec_index() < st.counts.len()
                    &&& st.counts[t1[c]@[r2].spec_index() as int].spec_count() > 0
                    &&& st.counts[t1[c]@[r2].spec_index() as int].spec_key() is None
                } by {
                let idx = t1[c]@[r2].spec_index() as int;
                assert(st_before.counts[idx].spec_count() > 0);
                assert(st_before.allocated[idx]);
                assert(idx != s);
                assert(st.counts[idx] == st_before.counts[idx]);
            }
        }
        let new_tile = new_tile.fill_with(background_colour);
        column.push(new_tile);
    }

    let mut tile = column.remove(tile_y);
    let index = (inner_x + inner_y * 8) as usize;
    let byte_index = index / 2;
    let shift = ((index % 2) as u8) * 4;
    let b = tile.tile_data[byte_index];
    tile.tile_data.set(byte_index, b | (foreground_colour << shift));
    column.insert(tile_y, tile);
    tiles.insert(tile_x, column);
    proof {
        assert(tiles@ =~= t1.update(tile_x as int, tiles@[tile_x as int]));
        lemma_grid_update(t1, tiles@, vram_manager@, tile_x as int);
        assert forall|c: int|
            0 <= c < tiles@.len() implies (#[trigger] tiles@[c])@.len() <= max2(
                col_len(t0, c),
                (y as int) / 8 + 1,
            ) by {
            if c == tile_x {
                if tile_x < t0.len() {
                    assert(t1[c] == t0[c]);
                    assert(c0 == t0[tile_x as int]@);
                } else {
                    assert(t1[c]@.len() == 0);
                }
            } else {
                assert(tiles@[c] == t1[c]);
                if c < t0.len() {
                    assert(t1[c] == t0[c]);
                } else {
                    assert(t1[c]@.len() == 0);
                }
            }
        }
    }

    Ok(())
}

/// Replacing one column of a well-formed grid with a column of live handles
/// keeps the grid well-formed.
proof fn lemma_grid_update(
    t1: Seq<Vec<DynamicTile>>,
    t2: Seq<Vec<DynamicTile>>,
    st: crate::vram::VramView,
    cx: int,
)
    requires
        grid_wf(t1, st),
        0 <= cx < t1.len(),
        t2.len() == t1.len(),
        forall|c: int| 0 <= c < t1.len() && c != cx ==> (#[trigger] t2[c]) == t1[c],
        forall|r: int|
            0 <= r < t2[cx]@.len() ==> {
                &&& (#[trigger] t2[cx]@[r]).wf()
                &&& t2[cx]@[r].spec_index() < st.counts.len()
                &&& st.counts[t2[cx]@[r].spec_index() as int].spec_count() > 0
                &&& st.counts[t2[cx]@[r].spec_index() as int].spec_key() is None
            },
    ensures
        grid_wf(t2, st),
{
    assert forall|c: int, r: int|
        0 <= c < t2.len() && 0 <= r < t2[c]@.len() implies {
            &&& (#[trigger] t2[c]@[r]).wf()
            &&& t2[c]@[r].spec_index() < st.counts.len()
            &&& st.counts[t2[c]@[r].spec_index() as int].spec_count() > 0
            &&& st.counts[t2[c]@[r].spec_index() as int].spec_key() is None
        } by {
        if c != cx {
            assert(t2[c] == t1[c]);
            assert(t1[c]@[r].wf());
        }
    }
}

} // verus!
