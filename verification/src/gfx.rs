//! Sprites: texture sub-regions used as drawable units, and parallax
//! sprites, which tile a sprite horizontally with a time-driven scroll
//! phase.

use vstd::prelude::*;
use vstd::arithmetic::div_mod::{
    lemma_add_mod_noop, lemma_add_mod_noop_right, lemma_div_is_ordered, lemma_div_by_multiple,
    lemma_div_pos_is_pos, lemma_fundamental_div_mod, lemma_fundamental_div_mod_converse,
    lemma_mod_add_multiples_vanish, lemma_mod_bound, lemma_multiply_divide_lt,
    lemma_sub_mod_noop_right,
};
use vstd::arithmetic::mul::{
    lemma_mul_inequality, lemma_mul_is_commutative, lemma_mul_is_distributive_add,
    lemma_mul_is_distributive_add_other_way, lemma_mul_nonnegative, lemma_mul_unary_negation,
    lemma_mul_upper_bound,
};

use crate::geom::Rectangle;
use crate::render::{DrawCmd, Frame, TextureHandle};

verus! {

/// A drawable unit: a handle to a decoded image together with the
/// sub-rectangle of it to draw. Many sprites may share one image; a sprite
/// derived from another always shows a portion of what its parent showed.
#[derive(Clone, Copy, Debug)]
pub struct Sprite {
    pub tex: TextureHandle,
    pub src: Rectangle,
}

impl Sprite {
    /// Well-formedness: the source rectangle lies within the texture.
    pub open spec fn wf(self) -> bool {
        &&& self.tex.wf()
        &&& self.src.wf()
        &&& 0 <= self.src.x
        &&& self.src.x + self.src.w <= self.tex.w
        &&& 0 <= self.src.y
        &&& self.src.y + self.src.h <= self.tex.h
    }

    /// The source region expressed in the sprite's own coordinates: origin
    /// at the source rectangle's top-left corner.
    pub open spec fn local_bounds(self) -> Rectangle {
        Rectangle { x: 0, y: 0, w: self.src.w, h: self.src.h }
    }

    /// The outcome of [`Sprite::region`]: a rectangle in the sprite's own
    /// coordinates yields a sprite for the corresponding part of the source
    /// region, and anything not well formed and fully inside fails.
    pub open spec fn spec_region(self, rect: Rectangle) -> Option<Sprite> {
        if rect.wf() && self.local_bounds().spec_contains(rect) {
            Some(Sprite {
                tex: self.tex,
                src: Rectangle {
                    x: (self.src.x + rect.x) as i32,
                    y: (self.src.y + rect.y) as i32,
                    w: rect.w,
                    h: rect.h,
                },
            })
        } else {
            None
        }
    }

    /// Wraps a whole decoded image: the source region covers all of it.
    pub fn new(texture: TextureHandle) -> (s: Sprite)
        requires
            texture.wf(),
        ensures
            s.wf(),
            s.tex == texture,
            s.src == (Rectangle { x: 0, y: 0, w: texture.w, h: texture.h }),
    {
        Sprite { tex: texture, src: Rectangle { x: 0, y: 0, w: texture.w, h: texture.h } }
    }

    /// Derives the sprite showing the part of this sprite covered by `rect`,
    /// interpreted relative to this sprite's origin. Fails, rather than
    /// producing an invalid sprite, whenever `rect` is not well formed and
    /// fully inside the current source region.
    pub fn region(&self, rect: Rectangle) -> (r: Option<Sprite>)
        requires
            self.wf(),
        ensures
            r == self.spec_region(rect),
            r matches Some(s) ==> s.wf() && s.tex == self.tex,
    {
        if rect.w >= 0 && rect.h >= 0 && 0 <= rect.x && 0 <= rect.y
            && (rect.x as i64) + (rect.w as i64) <= (self.src.w as i64)
            && (rect.y as i64) + (rect.h as i64) <= (self.src.h as i64)
        {
            Some(Sprite {
                tex: self.tex,
                src: Rectangle {
                    x: self.src.x + rect.x,
                    y: self.src.y + rect.y,
                    w: rect.w,
                    h: rect.h,
                },
            })
        } else {
            None
        }
    }

    /// Splits this sprite into a grid of `rows` by `cols` equal cells, row
    /// by row: cell `i` is the region at column `i % cols` and row
    /// `i / cols`. Cell extents are rounded down, so remainder pixels on
    /// the right and bottom edges go unused.
    pub fn grid(&self, cols: i32, rows: i32) -> (r: Vec<Sprite>)
        requires
            self.wf(),
            1 <= cols,
            1 <= rows,
            rows * cols <= usize::MAX,
        ensures
            r@.len() == rows * cols,
            forall|i: int| 0 <= i < r@.len() ==> self.spec_region(Rectangle {
                x: (self.src.w as int / cols as int * (i % (cols as int))) as i32,
                y: (self.src.h as int / rows as int * (i / (cols as int))) as i32,
                w: (self.src.w as int / cols as int) as i32,
                h: (self.src.h as int / rows as int) as i32,
            }) == Some(#[trigger] r@[i]),
    {
        let cell_w: i32 = (((self.src.w as u64) / (cols as u64)) as i32);
        let cell_h: i32 = (((self.src.h as u64) / (rows as u64)) as i32);
        let cols_n: usize = cols as usize;
        let total: usize = (rows as usize) * cols_n;
        let mut cells: Vec<Sprite> = Vec::new();
        let mut i: usize = 0;
        while i < total
            invariant
                self.wf(),
                1 <= cols,
                1 <= rows,
                total == rows * cols,
                cols_n == cols,
                cell_w == self.src.w as int / cols as int,
                cell_h == self.src.h as int / rows as int,
                i <= total,
                cells@.len() == i,
                forall|j: int| 0 <= j < i ==> self.spec_region(Rectangle {
                    x: (self.src.w as int / cols as int * (j % (cols as int))) as i32,
                    y: (self.src.h as int / rows as int * (j / (cols as int))) as i32,
                    w: (self.src.w as int / cols as int) as i32,
                    h: (self.src.h as int / rows as int) as i32,
                }) == Some(#[trigger] cells@[j]),
            decreases total - i,
        {
            let col: usize = i % cols_n;
            let row: usize = i / cols_n;
            proof {
                lemma_mod_bound(i as int, cols as int);
                lemma_mul_is_commutative(rows as int, cols as int);
                lemma_multiply_divide_lt(i as int, cols as int, rows as int);
                // The cell lies inside the sheet: `cell_w * cols` rounds
                // down to at most the source width, and likewise for rows.
                lemma_fundamental_div_mod(self.src.w as int, cols as int);
                lemma_mul_inequality(col + 1, cols as int, cell_w as int);
                lemma_mul_nonnegative(cell_w as int, col as int);
                lemma_mul_is_distributive_add_other_way(cell_w as int, col as int, 1);
                lemma_fundamental_div_mod(self.src.h as int, rows as int);
                lemma_mul_inequality(row + 1, rows as int, cell_h as int);
                lemma_mul_nonnegative(cell_h as int, row as int);
                lemma_mul_is_distributive_add_other_way(cell_h as int, row as int, 1);
            }
            let cell_x: i32 = (((cell_w as i64) * (col as i64)) as i32);
            let cell_y: i32 = (((cell_h as i64) * (row as i64)) as i32);
            let cell = self.region(Rectangle { x: cell_x, y: cell_y, w: cell_w, h: cell_h });
            cells.push(cell.unwrap());
            i += 1;
        }
        cells
    }

    /// The dimensions of the source region (which may be smaller than those
    /// of the underlying image).
    pub fn size(&self) -> (r: (i32, i32))
        ensures
            r.0 == self.src.w,
            r.1 == self.src.h,
    {
        (self.src.w, self.src.h)
    }

    /// Records a draw of this sprite's source region, scaled to fill `dest`.
    pub fn render(&self, frame: &mut Frame, dest: Rectangle)
        ensures
            final(frame).out_w() == old(frame).out_w(),
            final(frame).out_h() == old(frame).out_h(),
            final(frame).cmds() == old(frame).cmds().push(DrawCmd::Copy {
                tex: self.tex.id,
                src: self.src,
                dest,
            }),
    {
        frame.copy(self.tex.id, self.src, dest);
    }
}

/// Deriving a region never succeeds with a rectangle that is not fully
/// inside the source, and deriving with the full current source region
/// succeeds and keeps the source dimensions.
pub proof fn lemma_region_full(s: Sprite)
    requires
        s.wf(),
    ensures
        forall|rect: Rectangle| !(rect.wf() && s.local_bounds().spec_contains(rect))
            ==> #[trigger] s.spec_region(rect) is None,
        s.spec_region(s.local_bounds()) matches Some(q) && q.src.w == s.src.w && q.src.h == s.src.h,
{
}

/// The scroll phase, measured in thousandths of a source pixel, after
/// advancing for `e` milliseconds at `v` source pixels per second across a
/// sprite `w` source pixels wide: the advance is exactly `v * e` thousandths
/// of a pixel, wrapped into `[0, w * 1000)`.
pub open spec fn advance_phase(p: int, v: int, e: int, w: int) -> int {
    (p + v * e) % (w * 1000)
}

/// Screen-space width of one tile: the source width scaled by
/// `dest_h / src.h`, rounded down.
pub open spec fn spec_tile_w(src: Rectangle, dest_h: int) -> int {
    src.w * dest_h / (src.h as int)
}

/// Screen-space scroll offset: the whole-pixel part of the phase, scaled by
/// `dest_h / src.h`, rounded down.
pub open spec fn spec_offset(phase_mpx: int, src: Rectangle, dest_h: int) -> int {
    (phase_mpx / 1000) * dest_h / (src.h as int)
}

/// How many tiles of width `tile_w`, laid end to end from `-offset`
/// rightwards, it takes for the tiled region's right edge to reach `dest_w`.
pub open spec fn spec_tile_count(offset: int, tile_w: int, dest_w: int) -> int {
    if dest_w + offset > 0 {
        (dest_w + offset + tile_w - 1) / tile_w
    } else {
        0
    }
}

/// The `k`-th tile of a parallax render: the whole source region, scaled to
/// tile width and destination height, at horizontal position
/// `k * tile_w - offset`.
pub open spec fn spec_tile(
    tex: u64,
    src: Rectangle,
    offset: int,
    tile_w: int,
    dest_h: int,
    k: int,
) -> DrawCmd {
    DrawCmd::Copy {
        tex,
        src,
        dest: Rectangle {
            x: (k * tile_w - offset) as i32,
            y: 0,
            w: tile_w as i32,
            h: dest_h as i32,
        },
    }
}

/// Every tile drawn by one parallax render, left to right: enough copies to
/// cover the destination width seamlessly whatever the scroll offset.
pub open spec fn spec_tiles(
    tex: u64,
    src: Rectangle,
    offset: int,
    tile_w: int,
    dest_w: int,
    dest_h: int,
) -> Seq<DrawCmd> {
    Seq::new(
        spec_tile_count(offset, tile_w, dest_w) as nat,
        |k: int| spec_tile(tex, src, offset, tile_w, dest_h, k),
    )
}

/// The destination width a parallax render covers: the given rectangle's, or
/// the whole output surface's.
pub open spec fn spec_dest_w(dest: Option<Rectangle>, frame: Frame) -> int {
    match dest {
        Some(d) => d.w as int,
        None => frame.out_w() as int,
    }
}

/// The destination height a parallax render scales to: the given
/// rectangle's, or the whole output surface's.
pub open spec fn spec_dest_h(dest: Option<Rectangle>, frame: Frame) -> int {
    match dest {
        Some(d) => d.h as int,
        None => frame.out_h() as int,
    }
}

/// A sprite scrolling horizontally at a fixed velocity. The scroll phase is
/// kept in thousandths of a source pixel so that velocity by elapsed
/// milliseconds advances it exactly; it lives in source-image space, so
/// resizing the destination changes scroll speed on screen but never in
/// image space.
#[derive(Clone, Copy, Debug)]
pub struct ParallaxSprite {
    sprite: Sprite,
    vel: i32,
    phase_mpx: u64,
}

impl ParallaxSprite {
    /// The sprite tiled across the destination.
    pub closed spec fn sprite(self) -> Sprite {
        self.sprite
    }

    /// Scroll velocity in source pixels per second; positive scrolls the
    /// image leftwards.
    pub closed spec fn vel(self) -> i32 {
        self.vel
    }

    /// Scroll phase in thousandths of a source pixel, always in
    /// `[0, src.w * 1000)`.
    pub closed spec fn phase_mpx(self) -> u64 {
        self.phase_mpx
    }

    /// Well-formedness: a well-formed sprite with positive extents and a
    /// phase wrapped within the source width.
    pub open spec fn wf(self) -> bool {
        &&& self.sprite().wf()
        &&& self.sprite().src.w > 0
        &&& self.sprite().src.h > 0
        &&& self.phase_mpx() < self.sprite().src.w * 1000
    }

    /// Wraps a whole decoded image as a scrolling layer with phase zero.
    pub fn new(texture: TextureHandle, vel: i32) -> (p: ParallaxSprite)
        requires
            texture.wf(),
            texture.w > 0,
            texture.h > 0,
        ensures
            p.wf(),
            p.sprite().tex == texture,
            p.sprite().src == (Rectangle { x: 0, y: 0, w: texture.w, h: texture.h }),
            p.vel() == vel,
            p.phase_mpx() == 0,
    {
        ParallaxSprite { sprite: Sprite::new(texture), vel, phase_mpx: 0 }
    }

    /// The sprite tiled across the destination.
    pub fn sprite_ref(&self) -> (s: &Sprite)
        ensures
            *s == self.sprite(),
    {
        &self.sprite
    }

    /// The current scroll phase in thousandths of a source pixel.
    pub fn current_phase(&self) -> (p: u64)
        ensures
            p == self.phase_mpx(),
    {
        self.phase_mpx
    }

    /// Advances the scroll phase for `elapsed_ms` milliseconds at the
    /// layer's velocity: exactly `vel * elapsed_ms` thousandths of a source
    /// pixel, wrapped into `[0, src.w * 1000)`. The phase depends on time,
    /// velocity and the source width alone — never on any destination — so
    /// this holds for every layer, with no rendering side conditions.
    pub fn advance(&mut self, elapsed_ms: u64)
        requires
            old(self).wf(),
        ensures
            final(self).wf(),
            final(self).sprite() == old(self).sprite(),
            final(self).vel() == old(self).vel(),
            final(self).phase_mpx() == advance_phase(
                old(self).phase_mpx() as int,
                old(self).vel() as int,
                elapsed_ms as int,
                old(self).sprite().src.w as int,
            ),
    {
        let w: i32 = self.sprite.src.w;
        let m: u64 = (w as u64) * 1000;

        // Work with the velocity's magnitude so the wrap stays in unsigned
        // arithmetic: a negative velocity subtracts its reduced advance.
        let av: u64 = if self.vel >= 0 {
            self.vel as u64
        } else {
            (-(self.vel as i64)) as u64
        };
        proof {
            lemma_mul_upper_bound(av as int, 0x1_0000_0000int, elapsed_ms as int, u64::MAX as int);
        }
        let au: u64 = (((av as u128) * (elapsed_ms as u128)) % (m as u128)) as u64;
        let p1: u64 = if self.vel >= 0 {
            (self.phase_mpx + au) % m
        } else {
            (self.phase_mpx + (m - au)) % m
        };
        proof {
            let p = self.phase_mpx as int;
            let v = self.vel as int;
            let e = elapsed_ms as int;
            let mi = m as int;
            let a = av as int;
            assert(au == (a * e) % mi);
            if self.vel >= 0 {
                lemma_add_mod_noop_right(p, a * e, mi);
                assert(p1 == advance_phase(p, v, e, w as int));
            } else {
                lemma_mul_unary_negation(a, e);
                assert(v * e == -(a * e));
                lemma_mod_add_multiples_vanish(p - au, mi);
                lemma_sub_mod_noop_right(p, a * e, mi);
                assert(p1 == advance_phase(p, v, e, w as int));
            }
            lemma_mod_bound(p + v * e, mi);
        }
        self.phase_mpx = p1;
    }

    /// One scrolling render: advances the phase by `elapsed_ms` at the
    /// layer's velocity exactly as [`ParallaxSprite::advance`] does, then
    /// tiles the sprite rightwards from `-offset` until the destination
    /// width is covered, each tile scaled by `dest height / source height`.
    ///
    /// The two arithmetic side conditions are forced by the machine: a tile
    /// must be at least one pixel wide for the tiling to make progress, and
    /// every tile position must be representable in pixel coordinates.
    pub fn render(&mut self, frame: &mut Frame, dest: Option<Rectangle>, elapsed_ms: u64)
        requires
            old(self).wf(),
            old(frame).wf(),
            (dest matches Some(d) ==> d.wf()),
            spec_tile_w(old(self).sprite().src, spec_dest_h(dest, *old(frame))) >= 1,
            spec_dest_w(dest, *old(frame))
                + spec_tile_w(old(self).sprite().src, spec_dest_h(dest, *old(frame)))
                <= i32::MAX,
        ensures
            final(self).wf(),
            final(self).sprite() == old(self).sprite(),
            final(self).vel() == old(self).vel(),
            final(self).phase_mpx() == advance_phase(
                old(self).phase_mpx() as int,
                old(self).vel() as int,
                elapsed_ms as int,
                old(self).sprite().src.w as int,
            ),
            final(frame).out_w() == old(frame).out_w(),
            final(frame).out_h() == old(frame).out_h(),
            final(frame).cmds() == old(frame).cmds() + spec_tiles(
                old(self).sprite().tex.id,
                old(self).sprite().src,
                spec_offset(
                    final(self).phase_mpx() as int,
                    old(self).sprite().src,
                    spec_dest_h(dest, *old(frame)),
                ),
                spec_tile_w(old(self).sprite().src, spec_dest_h(dest, *old(frame))),
                spec_dest_w(dest, *old(frame)),
                spec_dest_h(dest, *old(frame)),
            ),
    {
        self.advance(elapsed_ms);
        let w: i32 = self.sprite.src.w;
        let h: i32 = self.sprite.src.h;
        let p1: u64 = self.phase_mpx;

        let (dw, dh): (i32, i32) = match dest {
            Some(d) => (d.w, d.h),
            None => frame.output_size(),
        };

        // Screen-space geometry: tile width and scroll offset, both scaled
        // by `dh / h` and rounded down.
        let phase_px: u64 = p1 / 1000;
        proof {
            // The phase stays below one source width.
            assert(phase_px <= w - 1) by {
                lemma_fundamental_div_mod_converse((w as int) * 1000 - 1, 1000, w - 1, 999);
                lemma_div_is_ordered(p1 as int, (w as int) * 1000 - 1, 1000);
            };
            lemma_mul_upper_bound(w as int, i32::MAX as int, dh as int, i32::MAX as int);
            lemma_mul_upper_bound(phase_px as int, i32::MAX as int, dh as int, i32::MAX as int);
        }
        let tile_w64: u64 = ((w as u64) * (dh as u64)) / (h as u64);
        let offset64: u64 = (phase_px * (dh as u64)) / (h as u64);
        proof {
            // A bounded phase keeps the offset within one tile width.
            lemma_mul_inequality(phase_px as int, w - 1, dh as int);
            lemma_mul_inequality(w - 1, w as int, dh as int);
            lemma_div_is_ordered((phase_px as int) * (dh as int), (w as int) * (dh as int), h as int);
            assert(offset64 <= tile_w64);
            assert(tile_w64 == spec_tile_w(self.sprite.src, dh as int));
            assert(offset64 == spec_offset(p1 as int, self.sprite.src, dh as int));
        }

        let dw64: i64 = dw as i64;
        let tw: i64 = tile_w64 as i64;
        let off: i64 = offset64 as i64;
        let ghost tex_id = self.sprite.tex.id;
        let ghost srcr = self.sprite.src;
        let ghost tiles = spec_tiles(tex_id, srcr, off as int, tw as int, dw as int, dh as int);
        let ghost count = spec_tile_count(off as int, tw as int, dw as int);
        proof {
            if dw64 + off > 0 {
                lemma_div_pos_is_pos(dw64 + off + tw - 1, tw as int);
            }
            assert(count >= 0);
            assert(tiles.len() == count);
            assert(old(frame).cmds() + tiles.take(0) =~= frame.cmds());
        }

        let mut left: i64 = -off;
        let ghost mut k: int = 0;
        while left < dw64
            invariant
                1 <= tw,
                0 <= off <= tw,
                0 <= dw64,
                dw64 + tw <= i32::MAX,
                0 <= dh,
                0 <= k,
                left == k * tw - off,
                k == 0 || (k - 1) * tw - off < dw64,
                0 <= count,
                tiles.len() == count,
                tex_id == self.sprite.tex.id,
                srcr == self.sprite.src,
                count == spec_tile_count(off as int, tw as int, dw64 as int),
                tiles == spec_tiles(tex_id, srcr, off as int, tw as int, dw64 as int, dh as int),
                frame.cmds() == old(frame).cmds() + tiles.take(k),
                frame.out_w() == old(frame).out_w(),
                frame.out_h() == old(frame).out_h(),
            decreases dw64 + tw - left,
        {
            proof {
                lemma_mul_nonnegative(k, tw as int);
                assert(dw64 + off > 0);
                assert(k + 1 <= count) by {
                    lemma_mul_is_distributive_add_other_way(tw as int, k, 1);
                    lemma_div_by_multiple(k + 1, tw as int);
                    lemma_div_is_ordered((k + 1) * (tw as int), dw64 + off + tw - 1, tw as int);
                };
            }
            let dest_rect = Rectangle { x: left as i32, y: 0, w: tw as i32, h: dh };
            self.sprite.render(frame, dest_rect);
            proof {
                assert(tiles[k] == spec_tile(tex_id, srcr, off as int, tw as int, dh as int, k));
                assert(dest_rect == tiles[k]->Copy_dest);
                assert(tiles.take(k + 1) =~= tiles.take(k).push(tiles[k]));
                assert((old(frame).cmds() + tiles.take(k)).push(tiles[k])
                    =~= old(frame).cmds() + tiles.take(k + 1));
                lemma_mul_is_distributive_add_other_way(tw as int, k, 1);
                k = k + 1;
            }
            left = left + tw;
        }
        proof {
            if dw64 + off > 0 {
                assert(k >= 1);
                lemma_mul_is_distributive_add_other_way(tw as int, k - 1, 1);
                lemma_fundamental_div_mod_converse(
                    dw64 + off + tw - 1,
                    tw as int,
                    k,
                    dw64 + off + tw - 1 - k * tw,
                );
            } else {
                if k >= 1 {
                    lemma_mul_nonnegative(k - 1, tw as int);
                }
                assert(k == 0);
            }
            assert(k == count);
            assert(tiles.take(k) =~= tiles);
        }
    }
}

/// The tiles of one parallax render cover the destination seamlessly,
/// whatever the scroll offset: some tile is drawn whenever there is any
/// width to cover, the first tile starts at or left of the destination's
/// left edge, every later tile starts exactly where the previous one ends,
/// and the last tile's right edge reaches or passes the destination width.
pub proof fn lemma_tiles_cover(
    tex: u64,
    src: Rectangle,
    offset: int,
    tile_w: int,
    dest_w: int,
    dest_h: int,
)
    requires
        1 <= tile_w,
        0 <= offset <= tile_w,
        0 <= dest_w,
        dest_w + tile_w <= i32::MAX,
    ensures
        ({
            let tiles = spec_tiles(tex, src, offset, tile_w, dest_w, dest_h);
            &&& dest_w > 0 ==> tiles.len() >= 1
            &&& tiles.len() >= 1 ==> tiles[0]->Copy_dest.x == -offset && -offset <= 0
            &&& forall|k: int| 1 <= k < tiles.len()
                ==> #[trigger] tiles[k]->Copy_dest.x == tiles[k - 1]->Copy_dest.x + tile_w
            &&& tiles.len() >= 1 ==> tiles[tiles.len() - 1]->Copy_dest.x + tile_w >= dest_w
        }),
{
    let x = dest_w + offset;
    let n = spec_tile_count(offset, tile_w, dest_w);
    let tiles = spec_tiles(tex, src, offset, tile_w, dest_w, dest_h);
    let q = (x + tile_w - 1) / tile_w;
    lemma_fundamental_div_mod(x + tile_w - 1, tile_w);
    lemma_mod_bound(x + tile_w - 1, tile_w);
    // `tile_w * q` lands within one tile above the width to cover.
    assert(x <= tile_w * q <= x + tile_w - 1);
    if x > 0 {
        assert(n == q);
        assert(n >= 1) by {
            if n <= 0 {
                assert(tile_w * n <= 0) by (nonlinear_arith)
                    requires
                        1 <= tile_w,
                        n <= 0,
                ;
            }
        }
    } else {
        assert(n == 0);
    }
    assert forall|k: int| 0 <= k < n implies #[trigger] tiles[k]->Copy_dest.x
        == k * tile_w - offset by {
        lemma_mul_nonnegative(k, tile_w);
        lemma_mul_inequality(k, n - 1, tile_w);
        lemma_mul_is_distributive_add_other_way(tile_w, n - 1, 1);
        lemma_mul_is_commutative(tile_w, n);
        assert(k * tile_w - offset <= dest_w - 1);
    }
    assert forall|k: int| 1 <= k < n implies #[trigger] tiles[k]->Copy_dest.x
        == tiles[k - 1]->Copy_dest.x + tile_w by {
        lemma_mul_is_distributive_add_other_way(tile_w, k - 1, 1);
    }
    if n >= 1 {
        assert(tiles[n - 1]->Copy_dest.x == (n - 1) * tile_w - offset);
        assert((n - 1) * tile_w + tile_w == n * tile_w) by {
            lemma_mul_is_distributive_add_other_way(tile_w, n - 1, 1);
        }
        assert(n * tile_w >= x) by {
            lemma_mul_is_commutative(tile_w, n);
        }
        assert(tiles[0]->Copy_dest.x == 0 * tile_w - offset);
    }
}

/// Splitting an elapsed interval into consecutive sub-steps advances the
/// scroll phase exactly as one advance by the whole interval does: the phase
/// after `e1` then `e2` milliseconds equals the phase after `e1 + e2`.
pub proof fn lemma_advance_phase_splits(p: int, v: int, e1: int, e2: int, w: int)
    requires
        w > 0,
    ensures
        advance_phase(advance_phase(p, v, e1, w), v, e2, w) == advance_phase(p, v, e1 + e2, w),
{
    let m = w * 1000;
    lemma_add_mod_noop(p + v * e1, v * e2, m);
    lemma_add_mod_noop_right((p + v * e1) % m, v * e2, m);
    lemma_mul_is_distributive_add(v, e1, e2);
}

} // verus!
