//! Timeline sprites: frames laid out row by row in a grid of equal cells,
//! as a scrubbing preview expects.

use crate::raster::{Canvas, Rgba};
use vstd::prelude::*;

verus! {

/// Colour of the parts of the sprite that no frame covers.
pub open spec fn sprite_background() -> Rgba {
    Rgba { r: 24, g: 24, b: 28, a: 255 }
}

/// Rows of the grid: `ceil(frames / columns)`.
pub open spec fn sprite_rows(frames: nat, columns: nat) -> nat {
    ((frames + columns - 1) / columns as int) as nat
}

/// The grid has just enough rows for every frame: `rows * columns` cells
/// hold all the frames, one row fewer would not, and each frame's row
/// `i / columns` lies inside the grid.
pub proof fn lemma_sprite_rows_hold_every_frame(frames: nat, columns: nat)
    requires
        columns > 0,
    ensures
        sprite_rows(frames, columns) * columns >= frames,
        frames > 0 ==> (sprite_rows(frames, columns) - 1) * columns < frames,
        frames == 0 ==> sprite_rows(frames, columns) == 0,
        forall|i: nat| i < frames ==> #[trigger] (i / columns) < sprite_rows(frames, columns),
{
    let c = columns as int;
    let x = frames + c - 1;
    let r = x / c;
    vstd::arithmetic::div_mod::lemma_fundamental_div_mod(x, c);
    assert(x == c * r + x % c);
    assert(0 <= x % c < c);
    assert(r * c >= frames) by (nonlinear_arith)
        requires
            x == c * r + x % c,
            x % c < c,
            x == frames + c - 1,
    ;
    if frames > 0 {
        assert((r - 1) * c < frames) by (nonlinear_arith)
            requires
                x == c * r + x % c,
                0 <= x % c,
                x == frames + c - 1,
                c > 0,
        ;
    } else {
        assert(r == 0) by (nonlinear_arith)
            requires
                x == c * r + x % c,
                0 <= x % c < c,
                x == c - 1,
                c > 0,
        ;
    }
    assert(sprite_rows(frames, columns) == r);
    assert forall|i: nat| i < frames implies #[trigger] (i / columns) < sprite_rows(frames, columns) by {
        let q = i as int / c;
        vstd::arithmetic::div_mod::lemma_fundamental_div_mod(i as int, c);
        assert(q < r) by (nonlinear_arith)
            requires
                i == c * q + (i as int) % c,
                0 <= (i as int) % c,
                i < frames,
                r * c >= frames,
                c > 0,
        ;
    }
}

/// Rows a sprite of `frames` frames in `columns` columns needs.
pub fn sprite_rows_for(frames: usize, columns: u32) -> (rows: u128)
    requires
        columns > 0,
    ensures
        rows == sprite_rows(frames as nat, columns as nat),
{
    (frames as u128 + columns as u128 - 1) / columns as u128
}

pub open spec fn min(a: int, b: int) -> int {
    if a <= b {
        a
    } else {
        b
    }
}

/// Left (or top) margin of a frame centred in a cell: half of what the
/// cell has to spare, none when the frame is as large or larger.
pub open spec fn centring_offset(cell: int, frame: int) -> int {
    if cell > frame {
        (cell - frame) / 2
    } else {
        0
    }
}

/// The pixel at `(x, y)` of the sprite: frame `i` occupies cell `i` (row
/// `i / columns`, column `i % columns`), centred, and cropped to the cell.
pub open spec fn sprite_pixel(frames: Seq<Canvas>, columns: nat, cell_w: nat, cell_h: nat, x: nat, y: nat) -> Rgba {
    let i = (y / cell_h) * columns + x / cell_w;
    if i < frames.len() {
        let f = frames[i as int];
        let fw = f.spec_width() as int;
        let fh = f.spec_height() as int;
        let ox = centring_offset(cell_w as int, fw);
        let oy = centring_offset(cell_h as int, fh);
        let cx = (x % cell_w) as int;
        let cy = (y % cell_h) as int;
        if ox <= cx < ox + min(fw, cell_w as int) && oy <= cy < oy + min(fh, cell_h as int) {
            f.pixel(cx - ox, cy - oy)
        } else {
            sprite_background()
        }
    } else {
        sprite_background()
    }
}

fn sprite_pixel_at(frames: &[Canvas], columns: u32, cell_w: u32, cell_h: u32, x: u32, y: u32) -> (px: Rgba)
    requires
        cell_w > 0,
        cell_h > 0,
        forall|i: int| 0 <= i < frames@.len() ==> (#[trigger] frames@[i]).wf(),
    ensures
        px == sprite_pixel(frames@, columns as nat, cell_w as nat, cell_h as nat, x as nat, y as nat),
{
    let col = x / cell_w;
    let row = y / cell_h;
    assert((row as u64) * (columns as u64) <= 0xffff_fffe_0000_0001u64) by (nonlinear_arith)
        requires
            row <= 0xffff_ffffu32,
            columns <= 0xffff_ffffu32,
    ;
    let i: u64 = (row as u64) * (columns as u64) + col as u64;
    if i >= frames.len() as u64 {
        return Rgba { r: 24, g: 24, b: 28, a: 255 };
    }
    let f = &frames[i as usize];
    let fw = f.width();
    let fh = f.height();
    let ox: u32 = if cell_w > fw {
        (cell_w - fw) / 2
    } else {
        0
    };
    let oy: u32 = if cell_h > fh {
        (cell_h - fh) / 2
    } else {
        0
    };
    let vis_w: u32 = if fw <= cell_w {
        fw
    } else {
        cell_w
    };
    let vis_h: u32 = if fh <= cell_h {
        fh
    } else {
        cell_h
    };
    let cx = x % cell_w;
    let cy = y % cell_h;
    if ox <= cx && cx - ox < vis_w && oy <= cy && cy - oy < vis_h {
        f.get_pixel(cx - ox, cy - oy)
    } else {
        Rgba { r: 24, g: 24, b: 28, a: 255 }
    }
}

/// Lays the frames out row by row, `columns` to a row, each in a
/// `cell_w` x `cell_h` cell, centred and cropped, on a dark background.
/// `None` when there are no frames or no columns.
pub fn stitch_timeline_sprite(frames: &[Canvas], columns: u32, cell_w: u32, cell_h: u32) -> (res: Option<Canvas>)
    requires
        forall|i: int| 0 <= i < frames@.len() ==> (#[trigger] frames@[i]).wf(),
        columns > 0 ==> cell_w * columns <= u32::MAX,
        columns > 0 ==> sprite_rows(frames@.len(), columns as nat) <= u32::MAX,
        columns > 0 ==> cell_h * sprite_rows(frames@.len(), columns as nat) <= u32::MAX,
    ensures
        res is None <==> frames@.len() == 0 || columns == 0,
        res matches Some(c) ==> {
            &&& c.wf()
            &&& c.spec_width() == cell_w * columns
            &&& c.spec_height() == cell_h * sprite_rows(frames@.len(), columns as nat)
            &&& forall|x: int, y: int|
                0 <= x < c.spec_width() && 0 <= y < c.spec_height() ==> #[trigger] c.pixel(x, y) == sprite_pixel(
                    frames@,
                    columns as nat,
                    cell_w as nat,
                    cell_h as nat,
                    x as nat,
                    y as nat,
                )
        },
{
    if frames.len() == 0 || columns == 0 {
        return None;
    }
    let n = frames.len() as u128;
    let rows_wide: u128 = (n + columns as u128 - 1) / columns as u128;
    let rows = rows_wide as u32;
    let width = cell_w * columns;
    let height = cell_h * rows;
    let mut out: Vec<Vec<Rgba>> = Vec::new();
    let mut y: u32 = 0;
    while y < height
        invariant
            y <= height,
            width == cell_w * columns,
            height > 0 ==> cell_h > 0,
            width > 0 ==> cell_w > 0,
            forall|i: int| 0 <= i < frames@.len() ==> (#[trigger] frames@[i]).wf(),
            out@.len() == y,
            forall|j: int| 0 <= j < y ==> #[trigger] out@[j]@.len() == width,
            forall|j: int, x: int|
                0 <= j < y && 0 <= x < width ==> #[trigger] out@[j]@[x] == sprite_pixel(
                    frames@,
                    columns as nat,
                    cell_w as nat,
                    cell_h as nat,
                    x as nat,
                    j as nat,
                ),
        decreases height - y,
    {
        let mut line: Vec<Rgba> = Vec::new();
        let mut x: u32 = 0;
        while x < width
            invariant
                x <= width,
                y < height,
                height > 0 ==> cell_h > 0,
                width > 0 ==> cell_w > 0,
                forall|i: int| 0 <= i < frames@.len() ==> (#[trigger] frames@[i]).wf(),
                line@.len() == x,
                forall|i: int|
                    0 <= i < x ==> #[trigger] line@[i] == sprite_pixel(
                        frames@,
                        columns as nat,
                        cell_w as nat,
                        cell_h as nat,
                        i as nat,
                        y as nat,
                    ),
            decreases width - x,
        {
            let px = sprite_pixel_at(frames, columns, cell_w, cell_h, x, y);
            line.push(px);
            x = x + 1;
        }
        out.push(line);
        y = y + 1;
    }
    Some(Canvas::from_rows(width, height, out))
}

/// Frame `i`'s pixel `(x, y)`, when it is not cropped away, lands in cell
/// `i` of the sprite, shifted by the centring margins.
pub proof fn lemma_frame_lands_in_its_cell(
    frames: Seq<Canvas>,
    columns: nat,
    cell_w: nat,
    cell_h: nat,
    i: nat,
    x: nat,
    y: nat,
)
    requires
        columns > 0,
        cell_w > 0,
        cell_h > 0,
        i < frames.len(),
        x < min(frames[i as int].spec_width() as int, cell_w as int),
        y < min(frames[i as int].spec_height() as int, cell_h as int),
    ensures
        ({
            let f = frames[i as int];
            let ox = centring_offset(cell_w as int, f.spec_width() as int);
            let oy = centring_offset(cell_h as int, f.spec_height() as int);
            let sx = (i % columns) * cell_w + ox + x;
            let sy = (i / columns) * cell_h + oy + y;
            sprite_pixel(frames, columns, cell_w, cell_h, sx as nat, sy as nat) == f.pixel(x as int, y as int)
        }),
{
    let f = frames[i as int];
    let ox = centring_offset(cell_w as int, f.spec_width() as int);
    let oy = centring_offset(cell_h as int, f.spec_height() as int);
    let col = (i % columns) as int;
    let row = (i / columns) as int;
    let sx = col * cell_w + ox + x;
    let sy = row * cell_h + oy + y;
    assert(0 <= ox + x < cell_w);
    assert(0 <= oy + y < cell_h);
    vstd::arithmetic::div_mod::lemma_fundamental_div_mod_converse(sx, cell_w as int, col, ox + x);
    vstd::arithmetic::div_mod::lemma_fundamental_div_mod_converse(sy, cell_h as int, row, oy + y);
    vstd::arithmetic::div_mod::lemma_fundamental_div_mod(i as int, columns as int);
    assert(row * columns + col == i);
}

} // verus!
