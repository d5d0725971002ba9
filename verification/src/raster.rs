//! An RGBA pixel grid held as plain values, used for the sprites and the
//! waveform images that the library composes.

use vstd::prelude::*;

verus! {

/// One RGBA pixel, 8 bits per channel.
#[derive(Clone, Copy, PartialEq, Eq, Structural, Debug)]
pub struct Rgba {
    pub r: u8,
    pub g: u8,
    pub b: u8,
    pub a: u8,
}

impl Rgba {
    pub fn new(r: u8, g: u8, b: u8, a: u8) -> (px: Rgba)
        ensures
            px == (Rgba { r, g, b, a }),
    {
        Rgba { r, g, b, a }
    }
}

/// The pixel that the four bytes at `data[4 * i ..]` describe.
pub open spec fn rgba_at(data: Seq<u8>, i: int) -> Rgba {
    Rgba { r: data[4 * i], g: data[4 * i + 1], b: data[4 * i + 2], a: data[4 * i + 3] }
}

/// A `width` x `height` grid of RGBA pixels, stored row by row.
pub struct Canvas {
    width: u32,
    height: u32,
    rows: Vec<Vec<Rgba>>,
}

impl Canvas {
    pub closed spec fn spec_width(&self) -> nat {
        self.width as nat
    }

    pub closed spec fn spec_height(&self) -> nat {
        self.height as nat
    }

    /// Every row exists and holds exactly `width` pixels.
    pub closed spec fn wf(&self) -> bool {
        &&& self.rows@.len() == self.height
        &&& forall|y: int| 0 <= y < self.rows@.len() ==> #[trigger] self.rows@[y]@.len() == self.width
    }

    /// The pixel in column `x` of row `y`.
    pub closed spec fn pixel(&self, x: int, y: int) -> Rgba {
        self.rows@[y]@[x]
    }

    /// A canvas of the given size filled with `px`.
    pub fn from_pixel(width: u32, height: u32, px: Rgba) -> (c: Canvas)
        ensures
            c.wf(),
            c.spec_width() == width,
            c.spec_height() == height,
            forall|x: int, y: int| 0 <= x < width && 0 <= y < height ==> #[trigger] c.pixel(x, y) == px,
    {
        let mut rows: Vec<Vec<Rgba>> = Vec::new();
        let mut y: u32 = 0;
        while y < height
            invariant
                y <= height,
                rows@.len() == y,
                forall|j: int| 0 <= j < y ==> #[trigger] rows@[j]@.len() == width,
                forall|j: int, x: int| 0 <= j < y && 0 <= x < width ==> #[trigger] rows@[j]@[x] == px,
            decreases height - y,
        {
            let mut row: Vec<Rgba> = Vec::new();
            let mut x: u32 = 0;
            while x < width
                invariant
                    x <= width,
                    row@.len() == x,
                    forall|i: int| 0 <= i < x ==> #[trigger] row@[i] == px,
                decreases width - x,
            {
                row.push(px);
                x = x + 1;
            }
            rows.push(row);
            y = y + 1;
        }
        Canvas { width, height, rows }
    }

    /// A canvas built from rows that all hold `width` pixels.
    pub fn from_rows(width: u32, height: u32, rows: Vec<Vec<Rgba>>) -> (c: Canvas)
        requires
            rows@.len() == height,
            forall|y: int| 0 <= y < height ==> #[trigger] rows@[y]@.len() == width,
        ensures
            c.wf(),
            c.spec_width() == width,
            c.spec_height() == height,
            forall|x: int, y: int| 0 <= x < width && 0 <= y < height ==> #[trigger] c.pixel(x, y) == rows@[y]@[x],
    {
        Canvas { width, height, rows }
    }

    pub fn width(&self) -> (w: u32)
        ensures
            w == self.spec_width(),
    {
        self.width
    }

    pub fn height(&self) -> (h: u32)
        ensures
            h == self.spec_height(),
    {
        self.height
    }

    pub fn get_pixel(&self, x: u32, y: u32) -> (px: Rgba)
        requires
            self.wf(),
            x < self.spec_width(),
            y < self.spec_height(),
        ensures
            px == self.pixel(x as int, y as int),
    {
        self.rows[y as usize][x as usize]
    }

    /// Reads a canvas from row-major RGBA bytes; `None` unless there are
    /// exactly `4 * width * height` of them.
    pub fn from_rgba8(width: u32, height: u32, data: &[u8]) -> (res: Option<Canvas>)
        ensures
            res is Some <==> data@.len() == 4 * width * height,
            res matches Some(c) ==> {
                &&& c.wf()
                &&& c.spec_width() == width
                &&& c.spec_height() == height
                &&& forall|x: int, y: int|
                    0 <= x < width && 0 <= y < height ==> #[trigger] c.pixel(x, y) == rgba_at(data@, y * width + x)
            },
    {
        let n = data.len();
        let w = width as u64;
        let h = height as u64;
        assert(w * h <= 0xffff_fffe_0000_0001u64) by (nonlinear_arith)
            requires
                w <= 0xffff_ffffu64,
                h <= 0xffff_ffffu64,
        ;
        let pixels: u64 = w * h;
        assert(4 * width * height == 4 * (width * height)) by (nonlinear_arith);
        assert(n <= u64::MAX);
        if pixels > 0x3fff_ffff_ffff_ffffu64 {
            return None;
        }
        let total: u64 = 4 * pixels;
        if n as u64 != total {
            return None;
        }
        let mut rows: Vec<Vec<Rgba>> = Vec::new();
        let mut base: usize = 0;
        let mut y: u32 = 0;
        while y < height
            invariant
                y <= height,
                n == data@.len(),
                data@.len() == 4 * width * height,
                base == 4 * (y * width),
                rows@.len() == y,
                forall|j: int| 0 <= j < y ==> #[trigger] rows@[j]@.len() == width,
                forall|j: int, x: int|
                    0 <= j < y && 0 <= x < width ==> #[trigger] rows@[j]@[x] == rgba_at(data@, j * width + x),
            decreases height - y,
        {
            assert(y * width + width <= height * width) by (nonlinear_arith)
                requires
                    y < height,
            ;
            assert(4 * width * height == 4 * (height * width)) by (nonlinear_arith);
            let mut row: Vec<Rgba> = Vec::new();
            let mut x: u32 = 0;
            while x < width
                invariant
                    x <= width,
                    y < height,
                    n == data@.len(),
                    base + 4 * width <= n,
                    y * width + width <= height * width,
                    data@.len() == 4 * width * height,
                    base == 4 * (y * width),
                    row@.len() == x,
                    forall|i: int| 0 <= i < x ==> #[trigger] row@[i] == rgba_at(data@, y * width + i),
                decreases width - x,
            {
                let i = base + 4 * (x as usize);
                let px = Rgba { r: data[i], g: data[i + 1], b: data[i + 2], a: data[i + 3] };
                row.push(px);
                x = x + 1;
            }
            rows.push(row);
            assert((y + 1) * width == y * width + width) by (nonlinear_arith);
            base = base + 4 * (width as usize);
            y = y + 1;
        }
        Some(Canvas { width, height, rows })
    }

    /// Writing a canvas out as bytes and reading those bytes back gives the
    /// same pixels.
    pub proof fn lemma_rgba8_roundtrip(c: Canvas, data: Seq<u8>, d: Canvas)
        requires
            c.wf(),
            data.len() == 4 * c.spec_width() * c.spec_height(),
            forall|x: int, y: int|
                0 <= x < c.spec_width() && 0 <= y < c.spec_height() ==> #[trigger] rgba_at(data, y * c.spec_width() + x)
                    == c.pixel(x, y),
            d.wf(),
            d.spec_width() == c.spec_width(),
            d.spec_height() == c.spec_height(),
            forall|x: int, y: int|
                0 <= x < d.spec_width() && 0 <= y < d.spec_height() ==> #[trigger] d.pixel(x, y) == rgba_at(
                    data,
                    y * d.spec_width() + x,
                ),
        ensures
            forall|x: int, y: int| 0 <= x < c.spec_width() && 0 <= y < c.spec_height() ==> #[trigger] d.pixel(x, y) == c.pixel(x, y),
    {
        assert forall|x: int, y: int| 0 <= x < c.spec_width() && 0 <= y < c.spec_height() implies #[trigger] d.pixel(x, y)
            == c.pixel(x, y) by {
            assert(rgba_at(data, y * c.spec_width() + x) == c.pixel(x, y));
        }
    }

    /// Writes the canvas out as row-major RGBA bytes.
    pub fn to_rgba8(&self) -> (data: Vec<u8>)
        requires
            self.wf(),
        ensures
            data@.len() == 4 * self.spec_width() * self.spec_height(),
            forall|x: int, y: int|
                0 <= x < self.spec_width() && 0 <= y < self.spec_height() ==>
                    #[trigger] rgba_at(data@, y * self.spec_width() + x) == self.pixel(x, y),
    {
        let width = self.width;
        let height = self.height;
        let mut data: Vec<u8> = Vec::new();
        let mut y: u32 = 0;
        while y < height
            invariant
                self.wf(),
                width == self.spec_width(),
                height == self.spec_height(),
                y <= height,
                data@.len() == 4 * (y * width),
                forall|j: int, x: int|
                    0 <= j < y && 0 <= x < width ==> #[trigger] rgba_at(data@, j * width + x) == self.pixel(x, j),
            decreases height - y,
        {
            let ghost start = data@.len();
            let mut x: u32 = 0;
            while x < width
                invariant
                    self.wf(),
                    width == self.spec_width(),
                    height == self.spec_height(),
                    y < height,
                    x <= width,
                    start == 4 * (y * width),
                    data@.len() == start + 4 * x,
                    forall|j: int, i: int|
                        0 <= j < y && 0 <= i < width ==> #[trigger] rgba_at(data@, j * width + i) == self.pixel(i, j),
                    forall|i: int| 0 <= i < x ==> #[trigger] rgba_at(data@, y * width + i) == self.pixel(i, y as int),
                decreases width - x,
            {
                let px = self.rows[y as usize][x as usize];
                let ghost before = data@;
                data.push(px.r);
                data.push(px.g);
                data.push(px.b);
                data.push(px.a);
                proof {
                    assert forall|j: int, i: int|
                        0 <= j < y && 0 <= i < width implies #[trigger] rgba_at(data@, j * width + i)
                        == self.pixel(i, j) by {
                        assert(j * width + i < y * width) by (nonlinear_arith)
                            requires
                                0 <= j < y,
                                0 <= i < width,
                        ;
                        assert(rgba_at(before, j * width + i) == self.pixel(i, j));
                    }
                    assert forall|i: int| 0 <= i < x + 1 implies #[trigger] rgba_at(data@, y * width + i)
                        == self.pixel(i, y as int) by {
                        if i < x {
                            assert(rgba_at(before, y * width + i) == self.pixel(i, y as int));
                        }
                    }
                }
                x = x + 1;
            }
            assert((y + 1) * width == y * width + width) by (nonlinear_arith);
            y = y + 1;
        }
        assert(4 * (height * width) == 4 * width * height) by (nonlinear_arith);
        data
    }
}

} // verus!
