//! Audio waveform thumbnails: symmetric vertical bars, one per peak, on a
//! fixed pitch. The peaks themselves (measured from decoded samples) and
//! their scaling to bar heights are the caller's.

use crate::raster::{Canvas, Rgba};
use vstd::prelude::*;

verus! {

/// Default number of bars (512 px at a 2 px pitch: 1 px bar + 1 px gap).
pub const DEFAULT_WAVEFORM_BARS: usize = 256;

pub const BAR_WIDTH: u32 = 1;

pub const BAR_GAP: u32 = 1;

pub open spec fn default_background() -> Rgba {
    Rgba { r: 0, g: 0, b: 0, a: 0 }
}

pub open spec fn default_bar_colour() -> Rgba {
    Rgba { r: 124, g: 108, b: 255, a: 255 }
}

/// How the waveform is drawn (by default: purple bars on transparent).
#[derive(Clone, Copy, PartialEq, Eq, Structural, Debug)]
pub struct WaveformStyle {
    pub background: Rgba,
    pub bar: Rgba,
    pub bar_width: u32,
    pub bar_gap: u32,
}

impl Default for WaveformStyle {
    fn default() -> (s: Self)
        ensures
            s == (WaveformStyle {
                background: default_background(),
                bar: default_bar_colour(),
                bar_width: BAR_WIDTH,
                bar_gap: BAR_GAP,
            }),
    {
        WaveformStyle {
            background: Rgba { r: 0, g: 0, b: 0, a: 0 },
            bar: Rgba { r: 124, g: 108, b: 255, a: 255 },
            bar_width: BAR_WIDTH,
            bar_gap: BAR_GAP,
        }
    }
}

/// The drawing arithmetic cannot overflow and the pitch is not zero.
pub open spec fn style_fits(style: WaveformStyle, width: u32) -> bool {
    &&& style.bar_width + style.bar_gap > 0
    &&& style.bar_width + style.bar_gap <= u32::MAX
    &&& width + style.bar_gap <= u32::MAX
}

/// Bars that fit on a canvas `width` wide: `(width + gap) / pitch`, at
/// least one.
pub open spec fn spec_bar_count(width: u32, style: WaveformStyle) -> nat {
    let n = (width + style.bar_gap) / (style.bar_width + style.bar_gap) as int;
    if n < 1 {
        1
    } else {
        n as nat
    }
}

pub fn waveform_bar_count(width: u32, style: WaveformStyle) -> (n: usize)
    requires
        style_fits(style, width),
    ensures
        n == spec_bar_count(width, style),
{
    let step = style.bar_width + style.bar_gap;
    let n = (width + style.bar_gap) / step;
    if n < 1 {
        1
    } else {
        n as usize
    }
}

/// Samples per bar when `len` samples are split into `bars` windows: at
/// least one.
pub open spec fn window_len(len: nat, bars: nat) -> nat {
    if len / bars >= 1 {
        len / bars
    } else {
        1
    }
}

/// The samples that bar `i` measures: consecutive windows of `window_len`
/// samples, the last cut at the end; `None` for a bar past the end.
pub open spec fn window(len: nat, bars: nat, i: nat) -> Option<(usize, usize)> {
    let start = i * window_len(len, bars);
    if start >= len {
        None
    } else {
        let end = start + window_len(len, bars);
        Some((start as usize, (if end < len { end } else { len }) as usize))
    }
}

/// Splits `len` decoded samples into `bars` windows whose peaks become the
/// bars.
pub fn peak_windows(len: usize, bars: usize) -> (w: Vec<Option<(usize, usize)>>)
    requires
        bars > 0,
    ensures
        w@.len() == bars,
        forall|i: int| 0 <= i < bars ==> #[trigger] w@[i] == window(len as nat, bars as nat, i as nat),
{
    let chunk: usize = if len / bars >= 1 {
        len / bars
    } else {
        1
    };
    let mut w: Vec<Option<(usize, usize)>> = Vec::new();
    let mut i: usize = 0;
    while i < bars
        invariant
            i <= bars,
            bars > 0,
            chunk == window_len(len as nat, bars as nat),
            w@.len() == i,
            forall|j: int| 0 <= j < i ==> #[trigger] w@[j] == window(len as nat, bars as nat, j as nat),
        decreases bars - i,
    {
        assert(i * chunk + chunk <= if len >= bars { len as int } else { bars as int }) by (nonlinear_arith)
            requires
                i < bars,
                bars > 0,
                chunk == window_len(len as nat, bars as nat),
        {
            if len / bars >= 1 {
                assert(chunk * bars <= len);
                assert(i * chunk + chunk == (i + 1) * chunk);
                assert((i + 1) * chunk <= bars * chunk);
            } else {
                assert(chunk == 1);
            }
        }
        let start = i * chunk;
        if start >= len {
            w.push(None);
        } else {
            let end = if start + chunk < len {
                start + chunk
            } else {
                len
            };
            w.push(Some((start, end)));
        }
        i = i + 1;
    }
    w
}

/// Index of the peak that output bar `i` of `target` takes, out of `len`.
pub open spec fn resample_index(i: int, len: int, target: int) -> int {
    i * len / target
}

/// Stretches or shrinks `peaks` to `target_bars` values by nearest-index
/// sampling: output `i` is `peaks[i * len / target_bars]`. Empty when there
/// are no peaks or no bars wanted.
pub fn resample_peaks<T: Copy>(peaks: &[T], target_bars: usize) -> (out: Vec<T>)
    requires
        target_bars == 0 || (target_bars - 1) * peaks@.len() <= usize::MAX,
    ensures
        peaks@.len() == 0 || target_bars == 0 ==> out@.len() == 0,
        peaks@.len() > 0 && target_bars > 0 ==> {
            &&& out@.len() == target_bars
            &&& forall|i: int| 0 <= i < target_bars ==> #[trigger] out@[i] == peaks@[resample_index(i, peaks@.len() as int, target_bars as int)]
        },
{
    let len = peaks.len();
    let mut out: Vec<T> = Vec::new();
    if len == 0 || target_bars == 0 {
        return out;
    }
    if len == target_bars {
        let mut i: usize = 0;
        while i < len
            invariant
                i <= len,
                len == peaks@.len(),
                len == target_bars,
                out@.len() == i,
                forall|j: int| 0 <= j < i ==> #[trigger] out@[j] == peaks@[resample_index(j, len as int, target_bars as int)],
            decreases len - i,
        {
            proof {
                vstd::arithmetic::div_mod::lemma_fundamental_div_mod_converse(i * len, len as int, i as int, 0);
            }
            out.push(peaks[i]);
            i = i + 1;
        }
        return out;
    }
    let mut i: usize = 0;
    while i < target_bars
        invariant
            i <= target_bars,
            0 < len == peaks@.len(),
            (target_bars - 1) * len <= usize::MAX,
            out@.len() == i,
            forall|j: int| 0 <= j < i ==> #[trigger] out@[j] == peaks@[resample_index(j, len as int, target_bars as int)],
        decreases target_bars - i,
    {
        assert(i * len <= (target_bars - 1) * len) by (nonlinear_arith)
            requires
                i < target_bars,
        ;
        assert(i * len / (target_bars as int) < len) by (nonlinear_arith)
            requires
                i < target_bars,
                0 < len,
        ;
        let src = i * len / target_bars;
        let src = if src < len - 1 {
            src
        } else {
            len - 1
        };
        out.push(peaks[src]);
        i = i + 1;
    }
    out
}

/// Output bar `i` of `target` takes the peak at the floor of
/// `i * len / target`: the index `r` with `r * target <= i * len <
/// (r + 1) * target`. So the bars spread evenly over the whole clip, and the
/// last bar samples a peak among the last `ceil(len / target)`.
pub proof fn lemma_resample_spreads_over_clip(i: int, len: int, target: int)
    requires
        0 < target,
        0 < len,
        0 <= i < target,
    ensures
        resample_index(i, len, target) * target <= i * len,
        i * len < (resample_index(i, len, target) + 1) * target,
        0 <= resample_index(i, len, target) < len,
        i == target - 1 ==> resample_index(i, len, target) + (len + target - 1) / target >= len,
{
    let r = resample_index(i, len, target);
    vstd::arithmetic::div_mod::lemma_fundamental_div_mod(i * len, target);
    assert(i * len == target * r + (i * len) % target);
    assert(0 <= (i * len) % target < target);
    assert(r * target <= i * len && i * len < (r + 1) * target) by (nonlinear_arith)
        requires
            i * len == target * r + (i * len) % target,
            0 <= (i * len) % target < target,
    ;
    assert(0 <= i * len) by (nonlinear_arith)
        requires
            0 <= i,
            0 < len,
    ;
    assert(0 <= r < len) by (nonlinear_arith)
        requires
            r * target <= i * len,
            i * len < (r + 1) * target,
            0 <= i * len,
            i < target,
            0 < target,
            0 < len,
    ;
    if i == target - 1 {
        let c = (len + target - 1) / target;
        vstd::arithmetic::div_mod::lemma_fundamental_div_mod(len + target - 1, target);
        assert(len + target - 1 == target * c + (len + target - 1) % target);
        assert(r + c >= len) by (nonlinear_arith)
            requires
                i == target - 1,
                i * len < (r + 1) * target,
                len + target - 1 == target * c + (len + target - 1) % target,
                0 <= (len + target - 1) % target < target,
                0 < target,
                0 < len,
        ;
    }
}

/// Resampling peaks to their own count gives them back unchanged.
pub proof fn lemma_resample_to_same_count_is_identity<T>(peaks: Seq<T>, out: Seq<T>)
    requires
        out.len() == peaks.len(),
        forall|i: int| 0 <= i < out.len() ==> #[trigger] out[i] == peaks[resample_index(i, peaks.len() as int, peaks.len() as int)],
    ensures
        out == peaks,
{
    assert forall|i: int| 0 <= i < out.len() implies #[trigger] out[i] == peaks[i] by {
        vstd::arithmetic::div_mod::lemma_fundamental_div_mod_converse(i * peaks.len(), peaks.len() as int, i, 0);
    }
    assert(out =~= peaks);
}

/// Top row of a bar `h` pixels high, centred on the middle row.
pub open spec fn bar_top(height: u32, h: u32) -> int {
    let mid = height / 2;
    if mid >= h / 2 {
        mid - h / 2
    } else {
        0
    }
}

pub fn bar_top_row(height: u32, h: u32) -> (top: u32)
    ensures
        top == bar_top(height, h),
{
    let mid = height / 2;
    if mid >= h / 2 {
        mid - h / 2
    } else {
        0
    }
}

/// One past the bottom row of a bar `h` pixels high, clipped to the canvas.
pub open spec fn bar_bottom(height: u32, h: u32) -> int {
    let end = bar_top(height, h) + h;
    if end < height {
        end
    } else {
        height as int
    }
}

/// The colour of pixel `(x, y)`: bar `i` covers columns `i * pitch` to
/// `i * pitch + bar_width` (so its bars never touch), and the rows of a
/// bar of height `heights[i]` centred on the middle row; bars of height 0
/// are not drawn.
pub open spec fn waveform_pixel(heights: Seq<u32>, height: u32, style: WaveformStyle, x: int, y: int) -> Rgba {
    let step = (style.bar_width + style.bar_gap) as int;
    let i = x / step;
    if i < heights.len() && heights[i] > 0 && x % step < style.bar_width && bar_top(height, heights[i]) <= y
        < bar_bottom(height, heights[i]) {
        style.bar
    } else {
        style.background
    }
}

/// Every bar that lies on the canvas can be drawn without overflowing.
pub open spec fn heights_fit(heights: Seq<u32>, width: u32, height: u32, style: WaveformStyle) -> bool {
    forall|i: int|
        0 <= i < heights.len() && i * (style.bar_width + style.bar_gap) < width ==> bar_top(height, #[trigger] heights[i])
            + heights[i] <= u32::MAX
}

fn pixel_at(heights: &[u32], height: u32, style: WaveformStyle, x: u32, y: u32) -> (px: Rgba)
    requires
        style.bar_width + style.bar_gap > 0,
        style.bar_width + style.bar_gap <= u32::MAX,
    ensures
        px == waveform_pixel(heights@, height, style, x as int, y as int),
{
    let step = style.bar_width + style.bar_gap;
    let i = x / step;
    if (i as usize) < heights.len() && heights[i as usize] > 0 && x % step < style.bar_width {
        let h = heights[i as usize];
        let top = bar_top_row(height, h);
        let in_bar = if (top as u64) + (h as u64) < height as u64 {
            top <= y && (y as u64) < (top as u64) + (h as u64)
        } else {
            top <= y && y < height
        };
        if in_bar {
            style.bar
        } else {
            style.background
        }
    } else {
        style.background
    }
}

/// Draws one bar per height on a `width` x `height` canvas filled with the
/// background.
pub fn draw_waveform_heights(heights: &[u32], width: u32, height: u32, style: WaveformStyle) -> (c: Canvas)
    requires
        style_fits(style, width),
        heights_fit(heights@, width, height, style),
    ensures
        c.wf(),
        c.spec_width() == width,
        c.spec_height() == height,
        forall|x: int, y: int|
            0 <= x < width && 0 <= y < height ==> #[trigger] c.pixel(x, y) == waveform_pixel(heights@, height, style, x, y),
{
    let mut rows: Vec<Vec<Rgba>> = Vec::new();
    let mut y: u32 = 0;
    while y < height
        invariant
            y <= height,
            style.bar_width + style.bar_gap > 0,
            style.bar_width + style.bar_gap <= u32::MAX,
            rows@.len() == y,
            forall|j: int| 0 <= j < y ==> #[trigger] rows@[j]@.len() == width,
            forall|j: int, x: int|
                0 <= j < y && 0 <= x < width ==> #[trigger] rows@[j]@[x] == waveform_pixel(heights@, height, style, x, j),
        decreases height - y,
    {
        let mut line: Vec<Rgba> = Vec::new();
        let mut x: u32 = 0;
        while x < width
            invariant
                x <= width,
                y < height,
                style.bar_width + style.bar_gap > 0,
                style.bar_width + style.bar_gap <= u32::MAX,
                line@.len() == x,
                forall|i: int| 0 <= i < x ==> #[trigger] line@[i] == waveform_pixel(heights@, height, style, i, y as int),
            decreases width - x,
        {
            line.push(pixel_at(heights, height, style, x, y));
            x = x + 1;
        }
        rows.push(line);
        y = y + 1;
    }
    Canvas::from_rows(width, height, rows)
}

/// With the default style (1 px bars, 1 px gaps) bars are drawn only in
/// even columns.
pub proof fn lemma_default_bars_on_even_columns(heights: Seq<u32>, height: u32, x: int, y: int)
    requires
        0 <= x,
        waveform_pixel(
            heights,
            height,
            WaveformStyle { background: default_background(), bar: default_bar_colour(), bar_width: BAR_WIDTH, bar_gap: BAR_GAP },
            x,
            y,
        ) == default_bar_colour(),
    ensures
        x % 2 == 0,
{
}

/// A taller bar covers every row a shorter one covers: its top is no lower
/// and its bottom no higher.
pub proof fn lemma_taller_bar_covers(height: u32, h: u32, g: u32)
    requires
        h <= g,
    ensures
        bar_top(height, g) <= bar_top(height, h),
        bar_bottom(height, h) <= bar_bottom(height, g),
{
}

/// Louder input never loses bar pixels: where every bar of `q` is at least
/// as tall as the bar of `p` in the same place, every pixel drawn as a bar
/// for `p` is drawn as a bar for `q`.
pub proof fn lemma_waveform_grows_with_heights(
    p: Seq<u32>,
    q: Seq<u32>,
    height: u32,
    style: WaveformStyle,
    x: int,
    y: int,
)
    requires
        p.len() == q.len(),
        forall|j: int| 0 <= j < p.len() ==> #[trigger] p[j] <= q[j],
        style.bar_width + style.bar_gap > 0,
        0 <= x,
        waveform_pixel(p, height, style, x, y) == style.bar,
    ensures
        waveform_pixel(q, height, style, x, y) == style.bar,
{
    let step = (style.bar_width + style.bar_gap) as int;
    let i = x / step;
    assert(0 <= i) by (nonlinear_arith)
        requires
            0 <= x,
            step > 0,
            i == x / step,
    ;
    if i < p.len() && p[i] > 0 && x % step < style.bar_width && bar_top(height, p[i]) <= y < bar_bottom(height, p[i]) {
        lemma_taller_bar_covers(height, p[i], q[i]);
    }
}

/// A bar of positive height is drawn in its first column on the middle
/// row, provided the canvas is at least one pixel high and the column is on
/// it.
pub proof fn lemma_bar_crosses_middle(heights: Seq<u32>, height: u32, style: WaveformStyle, i: int)
    requires
        style.bar_width > 0,
        0 <= i < heights.len(),
        heights[i] > 0,
        height > 0,
    ensures
        waveform_pixel(heights, height, style, i * (style.bar_width + style.bar_gap), (height / 2) as int) == style.bar,
{
    let step = (style.bar_width + style.bar_gap) as int;
    vstd::arithmetic::div_mod::lemma_fundamental_div_mod_converse(i * step, step, i, 0);
}

} // verus!
