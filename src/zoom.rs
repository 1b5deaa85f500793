//! Choice of the zoom level: the highest level, from 17 down to 0, at which
//! the features' pixel extent fits the canvas less its padding.
use vstd::prelude::*;

verus! {

/// The highest zoom level that the search tries.
pub const MAX_ZOOM: u8 = 17;

/// The zoom level chosen where no level fits.
pub const FALLBACK_ZOOM: u8 = 1;

/// The pixel width and height of the features' extent at one zoom level,
/// rounded up; `None` where the extent is unknown, as for a map without
/// features, which constrains nothing.
pub type Span = (Option<i64>, Option<i64>);

/// A span fits within `avail_w` by `avail_h` pixels.
pub open spec fn fits(span: Span, avail_w: int, avail_h: int) -> bool {
    &&& (span.0 matches Some(w) ==> w <= avail_w)
    &&& (span.1 matches Some(h) ==> h <= avail_h)
}

/// The highest zoom level in `0 ..= z` whose span fits, if any.
pub open spec fn highest_fit(spans: Seq<Span>, avail_w: int, avail_h: int, z: int) -> Option<int>
    decreases z + 1,
{
    if z < 0 {
        None
    } else if fits(spans[z], avail_w, avail_h) {
        Some(z)
    } else {
        highest_fit(spans, avail_w, avail_h, z - 1)
    }
}

/// Room for the features on a canvas: its size less the padding on both
/// sides; negative where the padding takes more than the canvas.
pub open spec fn avail(size: u32, pad: u32) -> int {
    size - 2 * pad
}

/// The zoom level chosen for `spans`, indexed by zoom level, on a canvas of
/// `width` by `height` pixels with `padding`.
pub open spec fn zoom_for(spans: Seq<Span>, width: u32, height: u32, padding: (u32, u32)) -> int {
    match highest_fit(spans, avail(width, padding.0), avail(height, padding.1), MAX_ZOOM as int) {
        Some(z) => z,
        None => FALLBACK_ZOOM as int,
    }
}

/// Picks the zoom level of a map: the highest level from `MAX_ZOOM` down to
/// 0 whose span (`spans[z]` for level `z`) fits within the canvas less twice
/// the padding, on each axis; `FALLBACK_ZOOM` where none fits.
pub fn calculate_zoom(spans: &Vec<Span>, width: u32, height: u32, padding: (u32, u32)) -> (r: u8)
    requires
        spans.len() == MAX_ZOOM + 1,
    ensures
        r as int == zoom_for(spans@, width, height, padding),
{
    let aw: i64 = width as i64 - 2 * (padding.0 as i64);
    let ah: i64 = height as i64 - 2 * (padding.1 as i64);
    let mut z: u8 = MAX_ZOOM + 1;
    while z > 0
        invariant
            spans.len() == MAX_ZOOM + 1,
            z <= MAX_ZOOM + 1,
            aw == avail(width, padding.0),
            ah == avail(height, padding.1),
            highest_fit(spans@, aw as int, ah as int, MAX_ZOOM as int)
                == highest_fit(spans@, aw as int, ah as int, z - 1),
        decreases z,
    {
        let s = spans[(z - 1) as usize];
        let w_fits = match s.0 {
            Some(w) => w <= aw,
            None => true,
        };
        let h_fits = match s.1 {
            Some(h) => h <= ah,
            None => true,
        };
        if w_fits && h_fits {
            return z - 1;
        }
        z = z - 1;
    }
    FALLBACK_ZOOM
}

/// A span that fits some room fits any room at least as large.
proof fn lemma_fits_grows(span: Span, w1: int, h1: int, w2: int, h2: int)
    requires
        fits(span, w1, h1),
        w1 <= w2,
        h1 <= h2,
    ensures
        fits(span, w2, h2),
{
}

proof fn lemma_highest_fit_at_least(spans: Seq<Span>, w1: int, h1: int, w2: int, h2: int, z: int, low: int)
    requires
        0 <= low <= z < spans.len(),
        fits(spans[low], w1, h1),
        w1 <= w2,
        h1 <= h2,
    ensures
        highest_fit(spans, w2, h2, z) matches Some(found) && found >= low,
    decreases z,
{
    if !fits(spans[z], w2, h2) {
        if z == low {
            lemma_fits_grows(spans[low], w1, h1, w2, h2);
        } else {
            lemma_highest_fit_at_least(spans, w1, h1, w2, h2, z - 1, low);
        }
    }
}

proof fn lemma_highest_fit_fits(spans: Seq<Span>, w: int, h: int, z: int)
    requires
        z < spans.len(),
    ensures
        highest_fit(spans, w, h, z) matches Some(found) ==> 0 <= found <= z && fits(spans[found], w, h),
    decreases z + 1,
{
    if z >= 0 && !fits(spans[z], w, h) {
        lemma_highest_fit_fits(spans, w, h, z - 1);
    }
}

/// Enlarging the canvas, all else equal, never lowers the zoom level chosen.
/// This holds except where no level fits the smaller canvas (which then
/// falls back to `FALLBACK_ZOOM`) and only level 0 fits the larger one.
pub proof fn lemma_zoom_monotone(
    spans: Seq<Span>,
    width1: u32,
    height1: u32,
    width2: u32,
    height2: u32,
    padding: (u32, u32),
)
    requires
        spans.len() == MAX_ZOOM + 1,
        width1 <= width2,
        height1 <= height2,
        !(highest_fit(spans, avail(width1, padding.0), avail(height1, padding.1), MAX_ZOOM as int) is None
            && highest_fit(spans, avail(width2, padding.0), avail(height2, padding.1), MAX_ZOOM as int)
            == Some(0int)),
    ensures
        zoom_for(spans, width1, height1, padding) <= zoom_for(spans, width2, height2, padding),
{
    let (w1, h1) = (avail(width1, padding.0), avail(height1, padding.1));
    let (w2, h2) = (avail(width2, padding.0), avail(height2, padding.1));
    lemma_highest_fit_fits(spans, w1, h1, MAX_ZOOM as int);
    lemma_highest_fit_fits(spans, w2, h2, MAX_ZOOM as int);
    if let Some(z1) = highest_fit(spans, w1, h1, MAX_ZOOM as int) {
        lemma_highest_fit_at_least(spans, w1, h1, w2, h2, MAX_ZOOM as int, z1);
    }
}

} // verus!
