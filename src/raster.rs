//! An RGBA canvas and the straight overwrite of one image onto another.
use vstd::prelude::*;
use vstd::arithmetic::div_mod::lemma_fundamental_div_mod_converse;
use vstd::arithmetic::div_mod::lemma_fundamental_div_mod;

verus! {

/// Largest width that a canvas may have: four bytes a pixel must fit a
/// positive `i32` row length.
pub const MAX_WIDTH: u32 = 536870911;

/// A premultiplied RGBA image, four bytes a pixel, row by row from the top.
#[derive(Clone, Debug)]
pub struct Raster {
    pub width: u32,
    pub height: u32,
    pub data: Vec<u8>,
}

impl Raster {
    /// The data holds exactly four bytes for each pixel.
    pub open spec fn wf(&self) -> bool {
        self.data.len() == 4 * self.width * self.height
    }

    /// A transparent canvas of `width` by `height` pixels, or `None` where a
    /// side is zero or the width exceeds `MAX_WIDTH`.
    pub fn new(width: u32, height: u32) -> (r: Option<Raster>)
        ensures
            r is Some <==> (1 <= width <= MAX_WIDTH && 1 <= height),
            r matches Some(c) ==> c.wf() && c.width == width && c.height == height
                && forall|i: int| 0 <= i < c.data.len() ==> c.data[i] == 0,
    {
        if width == 0 || height == 0 || width > MAX_WIDTH {
            return None;
        }
        let w4: u64 = 4 * (width as u64);
        proof {
            assert(w4 * (height as u64) <= 0x8000_0000u64 * 0xffff_ffffu64) by (nonlinear_arith)
                requires w4 <= 0x8000_0000u64, height <= 0xffff_ffffu32;
        }
        let n: u64 = w4 * (height as u64);
        let mut data: Vec<u8> = Vec::new();
        let mut k: u64 = 0;
        while k < n
            invariant
                k <= n,
                data.len() == k,
                forall|i: int| 0 <= i < data.len() ==> data[i] == 0,
            decreases n - k,
        {
            data.push(0);
            k = k + 1;
        }
        Some(Raster { width, height, data })
    }
}

/// For byte `i` of a canvas `bw` pixels wide, the byte of a `tw` by `th`
/// image placed with its top-left pixel at (`x`, `y`) that covers it, or -1
/// where the image does not cover it.
pub open spec fn source_index(bw: int, tw: int, th: int, x: int, y: int, i: int) -> int {
    let p = i / 4;
    let tx = p % bw - x;
    let ty = p / bw - y;
    if 0 <= tx < tw && 0 <= ty < th {
        4 * (ty * tw + tx) + i % 4
    } else {
        -1
    }
}

/// The bytes of `bottom` after `top` is written over it, unblended, with its
/// top-left pixel at (`x`, `y`); what falls outside `bottom` is cut off.
pub open spec fn blit(bottom: Seq<u8>, bw: int, top: Seq<u8>, tw: int, th: int, x: int, y: int) -> Seq<u8> {
    Seq::new(bottom.len(), |i: int| {
        let s = source_index(bw, tw, th, x, y, i);
        if s >= 0 { top[s] } else { bottom[i] }
    })
}

/// Where `i = q * d + r` with `0 <= r < d`, `i / d` is `q` and `i % d` is `r`.
proof fn lemma_split(i: int, d: int, q: int, r: int)
    requires
        d > 0,
        0 <= r < d,
        i == q * d + r,
    ensures
        i / d == q,
        i % d == r,
{
    lemma_fundamental_div_mod_converse(i, d, q, r);
}

/// The canvas byte on which byte `i` of the image lands has `i` as its source.
proof fn lemma_source_of_target(bw: int, bh: int, tw: int, th: int, x: int, y: int, i: int)
    requires
        bw > 0,
        tw > 0,
        0 <= i < 4 * tw * th,
        0 <= (i / 4) % tw + x < bw,
        0 <= (i / 4) / tw + y < bh,
    ensures
        ({
            let px = (i / 4) % tw + x;
            let py = (i / 4) / tw + y;
            let j = 4 * (py * bw + px) + i % 4;
            0 <= j < 4 * bw * bh && source_index(bw, tw, th, x, y, j) == i
        }),
{
    let p = i / 4;
    let c = i % 4;
    lemma_fundamental_div_mod(i, 4);
    lemma_fundamental_div_mod(p, tw);
    let tx = p % tw;
    let ty = p / tw;
    let px = tx + x;
    let py = ty + y;
    let j = 4 * (py * bw + px) + c;
    assert(0 <= py * bw + px < bw * bh) by (nonlinear_arith)
        requires 0 <= px < bw, 0 <= py < bh;
    assert(0 <= j < 4 * bw * bh) by (nonlinear_arith)
        requires j == 4 * (py * bw + px) + c, 0 <= py * bw + px < bw * bh, 0 <= c < 4;
    assert(0 <= c < 4);
    assert(0 <= tx < tw) by {
        vstd::arithmetic::div_mod::lemma_mod_bound(p, tw);
    }
    lemma_split(j, 4, py * bw + px, c);
    lemma_split(py * bw + px, bw, py, px);
    assert(j / 4 == py * bw + px);
    assert((j / 4) % bw - x == tx);
    assert((j / 4) / bw - y == ty);
    assert(0 <= p) by (nonlinear_arith) requires i >= 0, i == 4 * p + c, 0 <= c < 4;
    assert(ty < th) by (nonlinear_arith)
        requires p == tw * ty + tx, 0 <= tx < tw, i == 4 * p + c, 0 <= c < 4, i < 4 * tw * th, tw > 0;
    assert(0 <= ty) by (nonlinear_arith)
        requires p == tw * ty + tx, 0 <= tx < tw, p >= 0, tw > 0;
    assert(4 * (ty * tw + tx) + c == i) by (nonlinear_arith)
        requires p == tw * ty + tx, i == 4 * p + c;
}

/// A canvas byte with a source is the target of that source byte.
proof fn lemma_target_of_source(bw: int, bh: int, tw: int, th: int, x: int, y: int, j: int)
    requires
        bw > 0,
        tw > 0,
        0 <= j < 4 * bw * bh,
        source_index(bw, tw, th, x, y, j) >= 0,
    ensures
        ({
            let i = source_index(bw, tw, th, x, y, j);
            let p = j / 4;
            &&& (i / 4) % tw + x == p % bw
            &&& (i / 4) / tw + y == p / bw
            &&& 0 <= p % bw < bw
            &&& 0 <= p / bw < bh
            &&& i % 4 == j % 4
            &&& 0 <= i < 4 * tw * th
        }),
{
    let p = j / 4;
    let c = j % 4;
    lemma_fundamental_div_mod(j, 4);
    lemma_fundamental_div_mod(p, bw);
    let tx = p % bw - x;
    let ty = p / bw - y;
    let i = 4 * (ty * tw + tx) + c;
    lemma_split(i, 4, ty * tw + tx, c);
    lemma_split(ty * tw + tx, tw, ty, tx);
    assert(0 <= p < bw * bh) by (nonlinear_arith)
        requires j == 4 * p + c, 0 <= c < 4, 0 <= j < 4 * bw * bh;
    assert(0 <= p % bw < bw) by {
        vstd::arithmetic::div_mod::lemma_mod_bound(p, bw);
    }
    assert(0 <= p / bw < bh) by (nonlinear_arith)
        requires p == bw * (p / bw) + p % bw, 0 <= p % bw < bw, 0 <= p < bw * bh, bw > 0;
    assert(0 <= i < 4 * tw * th) by (nonlinear_arith)
        requires i == 4 * (ty * tw + tx) + c, 0 <= tx < tw, 0 <= ty < th, 0 <= c < 4;
}

/// Writes `top` over `bottom` with its top-left pixel at (`x`, `y`), pixel
/// for pixel and without blending; pixels that fall outside `bottom`,
/// also at negative positions, are left out.
pub fn replace(bottom: &mut Raster, top: &Raster, x: i32, y: i32)
    requires
        old(bottom).wf(),
        top.wf(),
    ensures
        final(bottom).wf(),
        final(bottom).width == old(bottom).width,
        final(bottom).height == old(bottom).height,
        final(bottom).data@ == blit(old(bottom).data@, old(bottom).width as int, top.data@,
            top.width as int, top.height as int, x as int, y as int),
{
    let ghost b0 = bottom.data@;
    let bw = bottom.width;
    let bh = bottom.height;
    let tw = top.width;
    let ghost th = top.height as int;
    let n = top.data.len();
    let mut i: usize = 0;
    while i < n
        invariant
            n == top.data.len() == 4 * tw * th,
            bottom.width == bw,
            bottom.height == bh,
            bottom.wf(),
            b0.len() == bottom.data.len(),
            i <= n,
            forall|j: int| 0 <= j < b0.len() ==> {
                let s = source_index(bw as int, tw as int, th, x as int, y as int, j);
                #[trigger] bottom.data[j] == if 0 <= s < i { top.data[s] } else { b0[j] }
            },
        decreases n - i,
    {
        proof {
            assert(tw > 0) by (nonlinear_arith) requires i < n, n == 4 * tw * th;
        }
        let p = i / 4;
        let px: i64 = (p % (tw as usize)) as i64 + x as i64;
        let py: i64 = (p / (tw as usize)) as i64 + y as i64;
        if 0 <= px && px < bw as i64 && 0 <= py && py < bh as i64 {
            proof {
                lemma_source_of_target(bw as int, bh as int, tw as int, th, x as int, y as int, i as int);
                assert(py * bw + px < bw * bh) by (nonlinear_arith)
                    requires 0 <= px < bw, 0 <= py < bh;
            }
            let dst: usize = 4 * ((py as usize) * (bw as usize) + px as usize) + i % 4;
            let v = top.data[i];
            bottom.data.set(dst, v);
            proof {
                assert forall|j: int| 0 <= j < b0.len() implies {
                    let s = source_index(bw as int, tw as int, th, x as int, y as int, j);
                    #[trigger] bottom.data[j] == if 0 <= s < i + 1 { top.data[s] } else { b0[j] }
                } by {
                    let s = source_index(bw as int, tw as int, th, x as int, y as int, j);
                    if j != dst as int && s == i as int {
                        lemma_target_of_source(bw as int, bh as int, tw as int, th, x as int, y as int, j);
                        let q = j / 4;
                        lemma_fundamental_div_mod(j, 4);
                        lemma_fundamental_div_mod(q, bw as int);
                        assert(j == 4 * ((q / bw as int) * bw + q % bw as int) + j % 4) by (nonlinear_arith)
                            requires j == 4 * q + j % 4, q == bw * (q / bw as int) + q % bw as int;
                        assert(j == dst as int);
                    }
                }
            }
        } else {
            proof {
                assert forall|j: int| 0 <= j < b0.len() implies {
                    let s = source_index(bw as int, tw as int, th, x as int, y as int, j);
                    #[trigger] bottom.data[j] == if 0 <= s < i + 1 { top.data[s] } else { b0[j] }
                } by {
                    let s = source_index(bw as int, tw as int, th, x as int, y as int, j);
                    if s == i as int {
                        lemma_target_of_source(bw as int, bh as int, tw as int, th, x as int, y as int, j);
                    }
                }
            }
        }
        i = i + 1;
    }
    proof {
        assert forall|j: int| 0 <= j < b0.len() implies
            #[trigger] bottom.data@[j] == blit(b0, bw as int, top.data@, tw as int, th, x as int, y as int)[j]
        by {
            if source_index(bw as int, tw as int, th, x as int, y as int, j) >= 0 {
                assert(bw > 0) by (nonlinear_arith) requires 0 <= j < 4 * bw * bh;
                lemma_target_of_source(bw as int, bh as int, tw as int, th, x as int, y as int, j);
            }
        }
        assert(bottom.data@ =~= blit(b0, bw as int, top.data@, tw as int, th, x as int, y as int));
    }
}

/// The image that PNG bytes hold, as width, height and premultiplied RGBA
/// bytes, or `None` where they hold no image that can be decoded.
pub uninterp spec fn png_image(bytes: Seq<u8>) -> Option<(u32, u32, Seq<u8>)>;

/// Relies on `tiny_skia::Pixmap::decode_png`: the decoded image is at least
/// one pixel wide and high, with four premultiplied RGBA bytes a pixel, and
/// depends on the bytes alone.
#[verifier::external_body]
pub(crate) fn decode_png(bytes: &[u8]) -> (r: Result<Raster, png::DecodingError>)
    ensures
        match r {
            Ok(img) => png_image(bytes@) == Some((img.width, img.height, img.data@)) && img.wf()
                && img.width >= 1 && img.height >= 1,
            Err(_) => png_image(bytes@) is None,
        },
{
    match tiny_skia::Pixmap::decode_png(bytes) {
        Ok(p) => Ok(Raster { width: p.width(), height: p.height(), data: p.take() }),
        Err(e) => Err(e),
    }
}

} // verus!
