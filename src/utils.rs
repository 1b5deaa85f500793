//! Conversion of premultiplied ARGB pixels, as raqote draws them, into
//! straight RGBA bytes.
use vstd::prelude::*;

verus! {

#[verifier::external_type_specification]
#[verifier::external_body]
#[verifier::reject_recursive_types(Backing)]
pub struct ExDrawTarget<Backing>(raqote::DrawTarget<Backing>);

/// The pixels of a draw target, row by row, each `(A << 24) | (R << 16) |
/// (G << 8) | B` with the colour premultiplied by alpha.
pub uninterp spec fn target_pixels(t: raqote::DrawTarget) -> Seq<u32>;

/// Relies on `raqote::DrawTarget::get_data`: the target's pixel buffer.
#[verifier::external_body]
fn target_data(t: &raqote::DrawTarget) -> (r: Vec<u32>)
    ensures
        r@ == target_pixels(*t),
{
    t.get_data().to_vec()
}

/// A premultiplied channel `c` divided by alpha `a`, back on the 0..=255
/// scale; unchanged where alpha is zero. The result keeps the low eight bits.
pub open spec fn unpremultiply(c: int, a: int) -> u8 {
    if a > 0 {
        ((c * 255 / a) % 256) as u8
    } else {
        c as u8
    }
}

/// The four RGBA bytes of one premultiplied ARGB pixel.
pub open spec fn pixel_rgba(p: u32) -> Seq<u8> {
    let a = (p / 0x100_0000) % 0x100;
    let r = (p / 0x1_0000) % 0x100;
    let g = (p / 0x100) % 0x100;
    let b = p % 0x100;
    seq![unpremultiply(r as int, a as int), unpremultiply(g as int, a as int),
        unpremultiply(b as int, a as int), a as u8]
}

/// The RGBA bytes of a sequence of premultiplied ARGB pixels.
pub open spec fn rgba_bytes(pixels: Seq<u32>) -> Seq<u8>
    decreases pixels.len(),
{
    if pixels.len() == 0 {
        Seq::empty()
    } else {
        rgba_bytes(pixels.drop_last()) + pixel_rgba(pixels.last())
    }
}

fn unpremultiply_channel(c: u32, a: u32) -> (r: u8)
    requires
        c < 256,
    ensures
        r == unpremultiply(c as int, a as int),
{
    if a > 0 {
        let v = c * 255 / a;
        (v % 256) as u8
    } else {
        c as u8
    }
}

/// Converts premultiplied ARGB pixels into straight RGBA bytes, four for
/// each pixel.
pub fn rgba_from_argb(pixels: &[u32]) -> (r: Vec<u8>)
    ensures
        r@ == rgba_bytes(pixels@),
{
    let mut out: Vec<u8> = Vec::new();
    let mut i: usize = 0;
    while i < pixels.len()
        invariant
            i <= pixels.len(),
            out@ == rgba_bytes(pixels@.take(i as int)),
        decreases pixels.len() - i,
    {
        let p = pixels[i];
        let a = (p / 0x100_0000) % 0x100;
        let r = (p / 0x1_0000) % 0x100;
        let g = (p / 0x100) % 0x100;
        let b = p % 0x100;
        let ghost before = out@;
        out.push(unpremultiply_channel(r, a));
        out.push(unpremultiply_channel(g, a));
        out.push(unpremultiply_channel(b, a));
        out.push(a as u8);
        proof {
            assert(pixels@.take(i + 1).drop_last() =~= pixels@.take(i as int));
            assert(out@ =~= before + pixel_rgba(p));
        }
        i = i + 1;
    }
    proof {
        assert(pixels@.take(pixels.len() as int) =~= pixels@);
    }
    out
}

/// The pixels of a raqote draw target as straight RGBA bytes.
pub fn into_rgba(target: raqote::DrawTarget) -> (r: Vec<u8>)
    ensures
        r@ == rgba_bytes(target_pixels(target)),
{
    let data = target_data(&target);
    rgba_from_argb(data.as_slice())
}

} // verus!
