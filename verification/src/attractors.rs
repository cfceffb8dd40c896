//! Attractor extraction: the bright pixels of a decoded frame.
//!
//! A frame arrives as a packed RGBA buffer (four bytes per pixel, row-major).
//! A pixel is an attractor when every channel is brighter than half active;
//! the extraction yields the pixel coordinates of all attractors in row-major
//! order.

use vstd::prelude::*;

verus! {

/// Every channel is above half active.
pub open spec fn spec_is_bright(r: u8, g: u8, b: u8, a: u8) -> bool {
    r > 127 && g > 127 && b > 127 && a > 127
}

/// The attractors among the first `n` pixels of a `w`-wide RGBA buffer, in
/// row-major order.
pub open spec fn spec_attractors_upto(w: u32, rgba: Seq<u8>, n: int) -> Seq<(u32, u32)>
    decreases n,
{
    if n <= 0 {
        Seq::empty()
    } else {
        let i = n - 1;
        let prev = spec_attractors_upto(w, rgba, i);
        if spec_is_bright(rgba[4 * i], rgba[4 * i + 1], rgba[4 * i + 2], rgba[4 * i + 3]) {
            prev.push(((i % (w as int)) as u32, (i / (w as int)) as u32))
        } else {
            prev
        }
    }
}

/// Whether the pixel is "close enough" to white: every color channel above
/// half active.
pub fn filter_white(color: [u8; 4]) -> (r: bool)
    ensures
        r == spec_is_bright(color[0], color[1], color[2], color[3]),
{
    color[0] > 255 / 2 && color[1] > 255 / 2 && color[2] > 255 / 2 && color[3] > 255 / 2
}

/// Collects the coordinates of every bright pixel of a decoded `w x h` RGBA
/// frame, in row-major order; every yielded coordinate lies within the frame.
pub fn get_attractors(width: u32, height: u32, rgba: &Vec<u8>) -> (r: Vec<(u32, u32)>)
    requires
        1 <= width,
        1 <= height,
        rgba@.len() == width * height * 4,
    ensures
        r@ == spec_attractors_upto(width, rgba@, (width * height) as int),
        forall|k: int|
            0 <= k < r@.len() ==> (#[trigger] r@[k]).0 < width && r@[k].1 < height,
    {
        let total: usize = (rgba.len()) / 4;
        proof {
            assert(rgba@.len() == rgba.len());
            assert((width * height * 4) as int / 4 == (width * height) as int) by (nonlinear_arith)
                requires
                    rgba@.len() == (width as int) * (height as int) * 4,
            ;
        }
        let mut out: Vec<(u32, u32)> = Vec::new();
        let mut i: usize = 0;
        while i < total
            invariant
                total == width * height,
                1 <= width,
                1 <= height,
                rgba@.len() == width * height * 4,
                rgba@.len() == rgba.len(),
                i <= total,
                out@ == spec_attractors_upto(width, rgba@, i as int),
                forall|k: int|
                    0 <= k < out@.len() ==> (#[trigger] out@[k]).0 < width && out@[k].1 < height,
            decreases total - i,
        {
            proof {
                assert(4 * (i as int) + 3 < rgba@.len() && (i as int) % (width as int)
                    < width as int && (i as int) / (width as int) < height as int && 0 <= (i as int)
                    / (width as int)) by (nonlinear_arith)
                    requires
                        1 <= width as int,
                        1 <= height as int,
                        0 <= i as int,
                        (i as int) < (width as int) * (height as int),
                        rgba@.len() == (width as int) * (height as int) * 4,
                ;
            }
            let color: [u8; 4] = [rgba[4 * i], rgba[4 * i + 1], rgba[4 * i + 2], rgba[4 * i + 3]];
            if filter_white(color) {
                let x = (i % (width as usize)) as u32;
                let y = (i / (width as usize)) as u32;
                out.push((x, y));
            }
            i += 1;
        }
        out
    }

} // verus!
