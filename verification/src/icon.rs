//! Icon pixel conversion for the native windowing layer.
//!
//! The OS tray and window icons want a BGRA color buffer plus an
//! inverted alpha mask, while decoded images come as RGBA. The
//! conversion is pure byte shuffling and is verified exactly: only the
//! decode itself is delegated.

use vstd::prelude::*;

use crate::thumbnail::{decode_rgba, decoded_image};

verus! {

/// Why an icon could not be built.
#[derive(Clone, Copy, Debug, PartialEq, Eq, Structural)]
pub enum IconError {
    /// The bytes do not decode as an image.
    Undecodable,
}

/// `bgra` and `mask` are the native icon buffers of the RGBA image
/// `px` of dimensions `w` by `h`: the color buffer has red and blue
/// swapped, and each mask byte is the pixel's alpha plus one, wrapping.
pub open spec fn icon_buffers_of(bgra: Seq<u8>, mask: Seq<u8>, px: Seq<u8>, w: u32, h: u32) -> bool {
    &&& bgra.len() == px.len()
    &&& mask.len() == w * h
    &&& forall|p: int|
        0 <= p < w * h ==> {
            &&& (#[trigger] bgra[4 * p]) == px[4 * p + 2]
            &&& bgra[4 * p + 1] == px[4 * p + 1]
            &&& bgra[4 * p + 2] == px[4 * p]
            &&& bgra[4 * p + 3] == px[4 * p + 3]
            &&& mask[p] == (px[4 * p + 3] + 1) % 256
        }
}

/// Builds the native icon buffers from the bytes of an image file: the
/// BGRA color buffer, the inverted alpha mask, and the icon's pixel
/// dimensions. Fails exactly when the bytes do not decode.
pub fn create_icon_buffer(data: &Vec<u8>) -> (r: Result<(Vec<u8>, Vec<u8>, u32, u32), IconError>)
    ensures
        (match decoded_image(data@) {
            Some((px, w, h)) => r matches Ok(b) && b.2 == w && b.3 == h && icon_buffers_of(
                b.0@,
                b.1@,
                px,
                w,
                h,
            ),
            None => r == Err::<(Vec<u8>, Vec<u8>, u32, u32), IconError>(IconError::Undecodable),
        }),
{
    let decoded = decode_rgba(data);
    match decoded {
        Some((px, w, h)) => {
            let ghost spx = px@;
            let mut bgra: Vec<u8> = Vec::new();
            let mut mask: Vec<u8> = Vec::new();
            proof {
                vstd::std_specs::vec::axiom_spec_len(&px);
            }
            let count: usize = (px.len()) / 4;
            proof {
                assert(count == w * h && 4 * count == px@.len()) by (nonlinear_arith)
                    requires
                        px@.len() == 4 * w * h,
                        count == px@.len() as int / 4,
                {}
            }
            let mut p: usize = 0;
            while p < count
                invariant
                    p <= count,
                    px@ == spx,
                    px@.len() == 4 * count,
                    px@.len() <= usize::MAX,
                    bgra@.len() == 4 * p,
                    mask@.len() == p,
                    forall|q: int|
                        0 <= q < p ==> {
                            &&& (#[trigger] bgra@[4 * q]) == spx[4 * q + 2]
                            &&& bgra@[4 * q + 1] == spx[4 * q + 1]
                            &&& bgra@[4 * q + 2] == spx[4 * q]
                            &&& bgra@[4 * q + 3] == spx[4 * q + 3]
                            &&& mask@[q] == (spx[4 * q + 3] + 1) % 256
                        },
                decreases count - p,
            {
                let base: usize = 4 * p;
                bgra.push(px[base + 2]);
                bgra.push(px[base + 1]);
                bgra.push(px[base]);
                bgra.push(px[base + 3]);
                let alpha = px[base + 3];
                let inverted: u8 = if alpha == 255 {
                    0
                } else {
                    alpha + 1
                };
                mask.push(inverted);
                proof {
                    assert(bgra@.len() == 4 * p + 4);
                    assert(bgra@[4 * p] == spx[4 * p + 2]);
                    assert(bgra@[4 * p + 1] == spx[4 * p + 1]);
                    assert(bgra@[4 * p + 2] == spx[4 * p]);
                    assert(bgra@[4 * p + 3] == spx[4 * p + 3]);
                    assert(mask@[p as int] == (spx[4 * p + 3] + 1) % 256);
                }
                p += 1;
            }
            proof {
                assert(px@.len() == 4 * (w * h)) by (nonlinear_arith)
                    requires
                        px@.len() == 4 * w * h,
                {}
                assert(mask@.len() == w * h);
                assert(icon_buffers_of(bgra@, mask@, spx, w, h));
            }
            Ok((bgra, mask, w, h))
        },
        None => Err(IconError::Undecodable),
    }
}

} // verus!
