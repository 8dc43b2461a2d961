//! Pixel buffer layout: packing the rows of an RGBA image, which a decoder
//! may pad to a longer stride, into one tightly packed buffer; and the
//! plain descriptions of frame sizes and buffer planes.

use vstd::prelude::*;

verus! {

/// Size of the frames a hardware decoder is set up for.
#[derive(Debug, Clone, Copy, PartialEq, Eq, Structural)]
pub struct VAAPIDecoderParams {
    pub width: u32,
    pub height: u32,
}

/// Where one plane of a DMA buffer starts and how far apart its rows are.
#[derive(Debug, Clone, Copy, PartialEq, Eq, Structural)]
pub struct DrmPlane {
    pub offset: isize,
    pub stride: isize,
}

/// Bytes per RGBA pixel.
pub const RGBA_BYTES: usize = 4;

/// Whether the rows of an image `width` pixels wide and `height` rows high,
/// `stride` bytes apart, lie within `len` bytes and the packed image fits in
/// memory.
pub open spec fn spec_rows_fit(len: nat, width: nat, height: nat, stride: nat) -> bool {
    &&& width * 4 <= usize::MAX
    &&& width * 4 * height <= usize::MAX
    &&& height > 0 ==> (height - 1) * stride + width * 4 <= len
}

/// Copies the rows of an RGBA image out of `data`, where row `y` starts at
/// byte `y * stride`, into a buffer with no padding between rows.
pub fn rgba_tightly_packed(data: &[u8], width: usize, height: usize, stride: usize) -> (res: Vec<u8>)
    requires
        spec_rows_fit(data@.len(), width as nat, height as nat, stride as nat),
    ensures
        res@.len() == width * 4 * height,
        forall|y: int, x: int|
            0 <= y < height && 0 <= x < width * 4 ==> #[trigger] res@[y * (width * 4) + x] == data@[y
                * stride + x],
{
    let row_bytes: usize = width * RGBA_BYTES;
    let mut dst: Vec<u8> = Vec::new();
    let len: usize = data.len();
    let mut y: usize = 0;
    while y < height
        invariant
            len == data@.len(),
            row_bytes == width * 4,
            row_bytes * height <= usize::MAX,
            height > 0 ==> (height - 1) * stride + row_bytes <= data@.len(),
            0 <= y <= height,
            dst@.len() == y * row_bytes,
            forall|yy: int, x: int|
                0 <= yy < y && 0 <= x < row_bytes ==> #[trigger] dst@[yy * row_bytes + x] == data@[yy
                    * stride + x],
        decreases height - y,
    {
        proof {
            assert(y * stride <= (height - 1) * stride) by (nonlinear_arith)
                requires
                    y <= height - 1,
            ;
            assert((y + 1) * row_bytes <= row_bytes * height) by (nonlinear_arith)
                requires
                    y + 1 <= height,
            ;
            assert(y * stride + row_bytes <= data@.len());
        }
        let start: usize = y * stride;
        let row = vstd::slice::slice_subrange(data, start, start + row_bytes);
        let ghost before = dst@;
        dst.extend_from_slice(row);
        proof {
            assert(dst@ =~= before + row@);
            assert forall|yy: int, x: int|
                0 <= yy < y + 1 && 0 <= x < row_bytes implies #[trigger] dst@[yy * row_bytes + x]
                == data@[yy * stride + x] by {
                if yy < y {
                    assert(yy * row_bytes + x < y * row_bytes) by (nonlinear_arith)
                        requires
                            yy < y,
                            x < row_bytes,
                    ;
                    assert(dst@[yy * row_bytes + x] == before[yy * row_bytes + x]);
                } else {
                    assert(yy * row_bytes + x == y * row_bytes + x);
                    assert(dst@[yy * row_bytes + x] == row@[x]);
                }
            }
            assert((y + 1) * row_bytes == y * row_bytes + row_bytes) by (nonlinear_arith);
        }
        y = y + 1;
    }
    proof {
        assert(y * row_bytes == width * 4 * height) by (nonlinear_arith)
            requires
                y == height,
                row_bytes == width * 4,
        ;
    }
    dst
}

} // verus!
