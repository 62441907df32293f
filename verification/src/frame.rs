//! Decoded media units and the byte-level work that produces them.
//!
//! A decoder hands out image planes whose rows may be padded, and sample
//! buffers that may be longer than what they hold. The functions here cut
//! both down to the tightly packed buffers the rest of the pipeline owns.

use crate::time::Timestamp;
use vstd::prelude::*;

verus! {

/// One picture ready for display: packed rows of four bytes per pixel.
#[derive(Debug)]
pub struct VideoFrame {
    /// When the picture is due.
    pub pts: Timestamp,
    /// Row-major pixels, four bytes each, no padding between rows.
    pub video_data: Vec<u8>,
}

/// A run of interleaved output samples.
#[derive(Debug)]
pub struct AudioChunk<S> {
    /// When the first sample is due.
    pub pts: Timestamp,
    /// Samples, interleaved by channel.
    pub samples: Vec<S>,
}

/// Bytes in one packed row of `width` pixels.
pub open spec fn row_bytes(width: nat) -> nat {
    width * 4
}

/// Whether a plane of `src_len` bytes with rows `stride` bytes apart holds
/// `height` rows of `width` pixels.
pub open spec fn plane_covers(src_len: nat, stride: nat, width: nat, height: nat) -> bool {
    height == 0 || (height - 1) * stride + row_bytes(width) <= src_len
}

/// Whether `out` is the packed copy of the first `height` rows of `src`:
/// row `y` of `out` holds the first `row_bytes(width)` bytes found `y * stride`
/// bytes into `src`.
pub open spec fn is_packed(out: Seq<u8>, src: Seq<u8>, stride: nat, width: nat, height: nat) -> bool {
    &&& out.len() == row_bytes(width) * height
    &&& forall|y: int, x: int|
        0 <= y < height && 0 <= x < row_bytes(width) ==> #[trigger] out[y * row_bytes(width) + x]
            == src[y * stride + x]
}

/// `y * row + x` indexes row `y`, column `x` of `rows` packed rows.
proof fn lemma_cell_in_bounds(y: int, x: int, row: int, rows: int)
    requires
        0 <= y < rows,
        0 <= x < row,
    ensures
        0 <= y * row + x < row * rows,
{
    assert(y * row >= 0) by (nonlinear_arith)
        requires
            y >= 0,
            row > 0,
    ;
    assert(y * row + row <= row * rows) by (nonlinear_arith)
        requires
            y + 1 <= rows,
            row > 0,
    ;
}

/// Copies a decoded picture out of a plane with padded rows into a packed
/// buffer of `width * height` pixels.
///
/// Returns `None`, so that the caller skips the picture, when the plane is
/// too short to hold that many rows or the packed size does not fit in
/// memory.
pub fn video_frame_to_rgba_packed(src: &[u8], stride: usize, width: u32, height: u32) -> (r: Option<
    Vec<u8>,
>)
    ensures
        r is Some <==> plane_covers(src@.len(), stride as nat, width as nat, height as nat)
            && row_bytes(width as nat) * height <= usize::MAX,
        r matches Some(out) ==> is_packed(out@, src@, stride as nat, width as nat, height as nat),
{
    let src_len: usize = src.len();
    let rows: usize = height as usize;
    if rows == 0 {
        let out: Vec<u8> = Vec::new();
        assert(row_bytes(width as nat) * 0 == 0) by (nonlinear_arith);
        return Some(out);
    }
    let row: usize = match (width as usize).checked_mul(4) {
        Some(v) => v,
        None => {
            assert(row_bytes(width as nat) * height >= row_bytes(width as nat))
                by (nonlinear_arith)
                requires
                    height >= 1,
            ;
            return None;
        },
    };
    let total: usize = match row.checked_mul(rows) {
        Some(v) => v,
        None => {
            return None;
        },
    };
    let last: usize = match (rows - 1).checked_mul(stride) {
        Some(v) => v,
        None => {
            return None;
        },
    };
    match last.checked_add(row) {
        Some(end) => {
            if end > src_len {
                return None;
            }
        },
        None => {
            return None;
        },
    }
    let mut out: Vec<u8> = Vec::with_capacity(total);
    let mut y: usize = 0;
    while y < rows
        invariant
            y <= rows,
            last == (rows - 1) * stride,
            src_len == src@.len(),
            last + row <= src_len,
            total == row * rows,
            out@.len() == y * row,
            forall|yy: int, x: int|
                0 <= yy < y && 0 <= x < row ==> #[trigger] out@[yy * row + x] == src@[yy * stride
                    + x],
        decreases rows - y,
    {
        proof {
            assert(y * stride <= (rows - 1) * stride) by (nonlinear_arith)
                requires
                    0 <= y <= rows - 1,
                    stride >= 0,
            ;
            assert(y * row + row <= row * rows) by (nonlinear_arith)
                requires
                    0 <= y,
                    y + 1 <= rows,
                    row >= 0,
            ;
        }
        let src_off: usize = y * stride;
        let mut x: usize = 0;
        while x < row
            invariant
                x <= row,
                src_off == y * stride,
                src_len == src@.len(),
                src_off + row <= src_len,
                y * row + row <= usize::MAX,
                out@.len() == y * row + x,
                forall|yy: int, xx: int|
                    0 <= yy < y && 0 <= xx < row ==> #[trigger] out@[yy * row + xx] == src@[yy
                        * stride + xx],
                forall|xx: int| 0 <= xx < x ==> #[trigger] out@[y * row + xx] == src@[y * stride + xx],
            decreases row - x,
        {
            let ghost before = out@;
            out.push(src[src_off + x]);
            proof {
                assert forall|yy: int, xx: int| 0 <= yy < y && 0 <= xx < row implies #[trigger] out@[yy
                    * row + xx] == src@[yy * stride + xx] by {
                    lemma_cell_in_bounds(yy, xx, row as int, y as int);
                    assert(y * row == row * y) by (nonlinear_arith);
                    assert(before[yy * row + xx] == src@[yy * stride + xx]);
                }
                assert forall|xx: int| 0 <= xx < x + 1 implies #[trigger] out@[y * row + xx]
                    == src@[y * stride + xx] by {
                    if xx < x {
                        assert(before[y * row + xx] == src@[y * stride + xx]);
                    }
                }
            }
            x += 1;
        }
        proof {
            assert((y + 1) * row == y * row + row) by (nonlinear_arith);
            assert forall|yy: int, xx: int| 0 <= yy < y + 1 && 0 <= xx < row implies #[trigger] out@[yy
                * row + xx] == src@[yy * stride + xx] by {
                if yy == y {
                    assert(out@[y * row + xx] == src@[y * stride + xx]);
                }
            }
        }
        y += 1;
    }
    proof {
        assert(rows * row == row_bytes(width as nat) * height) by (nonlinear_arith)
            requires
                rows == height,
                row == row_bytes(width as nat),
        ;
    }
    Some(out)
}

/// Whether `out` is `bytes` cut into `count` consecutive four-byte words.
pub open spec fn is_split(out: Seq<[u8; 4]>, bytes: Seq<u8>, count: nat) -> bool {
    &&& out.len() == count
    &&& forall|i: int, k: int|
        0 <= i < count && 0 <= k < 4 ==> (#[trigger] out[i])@[k] == #[trigger] bytes[4 * i + k]
}

/// Cuts the leading `samples * channels` four-byte sample words out of a
/// decoder's buffer, dropping whatever padding follows them.
///
/// Returns `None`, so that the caller skips the chunk, when the buffer is
/// shorter than the sample count claims.
pub fn split_packed_samples(bytes: &[u8], samples: usize, channels: u16) -> (r: Option<
    Vec<[u8; 4]>,
>)
    ensures
        r is Some <==> samples * channels * 4 <= bytes@.len(),
        r matches Some(out) ==> is_split(out@, bytes@, (samples * channels) as nat),
{
    let len: usize = bytes.len();
    let count: usize = match samples.checked_mul(channels as usize) {
        Some(v) => v,
        None => {
            assert(samples * channels * 4 >= samples * channels) by (nonlinear_arith)
                requires
                    samples * channels >= 0,
            ;
            return None;
        },
    };
    let need: usize = match count.checked_mul(4) {
        Some(v) => v,
        None => {
            return None;
        },
    };
    if len < need {
        return None;
    }
    let mut out: Vec<[u8; 4]> = Vec::with_capacity(count);
    let mut i: usize = 0;
    while i < count
        invariant
            i <= count,
            len == bytes@.len(),
            count * 4 <= len,
            out@.len() == i,
            forall|j: int, k: int|
                0 <= j < i && 0 <= k < 4 ==> (#[trigger] out@[j])@[k] == #[trigger] bytes@[4 * j
                    + k],
        decreases count - i,
    {
        let at: usize = i * 4;
        let word: [u8; 4] = [bytes[at], bytes[at + 1], bytes[at + 2], bytes[at + 3]];
        out.push(word);
        i += 1;
    }
    Some(out)
}

} // verus!
