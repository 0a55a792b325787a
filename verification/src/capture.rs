//! Captured frames: the check that a producer's buffer holds a whole
//! frame, and the copy of its rows into the encoder's frame.
use vstd::prelude::*;

verus! {

/// Bytes per pixel of the BGRx frames that are captured and encoded.
pub const BYTES_PER_PIXEL: u32 = 4;

/// The captured buffer cannot hold the negotiated frame.
#[derive(Debug, PartialEq, Eq)]
pub enum CaptureError {
    /// The row stride is shorter than a row, or the buffer is shorter
    /// than `stride * height`.
    BufferTooSmall { stride: usize, size: usize, row_bytes: u64, height: u32 },
}

/// How the rows of an accepted buffer are copied.
#[derive(Debug, PartialEq, Eq, Clone, Copy)]
pub struct RowLayout {
    /// Bytes in one row of pixels.
    pub row_bytes: usize,
    /// Number of rows.
    pub rows: usize,
}

/// Whether a buffer of `size` bytes with rows `stride` bytes apart holds a
/// frame of `width` by `height` pixels.
pub open spec fn spec_buffer_fits(width: u32, height: u32, stride: usize, size: usize) -> bool {
    &&& stride >= BYTES_PER_PIXEL * width
    &&& size >= stride * height
}

/// Checks a captured buffer against the negotiated frame size.
pub fn check_buffer(width: u32, height: u32, stride: usize, size: usize) -> (r: Result<
    RowLayout,
    CaptureError,
>)
    ensures
        r is Ok <==> spec_buffer_fits(width, height, stride, size),
        r is Ok <==> (stride >= 4 * width && size >= stride * height),
        r matches Ok(layout) ==> layout.row_bytes == BYTES_PER_PIXEL * width && layout.rows
            == height,
        r matches Err(CaptureError::BufferTooSmall { stride: s, size: z, row_bytes, height: h })
            ==> s == stride && z == size && row_bytes == BYTES_PER_PIXEL * width && h == height,
{
    let row_bytes: u64 = (width as u64) * (BYTES_PER_PIXEL as u64);
    proof {
        assert((stride as int) * (height as int) <= 0xffff_ffff_ffff_ffff * 0xffff_ffff)
            by (nonlinear_arith)
            requires
                (stride as int) <= 0xffff_ffff_ffff_ffff,
                (height as int) <= 0xffff_ffff,
                0 <= stride,
                0 <= height,
        ;
    }
    let need: u128 = (stride as u128) * (height as u128);
    if (stride as u64) < row_bytes || (size as u128) < need {
        return Err(CaptureError::BufferTooSmall { stride, size, row_bytes, height });
    }
    Ok(RowLayout { row_bytes: row_bytes as usize, rows: height as usize })
}

/// Law: a buffer is accepted exactly when its stride holds a row of
/// four-byte pixels and it holds `height` strides; an accepted buffer
/// stays accepted when it grows, and a rejected one stays rejected when it
/// shrinks.
pub proof fn lemma_buffer_fits_monotone(width: u32, height: u32, stride: usize, size: usize, larger: usize)
    requires
        size <= larger,
    ensures
        spec_buffer_fits(width, height, stride, size) <==> (stride >= 4 * width && size >= stride
            * height),
        spec_buffer_fits(width, height, stride, size) ==> spec_buffer_fits(width, height, stride, larger),
        !spec_buffer_fits(width, height, stride, larger) ==> !spec_buffer_fits(width, height, stride, size),
{
}

/// Offset of row `y` in a buffer whose rows are `stride` bytes apart.
pub open spec fn row_offset(y: int, stride: int) -> int {
    y * stride
}

/// `dst` with `n` bytes from `src` at `src_off` written at `dst_off`.
pub open spec fn copy_span(dst: Seq<u8>, src: Seq<u8>, src_off: int, dst_off: int, n: int) -> Seq<
    u8,
> {
    Seq::new(
        dst.len(),
        |i: int|
            if dst_off <= i < dst_off + n {
                src[src_off + (i - dst_off)]
            } else {
                dst[i]
            },
    )
}

/// `dst` after rows `0..rows` of `src` have been copied into it, one
/// after the other, each `row_bytes` long.
pub open spec fn spec_copy_rows(
    dst: Seq<u8>,
    src: Seq<u8>,
    src_stride: int,
    dst_stride: int,
    row_bytes: int,
    rows: nat,
) -> Seq<u8>
    decreases rows,
{
    if rows == 0 {
        dst
    } else {
        let y = rows - 1;
        copy_span(
            spec_copy_rows(dst, src, src_stride, dst_stride, row_bytes, (rows - 1) as nat),
            src,
            row_offset(y, src_stride),
            row_offset(y, dst_stride),
            row_bytes,
        )
    }
}

/// Whether `rows` rows of `row_bytes` bytes, `stride` bytes apart, lie
/// within `len` bytes.
pub open spec fn spec_rows_fit(len: int, stride: int, row_bytes: int, rows: int) -> bool {
    rows > 0 ==> row_offset(rows - 1, stride) + row_bytes <= len
}

/// Whether `rows` rows of `row_bytes` bytes, `stride` bytes apart, lie
/// within `len` bytes.
pub fn rows_fit(len: usize, stride: usize, row_bytes: usize, rows: usize) -> (r: bool)
    ensures
        r == spec_rows_fit(len as int, stride as int, row_bytes as int, rows as int),
        r == (rows > 0 ==> (rows - 1) * stride + row_bytes <= len),
{
    if rows == 0 {
        return true;
    }
    proof {
        assert(((rows - 1) as int) * (stride as int) <= 0xffff_ffff_ffff_ffff
            * 0xffff_ffff_ffff_ffff) by (nonlinear_arith)
            requires
                (rows - 1) as int <= 0xffff_ffff_ffff_ffff,
                (stride as int) <= 0xffff_ffff_ffff_ffff,
                0 <= rows - 1,
                0 <= stride,
        ;
    }
    let last: u128 = ((rows - 1) as u128) * (stride as u128);
    last + (row_bytes as u128) <= len as u128
}

/// Copies `rows` rows of `row_bytes` bytes from `src`, whose rows are
/// `src_stride` bytes apart, into `dst`, whose rows are `dst_stride` bytes
/// apart; bytes of `dst` outside the copied rows keep their values.
pub fn copy_rows(
    src: &[u8],
    src_stride: usize,
    dst: &mut [u8],
    dst_stride: usize,
    row_bytes: usize,
    rows: usize,
)
    requires
        spec_rows_fit(src@.len() as int, src_stride as int, row_bytes as int, rows as int),
        spec_rows_fit(old(dst)@.len() as int, dst_stride as int, row_bytes as int, rows as int),
    ensures
        final(dst)@ == spec_copy_rows(
            old(dst)@,
            src@,
            src_stride as int,
            dst_stride as int,
            row_bytes as int,
            rows as nat,
        ),
{
    let ghost start = dst@;
    let src_len = src.len();
    let dst_len = dst.len();
    let mut y: usize = 0;
    while y < rows
        invariant
            0 <= y <= rows,
            dst@ == spec_copy_rows(
                start,
                src@,
                src_stride as int,
                dst_stride as int,
                row_bytes as int,
                y as nat,
            ),
            dst@.len() == start.len(),
            src_len == src@.len(),
            dst_len == start.len(),
            spec_rows_fit(src@.len() as int, src_stride as int, row_bytes as int, rows as int),
            spec_rows_fit(start.len() as int, dst_stride as int, row_bytes as int, rows as int),
        decreases rows - y,
    {
        proof {
            vstd::arithmetic::mul::lemma_mul_inequality(y as int, rows - 1, src_stride as int);
            vstd::arithmetic::mul::lemma_mul_inequality(y as int, rows - 1, dst_stride as int);
            assert((y as int) * (src_stride as int) + row_bytes <= src@.len());
            assert((y as int) * (dst_stride as int) + row_bytes <= dst@.len());
        }
        let s_off: usize = y * src_stride;
        let d_off: usize = y * dst_stride;
        let ghost row_start = dst@;
        let mut x: usize = 0;
        while x < row_bytes
            invariant
                0 <= x <= row_bytes,
                s_off == row_offset(y as int, src_stride as int),
                d_off == row_offset(y as int, dst_stride as int),
                s_off + row_bytes <= src@.len(),
                d_off + row_bytes <= row_start.len(),
                src_len == src@.len(),
                dst_len == row_start.len(),
                dst@ == copy_span(row_start, src@, s_off as int, d_off as int, x as int),
            decreases row_bytes - x,
        {
            dst[d_off + x] = src[s_off + x];
            assert(dst@ =~= copy_span(row_start, src@, s_off as int, d_off as int, x + 1));
            x = x + 1;
        }
        y = y + 1;
    }
}

/// The copy keeps the length of the destination.
pub proof fn lemma_copy_rows_len(
    dst: Seq<u8>,
    src: Seq<u8>,
    src_stride: int,
    dst_stride: int,
    row_bytes: int,
    rows: nat,
)
    ensures
        spec_copy_rows(dst, src, src_stride, dst_stride, row_bytes, rows).len() == dst.len(),
    decreases rows,
{
    if rows > 0 {
        lemma_copy_rows_len(dst, src, src_stride, dst_stride, row_bytes, (rows - 1) as nat);
    }
}

/// Law: when destination rows do not overlap (`dst_stride >= row_bytes`),
/// byte `x` of row `y` of the destination is byte `x` of row `y` of the
/// source, for every copied row and column.
pub proof fn lemma_copy_rows_copies(
    dst: Seq<u8>,
    src: Seq<u8>,
    src_stride: int,
    dst_stride: int,
    row_bytes: int,
    rows: nat,
    y: int,
    x: int,
)
    requires
        0 <= y < rows,
        0 <= x < row_bytes,
        row_bytes <= dst_stride,
        spec_rows_fit(dst.len() as int, dst_stride, row_bytes, rows as int),
    ensures
        spec_copy_rows(dst, src, src_stride, dst_stride, row_bytes, rows)[row_offset(y, dst_stride) + x]
            == src[row_offset(y, src_stride) + x],
        spec_copy_rows(dst, src, src_stride, dst_stride, row_bytes, rows)[y * dst_stride + x]
            == src[y * src_stride + x],
    decreases rows,
{
    let last = rows - 1;
    let prev = spec_copy_rows(dst, src, src_stride, dst_stride, row_bytes, (rows - 1) as nat);
    lemma_copy_rows_len(dst, src, src_stride, dst_stride, row_bytes, (rows - 1) as nat);
    if y < last {
        assert(row_offset(last - 1, dst_stride) <= row_offset(last, dst_stride)) by (nonlinear_arith)
            requires
                0 <= last,
                0 <= dst_stride,
                row_offset(last - 1, dst_stride) == (last - 1) * dst_stride,
                row_offset(last, dst_stride) == last * dst_stride,
        ;
        lemma_copy_rows_copies(dst, src, src_stride, dst_stride, row_bytes, (rows - 1) as nat, y, x);
        assert(row_offset(y, dst_stride) + x < row_offset(last, dst_stride)) by (nonlinear_arith)
            requires
                0 <= y < last,
                0 <= x < row_bytes,
                row_bytes <= dst_stride,
                row_offset(y, dst_stride) == y * dst_stride,
                row_offset(last, dst_stride) == last * dst_stride,
        ;
    }
}

/// Law: bytes of the destination outside every copied row keep their
/// values.
pub proof fn lemma_copy_rows_keeps_rest(
    dst: Seq<u8>,
    src: Seq<u8>,
    src_stride: int,
    dst_stride: int,
    row_bytes: int,
    rows: nat,
    i: int,
)
    requires
        0 <= i < dst.len(),
        forall|y: int|
            0 <= y < rows ==> !(row_offset(y, dst_stride) <= i < #[trigger] row_offset(y, dst_stride)
                + row_bytes),
    ensures
        spec_copy_rows(dst, src, src_stride, dst_stride, row_bytes, rows)[i] == dst[i],
    decreases rows,
{
    if rows > 0 {
        lemma_copy_rows_len(dst, src, src_stride, dst_stride, row_bytes, (rows - 1) as nat);
        assert(!(row_offset(rows - 1, dst_stride) <= i < row_offset(rows - 1, dst_stride) + row_bytes));
        lemma_copy_rows_keeps_rest(dst, src, src_stride, dst_stride, row_bytes, (rows - 1) as nat, i);
    }
}

/// Law: an accepted buffer holds every row the copy reads: the last row
/// ends within the buffer's `size` bytes.
pub proof fn lemma_accepted_buffer_holds_rows(width: u32, height: u32, stride: usize, size: usize)
    requires
        spec_buffer_fits(width, height, stride, size),
    ensures
        spec_rows_fit(size as int, stride as int, BYTES_PER_PIXEL * width, height as int),
{
    if height > 0 {
        assert(row_offset(height - 1, stride as int) + stride == stride * height) by (
        nonlinear_arith)
            requires
                row_offset(height - 1, stride as int) == (height - 1) * stride,
        ;
    }
}

} // verus!
