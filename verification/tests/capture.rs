use moonbeam::capture::{check_buffer, copy_rows, rows_fit, CaptureError, RowLayout};

#[test]
fn buffer_that_holds_the_frame_is_accepted() {
    assert_eq!(check_buffer(2, 3, 8, 24), Ok(RowLayout { row_bytes: 8, rows: 3 }));
    assert_eq!(check_buffer(2, 3, 10, 30), Ok(RowLayout { row_bytes: 8, rows: 3 }));
    assert_eq!(check_buffer(2960, 1848, 11840, 11840 * 1848), Ok(RowLayout { row_bytes: 11840, rows: 1848 }));
}

#[test]
fn short_stride_is_rejected() {
    assert_eq!(
        check_buffer(2, 3, 7, 1000),
        Err(CaptureError::BufferTooSmall { stride: 7, size: 1000, row_bytes: 8, height: 3 })
    );
}

#[test]
fn short_buffer_is_rejected() {
    assert_eq!(
        check_buffer(2, 3, 8, 23),
        Err(CaptureError::BufferTooSmall { stride: 8, size: 23, row_bytes: 8, height: 3 })
    );
}

#[test]
fn huge_stride_does_not_wrap() {
    assert!(check_buffer(1, u32::MAX, usize::MAX, usize::MAX).is_err());
}

#[test]
fn rows_fit_bounds() {
    assert!(rows_fit(10, 4, 2, 3));
    assert!(!rows_fit(9, 4, 2, 3));
    assert!(rows_fit(0, 4, 2, 0));
    assert!(!rows_fit(usize::MAX, usize::MAX, 1, 3));
}

#[test]
fn copy_rows_moves_rows_between_strides() {
    // Two rows of three bytes; the source pads rows to 4, the
    // destination to 5.
    let src = [1u8, 2, 3, 99, 4, 5, 6, 99];
    let mut dst = [0u8; 10];
    copy_rows(&src, 4, &mut dst, 5, 3, 2);
    assert_eq!(dst, [1, 2, 3, 0, 0, 4, 5, 6, 0, 0]);
}

#[test]
fn copy_of_zero_rows_changes_nothing() {
    let src = [7u8; 4];
    let mut dst = [1u8, 2, 3];
    copy_rows(&src, 4, &mut dst, 1, 3, 0);
    assert_eq!(dst, [1, 2, 3]);
}
