use moonbeam::encode::{
    counting_format_request, encode_format_request, encoder_settings, on_format_param, EncodeStats,
    FormatAction, FormatParam, Fraction, Size, VideoFormat, GOP_FILE, GOP_STREAM,
};

#[test]
fn encode_request_is_bgrx_only() {
    let r = encode_format_request();
    assert_eq!(r.default_format, VideoFormat::Bgrx);
    assert_eq!(r.formats, vec![VideoFormat::Bgrx]);
    assert_eq!(r.default_size, Size { width: 1920, height: 1080 });
    assert_eq!(r.min_size, Size { width: 1, height: 1 });
    assert_eq!(r.max_size, Size { width: 8192, height: 8192 });
    assert_eq!(r.default_rate, Fraction { num: 60, denom: 1 });
    assert_eq!(r.min_rate, Fraction { num: 0, denom: 1 });
    assert_eq!(r.max_rate, Fraction { num: 1000, denom: 1 });
}

#[test]
fn counting_request_offers_eight_layouts() {
    let r = counting_format_request();
    assert_eq!(r.default_format, VideoFormat::Bgrx);
    assert_eq!(r.formats.len(), 8);
    assert_eq!(r.formats[0], VideoFormat::Bgrx);
    assert_eq!(r.formats[7], VideoFormat::Argb);
    assert_eq!(r.max_size, Size { width: 8192, height: 8192 });
}

#[test]
fn first_bgrx_format_opens_encoder() {
    let p = FormatParam::Video { format: VideoFormat::Bgrx, width: 2960, height: 1848 };
    assert_eq!(on_format_param(false, p), FormatAction::OpenEncoder { width: 2960, height: 1848 });
    assert_eq!(on_format_param(true, p), FormatAction::Ignore);
}

#[test]
fn other_formats_are_rejected() {
    let p = FormatParam::Video { format: VideoFormat::Rgba, width: 10, height: 10 };
    assert_eq!(on_format_param(false, p), FormatAction::RejectFormat { format: VideoFormat::Rgba });
    assert_eq!(on_format_param(true, p), FormatAction::Ignore);
}

#[test]
fn non_format_params_are_ignored() {
    for p in [FormatParam::Absent, FormatParam::NotFormat, FormatParam::Unparsable] {
        assert_eq!(on_format_param(false, p), FormatAction::Ignore);
    }
}

#[test]
fn streaming_encoder_settings() {
    let s = encoder_settings(2960, 1848, 30_000_000, GOP_STREAM);
    assert_eq!(s.codec, "h264_nvenc");
    assert_eq!((s.width, s.height), (2960, 1848));
    assert_eq!(s.time_base, (1, 60));
    assert_eq!(s.frame_rate, (60, 1));
    assert_eq!((s.bit_rate, s.max_bit_rate), (30_000_000, 30_000_000));
    assert_eq!(s.gop, 30);
    assert_eq!(s.max_b_frames, 0);
    assert_eq!(
        s.options,
        vec![("preset", "p1"), ("tune", "ull"), ("rc", "cbr"), ("zerolatency", "1")]
    );
    assert_eq!(encoder_settings(1, 1, 5, GOP_FILE).gop, 60);
}

#[test]
fn pts_counts_frames() {
    let mut s = EncodeStats::new();
    assert_eq!(s.next_pts(), 0);
    assert_eq!(s.next_pts(), 1);
    assert_eq!(s.next_pts(), 2);
    assert_eq!(s.frames_in, 3);
    assert_eq!(s.packets_out, 0);
}

#[test]
fn progress_every_sixty_packets() {
    let mut s = EncodeStats::new();
    let mut lines = Vec::new();
    for i in 1..=180u64 {
        if s.record_streamed_packet() {
            lines.push(i);
        }
    }
    assert_eq!(lines, vec![60, 120, 180]);
    assert_eq!(s.packets_out, 180);
}

#[test]
fn written_packets_count_bytes() {
    let mut s = EncodeStats::new();
    s.record_written_packet(100);
    s.record_written_packet(23);
    assert_eq!((s.packets_out, s.bytes_out, s.frames_in), (2, 123, 0));
}
