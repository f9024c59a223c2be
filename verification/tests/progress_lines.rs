use vidscale::progress::{
    emitted_etas, eta_millis, parse_progress_line, process_line, ProgressFrames, ProgressLine,
};

const P7_LINE: &[u8] =
    b"frame=  120 fps=30 q=25 size= 1024kB time=00:00:04.00 bitrate=2097.2kbits/s frame= 500 speed=1.2x";

#[test]
fn progress_line_yields_both_frame_counters() {
    assert_eq!(
        parse_progress_line(P7_LINE),
        Some(ProgressFrames { current: 120, total: 500 })
    );
}

#[test]
fn eta_formula_matches_elapsed_over_current_times_remaining() {
    // (10.0 s / 120) * (500 - 120) = 31.666... s; in whole milliseconds: 31666.
    assert_eq!(process_line(P7_LINE, 10_000), Some(31_666));
    assert_eq!(eta_millis(10_000, 120, 500), Some(31_666));
}

#[test]
fn zero_current_frame_emits_nothing() {
    let line = b"frame=   0 fps=30 q=25 frame= 500";
    assert_eq!(parse_progress_line(line), Some(ProgressFrames { current: 0, total: 500 }));
    assert_eq!(process_line(line, 10_000), None);
    assert_eq!(eta_millis(10_000, 0, 500), None);
}

#[test]
fn line_without_marker_is_skipped() {
    assert_eq!(process_line(b"size= 1024kB time=00:00:04.00", 10_000), None);
    assert_eq!(process_line(b"", 10_000), None);
}

#[test]
fn line_with_single_marker_is_skipped() {
    assert_eq!(process_line(b"frame=  120 fps=30 q=25", 10_000), None);
}

#[test]
fn line_with_unparsable_current_frame_is_skipped() {
    assert_eq!(process_line(b"frame= abc fps=30 frame= 500", 10_000), None);
}

#[test]
fn total_below_current_is_skipped() {
    assert_eq!(process_line(b"frame= 500 fps=30 frame= 120", 10_000), None);
}

#[test]
fn oversized_frame_number_is_skipped() {
    // One past the largest 64-bit value.
    assert_eq!(process_line(b"frame= 18446744073709551616 frame= 5", 10_000), None);
    // The largest 64-bit value itself still parses.
    assert_eq!(
        parse_progress_line(b"frame= 5 frame= 18446744073709551615"),
        Some(ProgressFrames { current: 5, total: 18_446_744_073_709_551_615 })
    );
}

#[test]
fn unpadded_frame_numbers_parse_too() {
    assert_eq!(
        parse_progress_line(b"frame=120 fps=30 frame=500"),
        Some(ProgressFrames { current: 120, total: 500 })
    );
}

#[test]
fn etas_are_emitted_once_per_line_in_arrival_order() {
    let samples = vec![
        ProgressLine { line: P7_LINE.to_vec(), elapsed_ms: 10_000 },
        ProgressLine { line: b"some unrelated diagnostic noise".to_vec(), elapsed_ms: 15_000 },
        ProgressLine { line: b"frame=  240 fps=30 q=25 frame= 500".to_vec(), elapsed_ms: 20_000 },
        ProgressLine { line: b"frame=   0 fps=30 q=25 frame= 500".to_vec(), elapsed_ms: 25_000 },
    ];
    // 20000 ms / 240 frames * 260 frames left = 21666 ms.
    assert_eq!(emitted_etas(&samples), vec![31_666, 21_666]);
}
