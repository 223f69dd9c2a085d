use vzense_rust::error::ErrorKind;
use vzense_rust::touch_detector::TouchDetector;

/// Little-endian raw frame bytes for the given per-pixel depths.
fn frame_bytes(depths: &[u16]) -> Vec<u8> {
    let mut bytes = Vec::new();
    for d in depths {
        bytes.push((d & 0xFF) as u8);
        bytes.push((d >> 8) as u8);
    }
    bytes
}

fn run_frame(d: &mut TouchDetector, depths: &[u16]) -> (Vec<u8>, Vec<i64>) {
    let mut touch_signal = vec![0u8; d.pixel_count];
    let mut distance = vec![0i64; d.pixel_count];
    let r = d.process(&frame_bytes(depths), true, &mut touch_signal, &mut distance);
    assert_eq!(r, Ok(()));
    (touch_signal, distance)
}

#[test]
fn end_to_end_scenario() {
    // 5.0 mm and 50.0 mm expressed in thousandths of a millimeter.
    let mut d = TouchDetector::new(0, 1000, 5_000, 50_000, 2, 2, 4).unwrap();

    let (signal, _) = run_frame(&mut d, &[100, 100, 100, 100]);
    assert_eq!(signal, vec![0, 0, 0, 0]);
    let (signal, _) = run_frame(&mut d, &[100, 100, 100, 100]);
    assert_eq!(signal, vec![0, 0, 0, 0]);

    // Baseline is now 100.0 mm per pixel (sum 200 over 2 frames).
    assert_eq!(d.get_baseline(), vec![100_000, 100_000, 100_000, 100_000]);

    // Window shifts to 100 + 70 = 170 over 2 frames: average 85.0 mm,
    // diff = 100 - 85 = 15.0 mm, inside (5, 50): touch everywhere.
    let (signal, distance) = run_frame(&mut d, &[70, 70, 70, 70]);
    assert_eq!(signal, vec![255, 255, 255, 255]);
    // distance carries the numerator over baseline_sample_size * sample_size = 4:
    // 15.0 mm * 4 = 60.
    assert_eq!(distance, vec![60, 60, 60, 60]);
}

#[test]
fn touch_classification_boundary() {
    let mut d = TouchDetector::new(0, 1000, 5_000, 50_000, 1, 1, 1).unwrap();

    // Warm-up frame: baseline 100, window 100, diff 0.
    let (signal, distance) = run_frame(&mut d, &[100]);
    assert_eq!(signal, vec![0]);
    assert_eq!(distance, vec![0]);

    // diff exactly 5.0 mm: strictly open interval, no touch.
    let (signal, distance) = run_frame(&mut d, &[95]);
    assert_eq!(signal, vec![0]);
    assert_eq!(distance, vec![5]);

    // diff exactly 50.0 mm: still no touch.
    let (signal, distance) = run_frame(&mut d, &[50]);
    assert_eq!(signal, vec![0]);
    assert_eq!(distance, vec![50]);

    // diff 25.0 mm: inside the band.
    let (signal, distance) = run_frame(&mut d, &[75]);
    assert_eq!(signal, vec![255]);
    assert_eq!(distance, vec![25]);
}

#[test]
fn rejected_frame_leaves_state_untouched() {
    let mut d = TouchDetector::new(0, 1000, 5_000, 50_000, 2, 2, 4).unwrap();
    run_frame(&mut d, &[100, 110, 120, 130]);
    run_frame(&mut d, &[90, 100, 110, 120]);

    let baseline_before = d.baseline_depth_sum.clone();
    let depth_sum_before = d.depth_sum.clone();
    let ring_before = d.ring_buffer.clone();
    let sample_before = d.sample;
    let baseline_sample_before = d.baseline_sample;

    // Seven bytes for four pixels: one byte short.
    let mut touch_signal = vec![9u8; 4];
    let mut distance = vec![7i64; 4];
    let truncated = vec![0u8; 7];
    let r = d.process(&truncated, true, &mut touch_signal, &mut distance);
    assert_eq!(r, Err(ErrorKind::FrameSizeMismatch));

    assert_eq!(d.baseline_depth_sum, baseline_before);
    assert_eq!(d.depth_sum, depth_sum_before);
    assert_eq!(d.ring_buffer, ring_before);
    assert_eq!(d.sample, sample_before);
    assert_eq!(d.baseline_sample, baseline_sample_before);
    assert_eq!(touch_signal, vec![9u8; 4]);
    assert_eq!(distance, vec![7i64; 4]);
}

#[test]
fn non_depth_frame_is_a_no_op() {
    let mut d = TouchDetector::new(0, 1000, 5_000, 50_000, 2, 2, 2).unwrap();
    run_frame(&mut d, &[100, 100]);

    let baseline_before = d.baseline_depth_sum.clone();
    let depth_sum_before = d.depth_sum.clone();
    let ring_before = d.ring_buffer.clone();
    let sample_before = d.sample;
    let baseline_sample_before = d.baseline_sample;

    let mut touch_signal = vec![1u8; 2];
    let mut distance = vec![2i64; 2];
    let r = d.process(&frame_bytes(&[50, 50]), false, &mut touch_signal, &mut distance);
    assert_eq!(r, Err(ErrorKind::NotADepthFrame));

    assert_eq!(d.baseline_depth_sum, baseline_before);
    assert_eq!(d.depth_sum, depth_sum_before);
    assert_eq!(d.ring_buffer, ring_before);
    assert_eq!(d.sample, sample_before);
    assert_eq!(d.baseline_sample, baseline_sample_before);
    assert_eq!(touch_signal, vec![1u8; 2]);
    assert_eq!(distance, vec![2i64; 2]);
}

#[test]
fn baseline_freezes_after_warmup() {
    let mut d = TouchDetector::new(0, 1000, 5_000, 50_000, 2, 3, 1).unwrap();
    run_frame(&mut d, &[100]);
    run_frame(&mut d, &[120]);
    assert_eq!(d.baseline_sample, 2);
    let frozen = d.baseline_depth_sum.clone();
    assert_eq!(frozen, vec![220]);

    for depth in [10u16, 500, 900, 33, 77] {
        run_frame(&mut d, &[depth]);
        assert_eq!(d.baseline_depth_sum, frozen);
        assert_eq!(d.baseline_sample, 2);
    }
    assert_eq!(d.get_baseline(), vec![110_000]);
}

#[test]
fn depth_sum_tracks_last_window() {
    let mut d = TouchDetector::new(0, 1000, 5_000, 50_000, 1, 3, 1).unwrap();
    for depth in [10u16, 20, 30, 40, 50] {
        run_frame(&mut d, &[depth]);
    }
    // The sliding sum is exactly the last three decoded depths.
    assert_eq!(d.depth_sum, vec![30 + 40 + 50]);
    // The ring holds those three depths, one per slot.
    let mut ring = d.ring_buffer.clone();
    ring.sort();
    assert_eq!(ring, vec![30, 40, 50]);
}

#[test]
fn decoded_depths_are_clamped_in_process() {
    // Raw 0 and raw 65535 both clamp into [200, 300].
    let mut d = TouchDetector::new(200, 300, 5_000, 50_000, 1, 1, 2).unwrap();
    run_frame(&mut d, &[0, 65535]);
    assert_eq!(d.depth_sum, vec![200, 300]);
    assert_eq!(d.ring_buffer, vec![200, 300]);
}

#[test]
fn warming_divides_by_full_baseline_window() {
    // After 1 of 2 warm-up frames the baseline average divides the one-frame
    // sum by the full window length, biasing the early baseline low.
    let mut d = TouchDetector::new(0, 1000, 5_000, 50_000, 2, 1, 1).unwrap();
    // The first frame's diff already divides the one-frame baseline sum by 2:
    // baseline 100/2 against window 100/1 gives diff_num = 100*1 - 100*2 = -100,
    // an artificially negative distance during warm-up.
    let (signal, distance) = run_frame(&mut d, &[100]);
    assert_eq!(signal, vec![0]);
    assert_eq!(distance, vec![-100]);
    // 100 * 1000 / 2, not 100 * 1000 / 1.
    assert_eq!(d.get_baseline(), vec![50_000]);
    // Once the warm-up completes the bias is gone.
    let (signal, distance) = run_frame(&mut d, &[100]);
    assert_eq!(signal, vec![0]);
    assert_eq!(distance, vec![0]);
}

#[test]
fn reads_are_idempotent() {
    let mut d = TouchDetector::new(0, 1000, 5_000, 50_000, 2, 2, 3).unwrap();
    run_frame(&mut d, &[100, 200, 300]);
    run_frame(&mut d, &[110, 190, 310]);

    let b1 = d.get_baseline();
    let b2 = d.get_baseline();
    assert_eq!(b1, b2);

    let mut a1 = vec![0u8; 3];
    let mut a2 = vec![0u8; 3];
    d.get_normalized_average_depth(&mut a1);
    d.get_normalized_average_depth(&mut a2);
    assert_eq!(a1, a2);
}

#[test]
fn normalized_average_depth_values() {
    let mut d = TouchDetector::new(0, 1000, 5_000, 50_000, 2, 2, 1).unwrap();
    run_frame(&mut d, &[100]);
    run_frame(&mut d, &[70]);
    // Window sum 170 over 2 frames: average 85.0 mm, (85 - 0) * 255 / 1000
    // rounds down to 21.
    let mut avg = vec![0u8; 1];
    d.get_normalized_average_depth(&mut avg);
    assert_eq!(avg, vec![21]);
}

#[test]
fn normalized_average_depth_clips_below_range() {
    // One frame into a window of two: the zero-filled slot drags the
    // average below the measuring range, which clips to 0.
    let mut d = TouchDetector::new(500, 1000, 5_000, 50_000, 1, 2, 1).unwrap();
    run_frame(&mut d, &[600]);
    let mut avg = vec![9u8; 1];
    d.get_normalized_average_depth(&mut avg);
    assert_eq!(avg, vec![0]);
}

#[test]
fn invalid_configurations_are_rejected() {
    // Measuring range inverted or empty.
    assert!(matches!(
        TouchDetector::new(1000, 1000, 5_000, 50_000, 2, 2, 4),
        Err(ErrorKind::InvalidRange)
    ));
    assert!(matches!(
        TouchDetector::new(1000, 500, 5_000, 50_000, 2, 2, 4),
        Err(ErrorKind::InvalidRange)
    ));
    // Touch band inverted or empty.
    assert!(matches!(
        TouchDetector::new(0, 1000, 50_000, 5_000, 2, 2, 4),
        Err(ErrorKind::InvalidRange)
    ));
    assert!(matches!(
        TouchDetector::new(0, 1000, 5_000, 5_000, 2, 2, 4),
        Err(ErrorKind::InvalidRange)
    ));
    // Zero-length averaging windows.
    assert!(matches!(
        TouchDetector::new(0, 1000, 5_000, 50_000, 0, 2, 4),
        Err(ErrorKind::InvalidRange)
    ));
    assert!(matches!(
        TouchDetector::new(0, 1000, 5_000, 50_000, 2, 0, 4),
        Err(ErrorKind::InvalidRange)
    ));
}

#[test]
fn fresh_detector_starts_empty() {
    let d = TouchDetector::new(0, 1000, 5_000, 50_000, 3, 2, 2).unwrap();
    assert_eq!(d.baseline_depth_sum, vec![0, 0]);
    assert_eq!(d.depth_sum, vec![0, 0]);
    assert_eq!(d.ring_buffer, vec![0, 0, 0, 0]);
    assert_eq!(d.sample, 0);
    assert_eq!(d.baseline_sample, 0);
    assert_eq!(d.pixel_count, 2);
}
