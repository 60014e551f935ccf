use purple_capture::capture::{flip_frame, frame_timestamp, video_step};

#[test]
fn frames_are_flipped_cropped_and_padded() {
    // A 2 x 2 frame: row 0 holds bytes 0..8, row 1 bytes 8..16.
    let pixels: Vec<u8> = (0..16).collect();
    let same = flip_frame(&pixels, 2, 2, 2, 2);
    let expected: Vec<u8> = (8..16).chain(0..8).collect();
    assert_eq!(same, expected);
    // Larger target: the frame is put at the bottom, rows reversed, the rest black.
    let padded = flip_frame(&pixels, 2, 2, 3, 3);
    assert_eq!(padded.len(), 36);
    assert_eq!(&padded[0..12], &[0; 12]);
    assert_eq!(&padded[12..20], &pixels[8..16]);
    assert_eq!(&padded[20..24], &[0; 4]);
    assert_eq!(&padded[24..32], &pixels[0..8]);
    assert_eq!(&padded[32..36], &[0; 4]);
    // Smaller target: only the top-left part is kept.
    let cropped = flip_frame(&pixels, 2, 2, 1, 1);
    assert_eq!(cropped, pixels[0..4].to_vec());
}

#[test]
fn time_stamps_follow_the_frame_grid() {
    let frame_ticks = 333_333;
    assert_eq!(frame_timestamp(false, 0, 33_333_333, frame_ticks), 0);
    assert_eq!(frame_timestamp(false, 50_000_000, 33_333_333, frame_ticks), 333_333);
    assert_eq!(frame_timestamp(false, 100_000_000, 33_333_333, frame_ticks), 999_999);
    assert_eq!(frame_timestamp(true, 100_000_000, 33_333_333, frame_ticks), 666_666);
    assert_eq!(frame_timestamp(true, 10, 33_333_333, frame_ticks), 0);
}

#[test]
fn video_passes_send_each_time_stamp_once() {
    let first = video_step(false, false, 500, None, true);
    assert_eq!(first.sends, vec![0, 500]);
    assert_eq!(first.last, Some(500));
    let start = video_step(false, false, 0, None, true);
    assert_eq!(start.sends, vec![0]);
    assert_eq!(start.last, Some(0));
    let again = video_step(false, false, 500, Some(500), true);
    assert!(again.sends.is_empty());
    assert_eq!(again.last, Some(500));
    let next = video_step(false, false, 900, Some(500), true);
    assert_eq!(next.sends, vec![900]);
    let paused = video_step(false, true, 900, Some(500), true);
    assert!(paused.sends.is_empty());
    let stopping = video_step(true, true, 900, Some(500), true);
    assert_eq!(stopping.sends, vec![900]);
    let no_frame = video_step(false, false, 900, Some(500), false);
    assert!(no_frame.sends.is_empty());
    assert_eq!(no_frame.last, Some(500));
}

#[test]
fn recording_time_stamps_lie_on_the_frame_grid() {
    for elapsed in [0_u64, 1, 33_333_333, 50_000_000, 123_456_789, 10_000_000_000] {
        let t = frame_timestamp(false, elapsed, 16_666_666, 166_666);
        assert_eq!(t % 166_666, 0);
        assert!(t >= 0);
    }
}
