use bytes::Bytes;
use macrdp::display::{
    next_frame, CaptureAction, CapturePixelFormat, CaptureStep, Captured, MacDisplay, UpdateAction,
    UpdateEvent,
};
use macrdp::encode::{
    EncodeAction, EncodeEvent, EncodedFrame, FrameStats, GfxStatus, MacDisplayUpdates,
};
use macrdp::frame::{
    frame_to_bitmap_updates, to_u16, CapturedFrame, FrameData, PixelFormat, Rect,
};
use macrdp::progressive::{ProgressiveAction, ProgressiveRamp};
use macrdp::rounding::{is_at_least_30_percent, is_below_half_percent, round, scale, DOUBLE, SINGLE};
use macrdp::update::{bitmap_update, can_make_bitmap, DesktopSize, DisplayUpdate};

#[test]
fn test_frame_to_bitmap_updates() {
    let frame = CapturedFrame {
        width: 100,
        height: 50,
        data: FrameData::Raw(Bytes::from(vec![0u8; 100 * 50 * 4])),
        stride: 400,
        timestamp_us: 0,
        dirty_rects: vec![],
    };

    let updates = frame_to_bitmap_updates(&frame, 64);
    assert_eq!(updates.len(), 2);
    assert_eq!(updates[0].x, 0);
    assert_eq!(updates[0].width, 64);
    assert_eq!(updates[1].x, 64);
    assert_eq!(updates[1].width, 36);
}

#[test]
fn test_frame_to_bitmap_updates_exact_tile() {
    let frame = CapturedFrame {
        width: 128,
        height: 64,
        data: FrameData::Raw(Bytes::from(vec![0u8; 128 * 64 * 4])),
        stride: 512,
        timestamp_us: 0,
        dirty_rects: vec![],
    };

    let updates = frame_to_bitmap_updates(&frame, 64);
    assert_eq!(updates.len(), 2);
}

#[test]
fn test_progressive_no_trigger_below_threshold() {
    let mut ramp = ProgressiveRamp::new();
    // 20% dirty — below 30% threshold
    let action = ramp.evaluate(200, 1000, 8_000_000);
    assert_eq!(action, ProgressiveAction::Unchanged);
    assert!(!ramp.is_ramping());
}

#[test]
fn test_progressive_triggers_on_scene_change() {
    let mut ramp = ProgressiveRamp::new();
    // 50% dirty — above threshold
    let action = ramp.evaluate(500, 1000, 8_000_000);
    match action {
        ProgressiveAction::SceneChange { bitrate, .. } => {
            // 8M * 0.25 = 2M
            assert_eq!(bitrate, 2_000_000);
        }
        other => panic!("Expected SceneChange, got {:?}", other),
    }
    assert!(ramp.is_ramping());
}

#[test]
fn test_progressive_ramp_sequence() {
    let mut ramp = ProgressiveRamp::new();
    let base = 10_000_000u32;

    // Trigger scene change
    let action = ramp.evaluate(1000, 1000, base);
    assert!(matches!(action, ProgressiveAction::SceneChange { .. }));

    // Ramp frames 1..4 should produce increasing bitrates
    let mut prev_bitrate = 0u32;
    for i in 0..4 {
        let action = ramp.evaluate(0, 1000, base);
        match action {
            ProgressiveAction::Ramp { bitrate } => {
                assert!(bitrate > prev_bitrate, "frame {i}: {bitrate} should be > {prev_bitrate}");
                assert!(bitrate < base, "frame {i}: {bitrate} should be < base {base}");
                prev_bitrate = bitrate;
            }
            other => panic!("frame {i}: expected Ramp, got {:?}", other),
        }
    }

    // Frame 5 should complete the ramp and restore base bitrate
    let action = ramp.evaluate(0, 1000, base);
    assert_eq!(action, ProgressiveAction::RampComplete { bitrate: base });
    assert!(!ramp.is_ramping());
}

#[test]
fn test_progressive_no_retrigger_during_ramp() {
    let mut ramp = ProgressiveRamp::new();
    // Trigger
    ramp.evaluate(1000, 1000, 8_000_000);
    // Another scene change during ramp should NOT re-trigger
    let action = ramp.evaluate(1000, 1000, 8_000_000);
    assert!(matches!(action, ProgressiveAction::Ramp { .. }));
}

#[test]
fn test_progressive_retrigger_after_ramp_complete() {
    let mut ramp = ProgressiveRamp::new();
    let base = 8_000_000;
    // Complete a full ramp
    ramp.evaluate(1000, 1000, base);
    for _ in 0..5 {
        ramp.evaluate(0, 1000, base);
    }
    assert!(!ramp.is_ramping());

    // Should be able to trigger again
    let action = ramp.evaluate(1000, 1000, base);
    assert!(matches!(action, ProgressiveAction::SceneChange { .. }));
}

#[test]
fn test_progressive_minimum_bitrate_floor() {
    let mut ramp = ProgressiveRamp::new();
    // Very low base bitrate: 1 Mbps * 0.25 = 250 Kbps, should clamp to 500 Kbps
    let action = ramp.evaluate(1000, 1000, 1_000_000);
    match action {
        ProgressiveAction::SceneChange { bitrate, .. } => {
            assert_eq!(bitrate, 500_000);
        }
        other => panic!("Expected SceneChange, got {:?}", other),
    }
}

#[test]
fn test_progressive_zero_total_pixels() {
    let mut ramp = ProgressiveRamp::new();
    let action = ramp.evaluate(0, 0, 8_000_000);
    assert_eq!(action, ProgressiveAction::Unchanged);
}

#[test]
fn test_progressive_exact_threshold() {
    let mut ramp = ProgressiveRamp::new();
    // Exactly 30% should trigger
    let action = ramp.evaluate(300, 1000, 8_000_000);
    assert!(matches!(action, ProgressiveAction::SceneChange { .. }));
}

#[test]
fn test_progressive_just_below_threshold() {
    let mut ramp = ProgressiveRamp::new();
    // 29.9% should not trigger
    let action = ramp.evaluate(299, 1000, 8_000_000);
    assert_eq!(action, ProgressiveAction::Unchanged);
}

// --- Rounding against floating point ---

fn noise(seed: &mut u64) -> u64 {
    *seed ^= *seed << 13;
    *seed ^= *seed >> 7;
    *seed ^= *seed << 17;
    *seed
}

#[test]
fn rounding_is_that_of_floating_point() {
    let mut seed = 88172645463325252u64;
    for i in 0..20000u32 {
        let n = noise(&mut seed) >> (i % 64);
        assert_eq!(round(n, DOUBLE), n as f64 as u128);
        assert_eq!(round(n, SINGLE), n as f32 as u128);
    }
    assert_eq!(round(u64::MAX, DOUBLE), u64::MAX as f64 as u128);
}

#[test]
fn ratio_tests_are_those_of_floating_point() {
    let mut seed = 362436069u64;
    for i in 0..20000u32 {
        let whole = (noise(&mut seed) >> (i % 60)).max(1);
        for part in [
            noise(&mut seed) % whole,
            whole / 10 * 3,
            (whole / 10 * 3).saturating_sub(1),
            whole / 200,
            whole / 200 + 1,
            whole,
        ] {
            let ratio = part as f64 / whole as f64;
            assert_eq!(is_at_least_30_percent(part, whole), ratio >= 0.30, "{part}/{whole}");
            assert_eq!(is_below_half_percent(part, whole), ratio < 0.005, "{part}/{whole}");
        }
    }
}

#[test]
fn ramp_bitrates_are_those_of_floating_point() {
    let mut seed = 521288629u64;
    for _ in 0..5000 {
        let base = noise(&mut seed) as u32;
        let mut ramp = ProgressiveRamp::new();
        let initial = 0.25f32;
        let expected = ((base as f32 * initial) as u32).max(500_000);
        assert_eq!(ramp.evaluate(1, 1, base), ProgressiveAction::SceneChange { bitrate: expected });
        for remaining in [4u32, 3, 2, 1] {
            let progress = 1.0 - (remaining as f32 / 5u32 as f32);
            let factor = initial + (1.0 - initial) * progress;
            let expected = ((base as f32 * factor) as u32).max(500_000);
            assert_eq!(ramp.evaluate(0, 1, base), ProgressiveAction::Ramp { bitrate: expected });
        }
    }
    assert_eq!(scale(u32::MAX, 0x200_0000), u32::MAX);
}

#[test]
fn bitrate_climbs_over_a_ramp() {
    for base in [0u32, 1, 499_999, 3_000_000, 123_456_789, u32::MAX] {
        let mut ramp = ProgressiveRamp::new();
        let mut last = match ramp.evaluate(30, 100, base) {
            ProgressiveAction::SceneChange { bitrate } => bitrate,
            other => panic!("{:?}", other),
        };
        for _ in 0..4 {
            match ramp.evaluate(0, 100, base) {
                ProgressiveAction::Ramp { bitrate } => {
                    assert!(bitrate >= last);
                    assert!(bitrate < base || bitrate == 500_000);
                    last = bitrate;
                }
                other => panic!("{:?}", other),
            }
        }
    }
}

// --- Tiles and bitmaps ---

fn picture(width: u32, height: u32, stride: usize) -> CapturedFrame {
    let data: Vec<u8> = (0..stride * height as usize).map(|i| (i % 251) as u8).collect();
    CapturedFrame {
        width,
        height,
        data: FrameData::Raw(Bytes::from(data)),
        stride,
        timestamp_us: 0,
        dirty_rects: vec![],
    }
}

fn pixels_of(frame: &CapturedFrame) -> Vec<u8> {
    match &frame.data {
        FrameData::Raw(bytes) => bytes.to_vec(),
        FrameData::PixelBuffer => vec![],
    }
}

#[test]
fn tiles_hold_the_pixels_of_the_frame() {
    let frame = picture(5, 3, 24);
    let all = pixels_of(&frame);
    let tiles = frame_to_bitmap_updates(&frame, 2);
    assert_eq!(tiles.len(), 6);
    let mut covered = 0;
    for tile in &tiles {
        assert_eq!(tile.format, PixelFormat::BgrA32);
        assert_eq!(tile.stride, tile.width as usize * 4);
        for dy in 0..tile.height as usize {
            for i in 0..tile.stride {
                assert_eq!(
                    tile.data[dy * tile.stride + i],
                    all[(tile.y as usize + dy) * 24 + tile.x as usize * 4 + i]
                );
            }
        }
        covered += tile.width as usize * tile.height as usize;
    }
    assert_eq!(covered, 15);
    assert_eq!((tiles[5].x, tiles[5].y, tiles[5].width, tiles[5].height), (4, 2, 1, 1));
}

#[test]
fn platform_buffers_have_no_tiles() {
    let mut frame = picture(4, 4, 16);
    frame.data = FrameData::PixelBuffer;
    assert!(frame_to_bitmap_updates(&frame, 2).is_empty());
}

#[test]
fn rows_beyond_the_data_are_left_out_of_tiles() {
    let mut frame = picture(2, 2, 8);
    frame.data = FrameData::Raw(Bytes::from(vec![1u8; 12]));
    let tiles = frame_to_bitmap_updates(&frame, 2);
    assert_eq!(tiles.len(), 1);
    assert_eq!(tiles[0].data.len(), 8);
}

#[test]
fn sizes_keep_their_lower_half() {
    assert_eq!(to_u16(0x1_0007), 7);
    assert!(frame_to_bitmap_updates(&picture(0, 9, 0), 2).is_empty());
}

#[test]
fn bitmap_is_the_box_of_what_changed() {
    let mut frame = picture(10, 8, 40);
    frame.dirty_rects = vec![
        Rect { x: 2, y: 3, width: 2, height: 1 },
        Rect { x: 5, y: 1, width: 20, height: 2 },
    ];
    let all = pixels_of(&frame);
    match bitmap_update(&frame) {
        Some(DisplayUpdate::Bitmap(b)) => {
            assert_eq!((b.x, b.y, b.width, b.height, b.stride), (2, 1, 8, 3, 32));
            for row in 0..3usize {
                assert_eq!(
                    &b.data[row * 32..row * 32 + 32],
                    &all[(row + 1) * 40 + 8..(row + 1) * 40 + 40]
                );
            }
        }
        other => panic!("{:?}", other),
    }
}

#[test]
fn bitmap_is_the_whole_frame_where_changes_are_unknown() {
    let frame = picture(3, 2, 12);
    match bitmap_update(&frame) {
        Some(DisplayUpdate::Bitmap(b)) => {
            assert_eq!((b.x, b.y, b.width, b.height, b.stride), (0, 0, 3, 2, 12));
            assert_eq!(b.data.to_vec(), pixels_of(&frame));
        }
        other => panic!("{:?}", other),
    }
    // Changes outside the frame count for nothing.
    let mut frame = picture(3, 2, 12);
    frame.dirty_rects = vec![Rect { x: 7, y: 0, width: 1, height: 1 }];
    assert!(matches!(bitmap_update(&frame), Some(DisplayUpdate::Bitmap(b)) if b.width == 3));
}

#[test]
fn empty_frames_have_no_bitmap() {
    assert!(bitmap_update(&picture(0, 2, 12)).is_none());
    assert!(bitmap_update(&picture(2, 0, 12)).is_none());
    assert!(bitmap_update(&picture(2, 0x1_0000, 0)).is_none());
    let mut frame = picture(2, 2, 8);
    frame.data = FrameData::PixelBuffer;
    assert!(matches!(bitmap_update(&frame), Some(DisplayUpdate::DefaultPointer)));
}

// --- The display ---

fn display(scale: Option<u32>) -> MacDisplay {
    MacDisplay::new(1920, 1080, false, 60, true, false, false, None, 8_000_000, scale)
}

#[test]
fn largest_size_follows_the_scale() {
    assert_eq!((display(Some(2)).max_width, display(Some(2)).max_height), (3840, 2160));
    assert_eq!((display(None).max_width, display(None).max_height), (3840, 2160));
    let small = MacDisplay::new(4000, 100, false, 60, true, false, false, Some(5), 9, None);
    assert_eq!((small.max_width, small.max_height, small.base_bitrate), (4000, 2160, 5));
    // The scaled width keeps its lower half.
    let wrapped = MacDisplay::new(40000, 10, false, 60, true, false, false, None, 9, Some(2));
    assert_eq!(wrapped.max_width, 40000);
    assert_eq!(display(None).base_bitrate, 8_000_000);
}

#[test]
fn clients_resize_up_to_the_largest_size() {
    let mut d = display(None);
    assert_eq!(d.request_resize(5000, 700), Some(DesktopSize { width: 3840, height: 700 }));
    assert_eq!(d.request_resize(1920, 1080), None);
    assert_eq!(d.request_resize(0, 700), None);
    d.adopt_size(DesktopSize { width: 3840, height: 700 }, 77);
    assert_eq!(d.size(), DesktopSize { width: 3840, height: 700 });
    assert_eq!(d.base_bitrate, 77);
    assert_eq!(d.request_resize(5000, 700), None);
    d.fixed_resolution = true;
    assert_eq!(d.request_resize(800, 600), None);
}

#[test]
fn capture_takes_platform_pixels_only_for_the_platform_encoder() {
    let mut d = display(None);
    assert_eq!(d.capture_config().pixel_format, CapturePixelFormat::Nv12);
    d.mode_444 = true;
    assert_eq!(d.capture_config().pixel_format, CapturePixelFormat::Bgra);
    d.mode_444 = false;
    d.hardware_encoder = false;
    let config = d.capture_config();
    assert_eq!(config.pixel_format, CapturePixelFormat::Bgra);
    assert_eq!((config.width, config.height, config.frame_rate), (1920, 1080, 60));
    assert!(!config.show_cursor);
}

#[test]
fn pointer_is_reported_where_it_moved() {
    let mut u = display(None).updates(true);
    assert!(matches!(u.next_update(UpdateEvent::Start), UpdateAction::ReadCursor));
    assert!(matches!(
        u.next_update(UpdateEvent::FirstCursor { x: 3, y: 4 }),
        UpdateAction::Finish(Some(DisplayUpdate::DefaultPointer))
    ));
    assert!(matches!(u.next_update(UpdateEvent::Start), UpdateAction::WaitEither));
    assert!(matches!(
        u.next_update(UpdateEvent::Cursor { x: 3, y: 4 }),
        UpdateAction::WaitEither
    ));
    assert!(matches!(
        u.next_update(UpdateEvent::Cursor { x: 3, y: 5 }),
        UpdateAction::Finish(Some(DisplayUpdate::PointerPosition { x: 3, y: 5 }))
    ));
    assert!(matches!(
        u.next_update(UpdateEvent::Cursor { x: 3, y: 5 }),
        UpdateAction::WaitEither
    ));
    assert!(matches!(u.next_update(UpdateEvent::Frame), UpdateAction::Encode));
    assert!(matches!(u.next_update(UpdateEvent::End), UpdateAction::Finish(None)));

    let mut shown = display(None);
    shown.show_cursor = true;
    assert!(matches!(
        shown.updates(true).next_update(UpdateEvent::Start),
        UpdateAction::WaitFrame
    ));
}

#[test]
fn stopped_capture_falls_back_until_it_restarts() {
    assert_eq!(next_frame(CaptureStep::Start), CaptureAction::Read);
    assert_eq!(next_frame(CaptureStep::Delivered(Captured::Nothing)), CaptureAction::Restart);
    assert_eq!(next_frame(CaptureStep::Restarted(false)), CaptureAction::UseFallback);
    assert_eq!(next_frame(CaptureStep::Fallback(true)), CaptureAction::HandOnFallback);
    assert_eq!(next_frame(CaptureStep::Fallback(false)), CaptureAction::Rest);
    assert_eq!(next_frame(CaptureStep::Rested), CaptureAction::Restart);
    assert_eq!(next_frame(CaptureStep::Restarted(true)), CaptureAction::Read);
    assert_eq!(next_frame(CaptureStep::Delivered(Captured::Idle)), CaptureAction::Read);
    assert_eq!(next_frame(CaptureStep::Delivered(Captured::Frame)), CaptureAction::Peek);
    assert_eq!(next_frame(CaptureStep::AtHand(Captured::Frame)), CaptureAction::Read);
    assert_eq!(next_frame(CaptureStep::AtHand(Captured::Idle)), CaptureAction::HandOn);
    assert_eq!(next_frame(CaptureStep::AtHand(Captured::Nothing)), CaptureAction::HandOn);
}

// --- The work on a frame ---

const READY: GfxStatus = GfxStatus { ready: true, avc444_supported: true, avc444_enabled: true };

fn encoded(data: &[u8]) -> EncodedFrame {
    EncodedFrame { data: data.to_vec(), width: 16, height: 8, is_keyframe: true }
}

/// Takes a frame up to the point where the encoder is asked.
fn up_to_encoder(u: &mut MacDisplayUpdates, frame: &CapturedFrame) -> EncodeAction {
    assert!(matches!(
        u.encode_and_send(frame, EncodeEvent::Begin),
        EncodeAction::ReadGfx { .. }
    ));
    assert!(matches!(
        u.encode_and_send(frame, EncodeEvent::Gfx(READY)),
        EncodeAction::ReadBitrate { .. }
    ));
    let base = u.base_bitrate;
    assert!(matches!(
        u.encode_and_send(frame, EncodeEvent::Bitrate(base)),
        EncodeAction::Apply { bitrate: None, .. }
    ));
    u.encode_and_send(frame, EncodeEvent::Applied { supports_444: true })
}

#[test]
fn whole_frame_goes_out_as_h264() {
    let mut u = display(None).updates(true);
    let frame = picture(20, 10, 80);
    assert!(matches!(up_to_encoder(&mut u, &frame), EncodeAction::Encode420));
    match u.encode_and_send(
        &frame,
        EncodeEvent::Encoded { result: Some(encoded(&[1, 2, 3])), slow: false },
    ) {
        EncodeAction::Finish { update: Some(DisplayUpdate::GfxFrame(f)), stats, overload } => {
            assert_eq!((f.width, f.height, f.enc_width, f.enc_height), (20, 10, 16, 8));
            assert_eq!(f.h264_data, vec![1, 2, 3]);
            assert!(f.h264_aux.is_none() && f.is_keyframe && !overload);
            assert_eq!(stats, Some(FrameStats { bytes: 3, keyframe: Some(true) }));
        }
        other => panic!("{:?}", other),
    }
    assert_eq!(u.display_frame_count, 1);
}

#[test]
fn two_streams_fall_back_to_one() {
    let mut d = display(None);
    d.mode_444 = true;
    let mut u = d.updates(true);
    let frame = picture(20, 10, 80);
    assert!(matches!(up_to_encoder(&mut u, &frame), EncodeAction::Encode444));
    assert!(matches!(
        u.encode_and_send(&frame, EncodeEvent::Encoded444 { streams: None, slow: false }),
        EncodeAction::Encode420
    ));
    // Where the one stream fails too, nothing of the frame goes out.
    assert!(matches!(
        u.encode_and_send(&frame, EncodeEvent::Encoded { result: None, slow: false }),
        EncodeAction::Finish { update: Some(DisplayUpdate::DefaultPointer), .. }
    ));

    assert!(matches!(up_to_encoder(&mut u, &frame), EncodeAction::Encode444));
    match u.encode_and_send(
        &frame,
        EncodeEvent::Encoded444 { streams: Some((encoded(&[9]), vec![8, 7])), slow: false },
    ) {
        EncodeAction::Finish { update: Some(DisplayUpdate::GfxFrame(f)), stats, .. } => {
            assert_eq!(f.h264_aux, Some(vec![8, 7]));
            assert_eq!(stats, Some(FrameStats { bytes: 3, keyframe: Some(true) }));
        }
        other => panic!("{:?}", other),
    }
}

#[test]
fn platform_buffer_goes_to_the_platform_encoder() {
    let mut u = display(None).updates(true);
    let mut frame = picture(20, 10, 80);
    frame.data = FrameData::PixelBuffer;
    frame.dirty_rects = vec![Rect { x: 0, y: 0, width: 2, height: 2 }];
    assert!(matches!(up_to_encoder(&mut u, &frame), EncodeAction::EncodePixelBuffer));
    assert!(matches!(
        u.encode_and_send(&frame, EncodeEvent::Encoded { result: None, slow: false }),
        EncodeAction::Finish { update: Some(DisplayUpdate::DefaultPointer), .. }
    ));
}

#[test]
fn small_changes_go_out_one_by_one() {
    let mut u = display(None).updates(true);
    let mut frame = picture(100, 50, 400);
    frame.dirty_rects = vec![
        Rect { x: 98, y: 0, width: 10, height: 5 },
        Rect { x: 3, y: 4, width: 0, height: 9 },
        Rect { x: 300, y: 60, width: 4, height: 4 },
    ];
    match up_to_encoder(&mut u, &frame) {
        EncodeAction::EncodeRect(r) => {
            assert_eq!(r, Rect { x: 98, y: 0, width: 2, height: 5 });
        }
        other => panic!("{:?}", other),
    }
    match u.encode_and_send(&frame, EncodeEvent::Rect(Some(encoded(&[1])))) {
        EncodeAction::EncodeRect(r) => {
            assert_eq!(r, Rect { x: 99, y: 49, width: 1, height: 1 });
        }
        other => panic!("{:?}", other),
    }
    match u.encode_and_send(&frame, EncodeEvent::Rect(Some(encoded(&[2, 3])))) {
        EncodeAction::Finish { update: Some(DisplayUpdate::GfxDirtyH264(d)), stats, .. } => {
            assert_eq!(d.rects.len(), 2);
            assert_eq!((d.rects[0].x, d.rects[0].width, d.rects[0].enc_width), (98, 2, 16));
            assert_eq!(d.rects[1].h264_data, vec![2, 3]);
            assert_eq!((d.width, d.height), (100, 50));
            assert_eq!(stats, Some(FrameStats { bytes: 3, keyframe: None }));
        }
        other => panic!("{:?}", other),
    }

    // A part that cannot be encoded sends the whole frame.
    assert!(matches!(up_to_encoder(&mut u, &frame), EncodeAction::EncodeRect(_)));
    assert!(matches!(
        u.encode_and_send(&frame, EncodeEvent::Rect(None)),
        EncodeAction::Encode420
    ));
}

#[test]
fn large_or_many_changes_send_the_whole_frame() {
    let mut u = display(None).updates(true);
    let mut frame = picture(1024, 512, 4096);
    frame.dirty_rects = vec![Rect { x: 0, y: 0, width: 512, height: 513 }];
    assert!(matches!(up_to_encoder(&mut u, &frame), EncodeAction::Encode420));
    u.encode_and_send(&frame, EncodeEvent::Encoded { result: Some(encoded(&[1])), slow: false });
    frame.dirty_rects = vec![Rect { x: 0, y: 0, width: 1, height: 1 }; 17];
    assert!(matches!(up_to_encoder(&mut u, &frame), EncodeAction::Encode420));
    u.encode_and_send(&frame, EncodeEvent::Encoded { result: Some(encoded(&[])), slow: true });
    assert!(!u.skip_next_frame);
    frame.dirty_rects = vec![Rect { x: 0, y: 0, width: 1, height: 1 }; 16];
    assert!(matches!(up_to_encoder(&mut u, &frame), EncodeAction::EncodeRect(_)));
}

#[test]
fn overload_costs_one_frame() {
    let mut u = display(None).updates(true);
    let frame = picture(20, 10, 80);
    up_to_encoder(&mut u, &frame);
    let slow = EncodeEvent::Encoded { result: Some(encoded(&[1])), slow: true };
    assert!(matches!(
        u.encode_and_send(&frame, slow),
        EncodeAction::Finish { overload: true, .. }
    ));
    assert_eq!(u.overload_count, 1);
    assert!(matches!(
        u.encode_and_send(&frame, EncodeEvent::Begin),
        EncodeAction::Finish { update: Some(DisplayUpdate::DefaultPointer), stats: None, .. }
    ));
    assert!(matches!(
        u.encode_and_send(&frame, EncodeEvent::Begin),
        EncodeAction::ReadGfx { .. }
    ));
}

#[test]
fn bitmaps_go_out_only_without_an_encoder() {
    let frame = picture(20, 10, 80);
    let not_ready = GfxStatus { ready: false, avc444_supported: false, avc444_enabled: false };
    let mut with = display(None).updates(true);
    with.encode_and_send(&frame, EncodeEvent::Begin);
    assert!(matches!(
        with.encode_and_send(&frame, EncodeEvent::Gfx(not_ready)),
        EncodeAction::Finish { update: Some(DisplayUpdate::DefaultPointer), .. }
    ));
    let mut without = display(None).updates(false);
    without.encode_and_send(&frame, EncodeEvent::Begin);
    assert!(matches!(
        without.encode_and_send(&frame, EncodeEvent::Gfx(READY)),
        EncodeAction::Finish { update: Some(DisplayUpdate::Bitmap(_)), .. }
    ));
}

#[test]
fn a_failed_encode_sends_no_bitmap() {
    let frame = picture(20, 10, 80);
    let mut u = display(None).updates(true);
    assert!(matches!(up_to_encoder(&mut u, &frame), EncodeAction::Encode420));
    let failed = EncodeEvent::Encoded { result: None, slow: false };
    assert!(u.can_step(&frame, &failed));
    match u.encode_and_send(&frame, failed) {
        EncodeAction::Finish { update, stats, overload } => {
            assert!(matches!(update, Some(DisplayUpdate::DefaultPointer)));
            assert!(stats.is_none() && !overload);
        }
        other => panic!("{:?}", other),
    }
    assert!(matches!(
        u.encode_and_send(&frame, EncodeEvent::Begin),
        EncodeAction::ReadGfx { .. }
    ));
}

#[test]
fn bitrate_changes_by_more_than_a_tenth_of_the_base() {
    let mut u = display(None).updates(true);
    let frame = picture(20, 10, 80);
    for (suggested, change) in [
        (8_800_000u32, None),
        (8_800_001, Some(8_800_001)),
        (8_000_001, None),
        (7_999_999, Some(7_999_999)),
    ] {
        let moved = (suggested as f64 - u.last_applied_bitrate as f64).abs()
            > u.base_bitrate as f64 * 0.1;
        assert_eq!(moved, change.is_some());
        u.encode_and_send(&frame, EncodeEvent::Begin);
        u.encode_and_send(&frame, EncodeEvent::Gfx(READY));
        match u.encode_and_send(&frame, EncodeEvent::Bitrate(suggested)) {
            EncodeAction::Apply { bitrate, ramp } => {
                assert_eq!(bitrate, change);
                assert_eq!(ramp, ProgressiveAction::Unchanged);
            }
            other => panic!("{:?}", other),
        }
        u.encode_and_send(&frame, EncodeEvent::Applied { supports_444: false });
        u.encode_and_send(
            &frame,
            EncodeEvent::Encoded { result: Some(encoded(&[1])), slow: false },
        );
    }
}

#[test]
fn frame_rate_drops_after_sixty_quiet_frames_and_returns() {
    let mut u = display(None).updates(true);
    let mut frame = picture(100, 100, 400);
    frame.dirty_rects = vec![Rect { x: 0, y: 0, width: 7, height: 7 }];
    for i in 1..=70 {
        let rate = u.adjust_fps_for_activity(&frame);
        assert_eq!(rate, if i == 60 { Some(5) } else { None });
        assert_eq!(u.current_fps, if i < 60 { 60 } else { 5 });
    }
    frame.dirty_rects = vec![Rect { x: 0, y: 0, width: 10, height: 5 }];
    assert_eq!(u.adjust_fps_for_activity(&frame), Some(60));
    assert_eq!((u.current_fps, u.low_activity_frames), (60, 0));
    assert_eq!(u.adjust_fps_for_activity(&frame), None);
    frame.dirty_rects = vec![];
    assert_eq!(u.adjust_fps_for_activity(&frame), None);
}

#[test]
fn scene_change_lowers_the_bitrate_of_a_frame() {
    let mut u = display(None).updates(true);
    let mut frame = picture(10, 10, 40);
    frame.dirty_rects = vec![Rect { x: 0, y: 0, width: 10, height: 3 }];
    assert_eq!(
        u.apply_progressive_bitrate(&frame),
        ProgressiveAction::SceneChange { bitrate: 2_000_000 }
    );
    frame.dirty_rects = vec![];
    assert!(matches!(u.apply_progressive_bitrate(&frame), ProgressiveAction::Ramp { .. }));
}

#[test]
fn steps_are_refused_where_numbers_do_not_fit() {
    let huge = Rect { x: 0, y: 0, width: u32::MAX, height: u32::MAX };
    let mut frame = picture(4, 4, 16);
    let mut u = display(None).updates(true);
    assert!(u.can_step(&frame, &EncodeEvent::Begin));
    assert!(!u.can_step(&frame, &EncodeEvent::Bitrate(1)));
    frame.dirty_rects = vec![huge];
    assert!(u.can_step(&frame, &EncodeEvent::Begin));
    frame.dirty_rects = vec![huge, huge];
    assert!(!u.can_step(&frame, &EncodeEvent::Begin));
    u.skip_next_frame = true;
    assert!(u.can_step(&frame, &EncodeEvent::Begin));
    u.skip_next_frame = false;

    frame.dirty_rects = vec![huge];
    assert!(matches!(
        u.encode_and_send(&frame, EncodeEvent::Begin),
        EncodeAction::ReadGfx { .. }
    ));
    let status = GfxStatus { ready: true, avc444_supported: false, avc444_enabled: false };
    assert!(u.can_step(&frame, &EncodeEvent::Gfx(status)));
    u.encode_and_send(&frame, EncodeEvent::Gfx(status));
    assert!(u.can_step(&frame, &EncodeEvent::Bitrate(1)));
    u.encode_and_send(&frame, EncodeEvent::Bitrate(1));
    assert!(!u.can_step(&frame, &EncodeEvent::Applied { supports_444: false }));
}

#[test]
fn bitmaps_are_refused_where_numbers_do_not_fit() {
    let mut frame = picture(4, 4, 16);
    assert!(can_make_bitmap(&frame));
    frame.dirty_rects = vec![Rect { x: 1, y: 1, width: u32::MAX, height: 1 }];
    assert!(!can_make_bitmap(&frame));
    frame.dirty_rects = vec![Rect { x: 1, y: 1, width: u32::MAX - 1, height: 1 }];
    assert!(can_make_bitmap(&frame));
    frame.stride = usize::MAX / 2;
    frame.dirty_rects = vec![Rect { x: 0, y: 0, width: 4, height: 4 }];
    assert!(!can_make_bitmap(&frame));
    frame.dirty_rects = vec![Rect { x: 0, y: 0, width: 4, height: 2 }];
    assert!(can_make_bitmap(&frame));
    frame.data = FrameData::PixelBuffer;
    frame.dirty_rects = vec![Rect { x: 1, y: 1, width: u32::MAX, height: 1 }];
    assert!(can_make_bitmap(&frame));
}
