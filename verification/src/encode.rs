//! How captured frames become updates: when to leave a frame out, which path it
//! takes, and what becomes of the encoder's results.
//!
//! The capturer and the encoder are not called here. [`MacDisplayUpdates::encode_and_send`]
//! says what to ask of them next, and takes their answer at the next step.

use vstd::prelude::*;

use crate::frame;
use crate::frame::{to_u16, CapturedFrame, FrameData, Rect};
use crate::progressive;
use crate::progressive::{ProgressiveAction, ProgressiveRamp};
use crate::rounding;
use crate::update;
use crate::update::{
    bitmap_update, can_make_bitmap, DisplayUpdate, GfxDirtyH264Update, GfxFrameUpdate,
    GfxFrameView, H264Rect, H264RectView, UpdateView,
};

verus! {

/// The most changed pixels for which the changed rectangles are encoded one by
/// one.
pub const UNCOMPRESSED_MAX_PIXELS: u32 = 262144;

/// The most rectangles that are encoded one by one.
pub const DIRTY_RECT_MAX_COUNT: usize = 16;

/// After this many quiet frames in a row the frame rate drops.
pub const LOW_ACTIVITY_RAMP_FRAMES: u32 = 60;

/// The frame rate while little happens.
pub const LOW_ACTIVITY_MIN_FPS: u32 = 5;

/// Of the overloaded frames, one in this many is worth a warning.
pub const OVERLOAD_WARNING_INTERVAL: u64 = 60;

/// What the graphics channel is ready for.
#[derive(Clone, Copy, Debug, PartialEq, Eq, Structural)]
pub struct GfxStatus {
    pub ready: bool,
    pub avc444_supported: bool,
    pub avc444_enabled: bool,
}

/// What an encoder returns.
#[derive(Debug)]
pub struct EncodedFrame {
    pub data: Vec<u8>,
    pub width: u32,
    pub height: u32,
    pub is_keyframe: bool,
}

/// What an encoder's result says.
pub struct EncodedView {
    pub data: Seq<u8>,
    pub width: u32,
    pub height: u32,
    pub is_keyframe: bool,
}

impl View for EncodedFrame {
    type V = EncodedView;

    open spec fn view(&self) -> EncodedView {
        EncodedView {
            data: self.data@,
            width: self.width,
            height: self.height,
            is_keyframe: self.is_keyframe,
        }
    }
}

/// The answer to the action before.
#[derive(Debug)]
pub enum EncodeEvent {
    /// A new frame.
    Begin,
    /// The state of the graphics channel.
    Gfx(GfxStatus),
    /// The bitrate that suits the network.
    Bitrate(u32),
    /// The encoder's bitrate is set; whether it has a 4:4:4 mode.
    Applied { supports_444: bool },
    /// One rectangle's result; none where the encoder failed.
    Rect(Option<EncodedFrame>),
    /// A frame's result, and whether the encoder took too long.
    Encoded { result: Option<EncodedFrame>, slow: bool },
    /// A frame's two streams, and whether the encoder took too long.
    Encoded444 { streams: Option<(EncodedFrame, Vec<u8>)>, slow: bool },
}

/// What an event says.
pub enum EventView {
    Begin,
    Gfx(GfxStatus),
    Bitrate(u32),
    Applied { supports_444: bool },
    Rect(Option<EncodedView>),
    Encoded { result: Option<EncodedView>, slow: bool },
    Encoded444 { streams: Option<(EncodedView, Seq<u8>)>, slow: bool },
}

impl View for EncodeEvent {
    type V = EventView;

    open spec fn view(&self) -> EventView {
        match *self {
            EncodeEvent::Begin => EventView::Begin,
            EncodeEvent::Gfx(status) => EventView::Gfx(status),
            EncodeEvent::Bitrate(bitrate) => EventView::Bitrate(bitrate),
            EncodeEvent::Applied { supports_444 } => EventView::Applied { supports_444 },
            EncodeEvent::Rect(result) => EventView::Rect(
                match result {
                    Some(encoded) => Some(encoded@),
                    None => None,
                },
            ),
            EncodeEvent::Encoded { result, slow } => EventView::Encoded {
                result: match result {
                    Some(encoded) => Some(encoded@),
                    None => None,
                },
                slow,
            },
            EncodeEvent::Encoded444 { streams, slow } => EventView::Encoded444 {
                streams: match streams {
                    Some((main, aux)) => Some((main@, aux@)),
                    None => None,
                },
                slow,
            },
        }
    }
}

/// What is to be noted of a frame that was encoded.
#[derive(Clone, Copy, Debug, PartialEq, Eq, Structural)]
pub struct FrameStats {
    /// Its size in bytes.
    pub bytes: u32,
    /// Whether it is a keyframe, where it is a whole frame.
    pub keyframe: Option<bool>,
}

/// What to do next.
#[derive(Debug)]
pub enum EncodeAction {
    /// Set the capturer's frame rate, where one is given, and ask for the state
    /// of the graphics channel.
    ReadGfx { frame_rate: Option<u32> },
    /// Ask for the bitrate that suits the network.
    ReadBitrate { base: u32 },
    /// Set the encoder's bitrate, where one is given, and follow the ramp.
    Apply { bitrate: Option<u32>, ramp: ProgressiveAction },
    /// Encode one rectangle of the frame.
    EncodeRect(Rect),
    /// Encode the platform's buffer.
    EncodePixelBuffer,
    /// Encode the frame as two streams.
    Encode444,
    /// Encode the frame as one stream.
    Encode420,
    /// Done: what to hand on, what to note, and whether to warn of overload.
    Finish { update: Option<DisplayUpdate>, stats: Option<FrameStats>, overload: bool },
}

/// What an action says.
pub enum ActionView {
    ReadGfx { frame_rate: Option<u32> },
    ReadBitrate { base: u32 },
    Apply { bitrate: Option<u32>, ramp: ProgressiveAction },
    EncodeRect(Rect),
    EncodePixelBuffer,
    Encode444,
    Encode420,
    Finish { update: Option<UpdateView>, stats: Option<FrameStats>, overload: bool },
}

impl View for EncodeAction {
    type V = ActionView;

    open spec fn view(&self) -> ActionView {
        match *self {
            EncodeAction::ReadGfx { frame_rate } => ActionView::ReadGfx { frame_rate },
            EncodeAction::ReadBitrate { base } => ActionView::ReadBitrate { base },
            EncodeAction::Apply { bitrate, ramp } => ActionView::Apply { bitrate, ramp },
            EncodeAction::EncodeRect(rect) => ActionView::EncodeRect(rect),
            EncodeAction::EncodePixelBuffer => ActionView::EncodePixelBuffer,
            EncodeAction::Encode444 => ActionView::Encode444,
            EncodeAction::Encode420 => ActionView::Encode420,
            EncodeAction::Finish { update, stats, overload } => ActionView::Finish {
                update: update::optional(update),
                stats,
                overload,
            },
        }
    }
}

/// Where the work on a frame stands: which answer is awaited.
#[derive(Debug)]
pub enum EncodePhase {
    Idle,
    Gfx,
    Bitrate { use_444: bool },
    Apply { use_444: bool },
    /// The rectangle `todo[next]` is being encoded; those before it are `done`.
    Rects {
        use_444: bool,
        supports_444: bool,
        todo: Vec<Rect>,
        next: usize,
        done: Vec<H264Rect>,
    },
    PixelBuffer,
    Full444,
    Full420,
}

/// What a phase says.
pub enum PhaseView {
    Idle,
    Gfx,
    Bitrate { use_444: bool },
    Apply { use_444: bool },
    /// `todo` starts with the rectangle that is being encoded.
    Rects { use_444: bool, supports_444: bool, todo: Seq<Rect>, done: Seq<H264RectView> },
    PixelBuffer,
    Full444,
    Full420,
}

impl View for EncodePhase {
    type V = PhaseView;

    open spec fn view(&self) -> PhaseView {
        match *self {
            EncodePhase::Idle => PhaseView::Idle,
            EncodePhase::Gfx => PhaseView::Gfx,
            EncodePhase::Bitrate { use_444 } => PhaseView::Bitrate { use_444 },
            EncodePhase::Apply { use_444 } => PhaseView::Apply { use_444 },
            EncodePhase::Rects { use_444, supports_444, todo, next, done } => PhaseView::Rects {
                use_444,
                supports_444,
                todo: todo@.skip(next as int),
                done: update::rect_views(done@),
            },
            EncodePhase::PixelBuffer => PhaseView::PixelBuffer,
            EncodePhase::Full444 => PhaseView::Full444,
            EncodePhase::Full420 => PhaseView::Full420,
        }
    }
}

/// The state of a display's stream of updates.
#[derive(Debug)]
pub struct MacDisplayUpdates {
    pub base_bitrate: u32,
    pub mode_444: bool,
    /// Whether there is an encoder.
    pub has_encoder: bool,
    /// The frame rate of ordinary activity.
    pub frame_rate: u32,
    pub display_frame_count: u64,
    /// Whether the next frame is left out, because the last took too long.
    pub skip_next_frame: bool,
    pub overload_count: u64,
    /// How many quiet frames there were in a row.
    pub low_activity_frames: u32,
    pub current_fps: u32,
    /// Whether the pointer goes its own way.
    pub cursor_channel: bool,
    pub last_cursor_pos: (u16, u16),
    pub cursor_initialized: bool,
    pub last_applied_bitrate: u32,
    pub progressive: ProgressiveRamp,
    pub phase: EncodePhase,
}

/// What the state of a display's stream of updates says.
pub struct UpdatesView {
    pub base_bitrate: u32,
    pub mode_444: bool,
    pub has_encoder: bool,
    pub frame_rate: u32,
    pub display_frame_count: int,
    pub skip_next_frame: bool,
    pub overload_count: int,
    pub low_activity_frames: int,
    pub current_fps: u32,
    pub cursor_channel: bool,
    pub last_cursor_pos: (u16, u16),
    pub cursor_initialized: bool,
    pub last_applied_bitrate: u32,
    pub ramp: nat,
    pub phase: PhaseView,
}

impl View for MacDisplayUpdates {
    type V = UpdatesView;

    open spec fn view(&self) -> UpdatesView {
        UpdatesView {
            base_bitrate: self.base_bitrate,
            mode_444: self.mode_444,
            has_encoder: self.has_encoder,
            frame_rate: self.frame_rate,
            display_frame_count: self.display_frame_count as int,
            skip_next_frame: self.skip_next_frame,
            overload_count: self.overload_count as int,
            low_activity_frames: self.low_activity_frames as int,
            current_fps: self.current_fps,
            cursor_channel: self.cursor_channel,
            last_cursor_pos: self.last_cursor_pos,
            cursor_initialized: self.cursor_initialized,
            last_applied_bitrate: self.last_applied_bitrate,
            ramp: self.progressive@,
            phase: self.phase@,
        }
    }
}

/// The pixels of all of `rects`, counted once for each.
pub open spec fn dirty_area(rects: Seq<Rect>) -> nat
    decreases rects.len(),
{
    if rects.len() == 0 {
        0
    } else {
        dirty_area(rects.drop_last()) + (rects.last().width * rects.last().height) as nat
    }
}

/// The pixels of a frame.
pub open spec fn total_area(frame: CapturedFrame) -> nat {
    (frame.width * frame.height) as nat
}

/// The state after a frame's activity is taken into account, and the frame rate
/// to set, if any.
pub open spec fn after_activity(s: UpdatesView, frame: CapturedFrame) -> (UpdatesView, Option<
    u32,
>) {
    if total_area(frame) == 0 || frame.dirty_rects@.len() == 0 {
        (s, None)
    } else if rounding::below_half_percent(dirty_area(frame.dirty_rects@), total_area(frame)) {
        let quiet = if s.low_activity_frames < u32::MAX {
            s.low_activity_frames + 1
        } else {
            s.low_activity_frames
        };
        if quiet == LOW_ACTIVITY_RAMP_FRAMES && s.current_fps != LOW_ACTIVITY_MIN_FPS {
            (
                UpdatesView {
                    low_activity_frames: quiet,
                    current_fps: LOW_ACTIVITY_MIN_FPS,
                    ..s
                },
                Some(LOW_ACTIVITY_MIN_FPS),
            )
        } else {
            (UpdatesView { low_activity_frames: quiet, ..s }, None)
        }
    } else if s.low_activity_frames >= LOW_ACTIVITY_RAMP_FRAMES {
        (
            UpdatesView { low_activity_frames: 0, current_fps: s.frame_rate, ..s },
            Some(s.frame_rate),
        )
    } else {
        (UpdatesView { low_activity_frames: 0, ..s }, None)
    }
}

/// Whether a suggested bitrate is far enough from the one in use to be worth a
/// change: more than a tenth of the base bitrate.
pub open spec fn worth_changing(suggested: u32, current: u32, base: u32) -> bool {
    let gap = if suggested < current {
        current - suggested
    } else {
        suggested - current
    };
    gap != 0 && gap * 10 > base
}

/// A changed rectangle, moved and cut so that it lies within the frame.
pub open spec fn clamped(rect: Rect, width: int, height: int) -> Rect {
    let x = update::least(rect.x as int, update::greatest(width - 1, 0));
    let y = update::least(rect.y as int, update::greatest(height - 1, 0));
    Rect {
        x: x as u32,
        y: y as u32,
        width: update::least(rect.width as int, width - x) as u32,
        height: update::least(rect.height as int, height - y) as u32,
    }
}

/// The parts of a frame that are encoded one by one: its changed rectangles
/// within the frame, but for empty ones.
pub open spec fn dirty_parts(rects: Seq<Rect>, width: int, height: int) -> Seq<Rect>
    decreases rects.len(),
{
    if rects.len() == 0 {
        Seq::empty()
    } else {
        let before = dirty_parts(rects.drop_last(), width, height);
        let part = clamped(rects.last(), width, height);
        if part.width > 0 && part.height > 0 {
            before.push(part)
        } else {
            before
        }
    }
}

/// The parts of a frame that are tried one by one before the whole frame: none
/// where too much changed, or where only the platform can read the pixels.
pub open spec fn parts_to_encode(frame: CapturedFrame) -> Seq<Rect> {
    let rects = frame.dirty_rects@;
    if 0 < dirty_area(rects) <= UNCOMPRESSED_MAX_PIXELS && rects.len() <= DIRTY_RECT_MAX_COUNT
        && frame.data is Raw {
        dirty_parts(rects, frame.width as int, frame.height as int)
    } else {
        Seq::empty()
    }
}

/// The end of the work on a frame that leads to no new picture.
pub open spec fn left_out() -> ActionView {
    ActionView::Finish {
        update: Some(UpdateView::DefaultPointer),
        stats: None,
        overload: false,
    }
}

/// The bytes of a frame's H.264 rectangles.
pub open spec fn rects_bytes(rects: Seq<H264RectView>) -> nat
    decreases rects.len(),
{
    if rects.len() == 0 {
        0
    } else {
        rects_bytes(rects.drop_last()) + rects.last().h264_data.len()
    }
}

/// The lowest 32 bits of a number.
pub open spec fn low32(n: nat) -> u32 {
    (n % 0x1_0000_0000) as u32
}

/// The whole frame is encoded next.
pub open spec fn whole_frame(
    s: UpdatesView,
    frame: CapturedFrame,
    use_444: bool,
    supports_444: bool,
) -> (UpdatesView, ActionView) {
    let s = UpdatesView { display_frame_count: s.display_frame_count + 1, ..s };
    if frame.data is PixelBuffer {
        (UpdatesView { phase: PhaseView::PixelBuffer, ..s }, ActionView::EncodePixelBuffer)
    } else if use_444 && supports_444 {
        (UpdatesView { phase: PhaseView::Full444, ..s }, ActionView::Encode444)
    } else {
        (UpdatesView { phase: PhaseView::Full420, ..s }, ActionView::Encode420)
    }
}

/// A whole frame is handed on. After one that took too long the next is left
/// out.
pub open spec fn sent(
    s: UpdatesView,
    frame: CapturedFrame,
    main: EncodedView,
    aux: Option<Seq<u8>>,
    slow: bool,
) -> (UpdatesView, ActionView) {
    let bytes = main.data.len() + (match aux {
        Some(aux) => aux.len(),
        None => 0,
    });
    let s = UpdatesView { phase: PhaseView::Idle, ..s };
    let s = if slow {
        UpdatesView { skip_next_frame: true, overload_count: s.overload_count + 1, ..s }
    } else {
        s
    };
    (
        s,
        ActionView::Finish {
            update: Some(
                UpdateView::GfxFrame(
                    GfxFrameView {
                        h264_data: main.data,
                        width: frame::low16(frame.width),
                        height: frame::low16(frame.height),
                        enc_width: frame::low16(main.width),
                        enc_height: frame::low16(main.height),
                        is_keyframe: main.is_keyframe,
                        h264_aux: aux,
                    },
                ),
            ),
            stats: Some(FrameStats { bytes: low32(bytes), keyframe: Some(main.is_keyframe) }),
            overload: slow && s.overload_count % (OVERLOAD_WARNING_INTERVAL as int) == 1,
        },
    )
}

/// The result of one rectangle.
pub open spec fn rect_view(part: Rect, encoded: EncodedView) -> H264RectView {
    H264RectView {
        x: frame::low16(part.x),
        y: frame::low16(part.y),
        width: frame::low16(part.width),
        height: frame::low16(part.height),
        enc_width: frame::low16(encoded.width),
        enc_height: frame::low16(encoded.height),
        h264_data: encoded.data,
    }
}

/// The rectangles of a frame are handed on.
pub open spec fn rects_sent(s: UpdatesView, frame: CapturedFrame, rects: Seq<H264RectView>) -> (
    UpdatesView,
    ActionView,
) {
    (
        UpdatesView {
            display_frame_count: s.display_frame_count + 1,
            phase: PhaseView::Idle,
            ..s
        },
        ActionView::Finish {
            update: Some(
                UpdateView::GfxDirtyH264 {
                    rects,
                    width: frame::low16(frame.width),
                    height: frame::low16(frame.height),
                },
            ),
            stats: Some(FrameStats { bytes: low32(rects_bytes(rects)), keyframe: None }),
            overload: false,
        },
    )
}

/// Whether an event answers the action that a phase waits for.
pub open spec fn expected(phase: PhaseView, event: EventView) -> bool {
    match phase {
        PhaseView::Idle => event is Begin,
        PhaseView::Gfx => event is Gfx,
        PhaseView::Bitrate { .. } => event is Bitrate,
        PhaseView::Apply { .. } => event is Applied,
        PhaseView::Rects { .. } => event is Rect,
        PhaseView::PixelBuffer => event is Encoded,
        PhaseView::Full444 => event is Encoded444,
        PhaseView::Full420 => event is Encoded,
    }
}

/// One step of the work on a frame: the state after `event`, and what to do
/// next.
pub open spec fn stepped(s: UpdatesView, frame: CapturedFrame, event: EventView) -> (
    UpdatesView,
    ActionView,
) {
    let idle = UpdatesView { phase: PhaseView::Idle, ..s };
    match (s.phase, event) {
        (PhaseView::Idle, EventView::Begin) => if s.skip_next_frame {
            (UpdatesView { skip_next_frame: false, ..s }, left_out())
        } else {
            let (next, frame_rate) = after_activity(s, frame);
            (UpdatesView { phase: PhaseView::Gfx, ..next }, ActionView::ReadGfx { frame_rate })
        },
        (PhaseView::Gfx, EventView::Gfx(status)) => if status.ready && s.has_encoder {
            (
                UpdatesView {
                    phase: PhaseView::Bitrate {
                        use_444: s.mode_444 && status.avc444_supported && status.avc444_enabled,
                    },
                    ..s
                },
                ActionView::ReadBitrate { base: s.base_bitrate },
            )
        } else if s.has_encoder {
            (idle, left_out())
        } else {
            (
                idle,
                ActionView::Finish {
                    update: update::bitmap_view(frame),
                    stats: None,
                    overload: false,
                },
            )
        },
        (PhaseView::Bitrate { use_444 }, EventView::Bitrate(suggested)) => {
            let change = worth_changing(suggested, s.last_applied_bitrate, s.base_bitrate);
            let applied = if change {
                suggested
            } else {
                s.last_applied_bitrate
            };
            let (ramp, left) = progressive::evaluated(
                s.ramp,
                dirty_area(frame.dirty_rects@),
                total_area(frame),
                applied,
            );
            (
                UpdatesView {
                    last_applied_bitrate: applied,
                    ramp: left,
                    phase: PhaseView::Apply { use_444 },
                    ..s
                },
                ActionView::Apply {
                    bitrate: if change {
                        Some(suggested)
                    } else {
                        None
                    },
                    ramp,
                },
            )
        },
        (PhaseView::Apply { use_444 }, EventView::Applied { supports_444 }) => {
            let todo = parts_to_encode(frame);
            if todo.len() > 0 {
                (
                    UpdatesView {
                        phase: PhaseView::Rects { use_444, supports_444, todo, done: Seq::empty() },
                        ..s
                    },
                    ActionView::EncodeRect(todo[0]),
                )
            } else {
                whole_frame(s, frame, use_444, supports_444)
            }
        },
        (
            PhaseView::Rects { use_444, supports_444, todo, done },
            EventView::Rect(Some(encoded)),
        ) => {
            let rects = done.push(rect_view(todo[0], encoded));
            if todo.len() > 1 {
                (
                    UpdatesView {
                        phase: PhaseView::Rects {
                            use_444,
                            supports_444,
                            todo: todo.drop_first(),
                            done: rects,
                        },
                        ..s
                    },
                    ActionView::EncodeRect(todo[1]),
                )
            } else {
                rects_sent(s, frame, rects)
            }
        },
        (PhaseView::Rects { use_444, supports_444, .. }, EventView::Rect(None)) => whole_frame(
            s,
            frame,
            use_444,
            supports_444,
        ),
        (PhaseView::PixelBuffer, EventView::Encoded { result: Some(encoded), slow }) => if encoded
            .data.len() > 0 {
            sent(s, frame, encoded, None, slow)
        } else {
            (idle, left_out())
        },
        (PhaseView::Full444, EventView::Encoded444 { streams: Some((main, aux)), slow }) => if main
            .data.len() > 0 {
            sent(s, frame, main, Some(aux), slow)
        } else {
            (idle, left_out())
        },
        (PhaseView::Full444, EventView::Encoded444 { streams: None, .. }) => (
            UpdatesView { phase: PhaseView::Full420, ..s },
            ActionView::Encode420,
        ),
        (PhaseView::Full420, EventView::Encoded { result: Some(encoded), slow }) => if encoded
            .data.len() > 0 {
            sent(s, frame, encoded, None, slow)
        } else {
            (idle, left_out())
        },
        (PhaseView::Full420, EventView::Encoded { result: None, .. }) => (idle, left_out()),
        _ => (idle, left_out()),
    }
}

/// Whether the sizes and counts that a step works with fit their types.
pub open spec fn step_fits(s: UpdatesView, frame: CapturedFrame, event: EventView) -> bool {
    match event {
        EventView::Begin => s.skip_next_frame || total_area(frame) == 0 || dirty_area(
            frame.dirty_rects@,
        ) <= u64::MAX,
        EventView::Gfx(_) => s.has_encoder || update::bitmap_fits(frame),
        EventView::Bitrate(_) => dirty_area(frame.dirty_rects@) <= u64::MAX,
        EventView::Applied { .. } => dirty_area(frame.dirty_rects@) <= u32::MAX
            && s.display_frame_count < u64::MAX,
        EventView::Rect(_) => s.display_frame_count < u64::MAX,
        EventView::Encoded { result: None, .. } => true,
        EventView::Encoded { slow, .. } => slow ==> s.overload_count < u64::MAX,
        EventView::Encoded444 { slow, .. } => slow ==> s.overload_count < u64::MAX,
    }
}

/// Part of some rectangles covers no more than all of them.
proof fn lemma_dirty_area(rects: Seq<Rect>, n: int)
    requires
        0 <= n <= rects.len(),
    ensures
        dirty_area(rects.take(n)) <= dirty_area(rects),
    decreases rects.len(),
{
    if n == rects.len() {
        assert(rects.take(n) =~= rects);
    } else {
        assert(rects.last().width * rects.last().height >= 0) by (nonlinear_arith)
            requires
                rects.last().width >= 0,
                rects.last().height >= 0,
        ;
        lemma_dirty_area(rects.drop_last(), n);
        assert(rects.drop_last().take(n) =~= rects.take(n));
    }
}

/// The pixels of all of `rects`, counted once for each.
fn dirty_pixels(rects: &Vec<Rect>) -> (sum: u64)
    requires
        dirty_area(rects@) <= u64::MAX,
    ensures
        sum == dirty_area(rects@),
{
    let mut sum: u64 = 0;
    let mut i: usize = 0;
    assert(rects@.take(0) =~= Seq::empty());
    while i < rects.len()
        invariant
            i <= rects@.len(),
            dirty_area(rects@) <= u64::MAX,
            sum == dirty_area(rects@.take(i as int)),
        decreases rects@.len() - i,
    {
        let rect: Rect = rects[i];
        proof {
            lemma_dirty_area(rects@, i + 1);
            assert(rects@.take(i + 1).drop_last() =~= rects@.take(i as int));
            assert(0 <= rect.width * rect.height <= u64::MAX) by (nonlinear_arith)
                requires
                    0 <= rect.width <= u32::MAX,
                    0 <= rect.height <= u32::MAX,
            ;
        }
        sum = sum + rect.width as u64 * rect.height as u64;
        i += 1;
    }
    assert(rects@.take(i as int) =~= rects@);
    sum
}

/// The pixels of all of `rects`, counted once for each, however many there are.
fn all_dirty_pixels(rects: &Vec<Rect>) -> (sum: u128)
    ensures
        sum == dirty_area(rects@),
{
    let len: usize = rects.len();
    let mut sum: u128 = 0;
    let mut i: usize = 0;
    assert(rects@.take(0) =~= Seq::empty());
    while i < len
        invariant
            i <= len == rects@.len(),
            sum == dirty_area(rects@.take(i as int)),
            sum <= i * 0xFFFF_FFFF_FFFF_FFFF,
        decreases len - i,
    {
        let rect: Rect = rects[i];
        proof {
            assert(rects@.take(i + 1).drop_last() =~= rects@.take(i as int));
            assert(0 <= rect.width * rect.height <= 0xFFFF_FFFF_FFFF_FFFF) by (nonlinear_arith)
                requires
                    0 <= rect.width <= u32::MAX,
                    0 <= rect.height <= u32::MAX,
            ;
        }
        sum = sum + rect.width as u128 * rect.height as u128;
        i += 1;
    }
    assert(rects@.take(i as int) =~= rects@);
    sum
}

/// The pixels of a frame.
fn total_pixels(frame: &CapturedFrame) -> (total: u64)
    ensures
        total == total_area(*frame),
{
    proof {
        assert(0 <= frame.width * frame.height <= u64::MAX) by (nonlinear_arith)
            requires
                0 <= frame.width <= u32::MAX,
                0 <= frame.height <= u32::MAX,
        ;
    }
    frame.width as u64 * frame.height as u64
}

/// The smaller of two numbers.
fn smaller(a: u32, b: u32) -> (r: u32)
    ensures
        r == update::least(a as int, b as int),
{
    if a < b {
        a
    } else {
        b
    }
}

/// A changed rectangle, moved and cut so that it lies within the frame.
fn clamp(rect: Rect, width: u32, height: u32) -> (part: Rect)
    ensures
        part == clamped(rect, width as int, height as int),
{
    let last_x: u32 = if width > 0 {
        width - 1
    } else {
        0
    };
    let last_y: u32 = if height > 0 {
        height - 1
    } else {
        0
    };
    let x: u32 = smaller(rect.x, last_x);
    let y: u32 = smaller(rect.y, last_y);
    Rect { x, y, width: smaller(rect.width, width - x), height: smaller(rect.height, height - y) }
}

/// The parts of a frame that are tried one by one before the whole frame.
fn find_parts(frame: &CapturedFrame) -> (parts: Vec<Rect>)
    requires
        dirty_area(frame.dirty_rects@) <= u32::MAX,
    ensures
        parts@ == parts_to_encode(*frame),
{
    let rects: &Vec<Rect> = &frame.dirty_rects;
    let mut parts: Vec<Rect> = Vec::new();
    let raw: bool = match &frame.data {
        FrameData::Raw(_) => true,
        FrameData::PixelBuffer => false,
    };
    let area: u64 = dirty_pixels(rects);
    if area == 0 || area > UNCOMPRESSED_MAX_PIXELS as u64 || rects.len() > DIRTY_RECT_MAX_COUNT
        || !raw {
        return parts;
    }
    let mut i: usize = 0;
    assert(rects@.take(0) =~= Seq::empty());
    while i < rects.len()
        invariant
            i <= rects@.len(),
            parts@ == dirty_parts(rects@.take(i as int), frame.width as int, frame.height as int),
        decreases rects@.len() - i,
    {
        assert(rects@.take(i + 1).drop_last() =~= rects@.take(i as int));
        let part: Rect = clamp(rects[i], frame.width, frame.height);
        if part.width > 0 && part.height > 0 {
            parts.push(part);
        }
        i += 1;
    }
    assert(rects@.take(i as int) =~= rects@);
    parts
}

/// The lowest 32 bits of the bytes of a frame's H.264 rectangles.
fn count_bytes(rects: &Vec<H264Rect>) -> (bytes: u32)
    ensures
        bytes == low32(rects_bytes(update::rect_views(rects@))),
{
    let mut sum: u64 = 0;
    let mut i: usize = 0;
    let ghost views = update::rect_views(rects@);
    assert(views.take(0) =~= Seq::empty());
    while i < rects.len()
        invariant
            i <= rects@.len(),
            views == update::rect_views(rects@),
            sum < 0x1_0000_0000,
            sum == rects_bytes(views.take(i as int)) % 0x1_0000_0000,
        decreases rects@.len() - i,
    {
        proof {
            assert(views.take(i + 1).drop_last() =~= views.take(i as int));
        }
        let len: u64 = rects[i].h264_data.len() as u64;
        sum = (sum + len % 0x1_0000_0000) % 0x1_0000_0000;
        i += 1;
    }
    assert(views.take(i as int) =~= views);
    sum as u32
}

/// The lowest 32 bits of the sum of two sizes.
fn add_sizes(a: usize, b: usize) -> (sum: u32)
    ensures
        sum == low32((a + b) as nat),
{
    let low: u64 = (a as u64 % 0x1_0000_0000 + b as u64 % 0x1_0000_0000) % 0x1_0000_0000;
    low as u32
}

impl MacDisplayUpdates {
    /// Whether a rectangle is at hand while rectangles are being encoded.
    pub open spec fn wf(self) -> bool {
        self.phase matches EncodePhase::Rects { todo, next, .. } ==> next < todo@.len()
    }

    /// Takes a frame's activity into account: the capture rate drops after a
    /// run of quiet frames, and returns with the first busy one. Says which
    /// frame rate to set, if any.
    pub fn adjust_fps_for_activity(&mut self, frame: &CapturedFrame) -> (frame_rate: Option<u32>)
        requires
            total_area(*frame) == 0 || dirty_area(frame.dirty_rects@) <= u64::MAX,
        ensures
            (final(self)@, frame_rate) == after_activity(old(self)@, *frame),
            final(self).phase == old(self).phase,
    {
        let total: u64 = total_pixels(frame);
        if total == 0 || frame.dirty_rects.len() == 0 {
            return None;
        }
        let dirty: u64 = dirty_pixels(&frame.dirty_rects);
        if rounding::is_below_half_percent(dirty, total) {
            if self.low_activity_frames < u32::MAX {
                self.low_activity_frames = self.low_activity_frames + 1;
            }
            if self.low_activity_frames == LOW_ACTIVITY_RAMP_FRAMES && self.current_fps
                != LOW_ACTIVITY_MIN_FPS {
                self.current_fps = LOW_ACTIVITY_MIN_FPS;
                return Some(LOW_ACTIVITY_MIN_FPS);
            }
            None
        } else if self.low_activity_frames >= LOW_ACTIVITY_RAMP_FRAMES {
            self.current_fps = self.frame_rate;
            self.low_activity_frames = 0;
            Some(self.frame_rate)
        } else {
            self.low_activity_frames = 0;
            None
        }
    }

    /// Looks for a scene change in a frame and follows the quality ramp.
    pub fn apply_progressive_bitrate(&mut self, frame: &CapturedFrame) -> (ramp: ProgressiveAction)
        requires
            dirty_area(frame.dirty_rects@) <= u64::MAX,
        ensures
            ({
                let (expected, left) = progressive::evaluated(
                    old(self)@.ramp,
                    dirty_area(frame.dirty_rects@),
                    total_area(*frame),
                    old(self).last_applied_bitrate,
                );
                ramp == expected && final(self)@ == (UpdatesView { ramp: left, ..old(self)@ })
            }),
            final(self).phase == old(self).phase,
    {
        let total: u64 = total_pixels(frame);
        let dirty: u64 = dirty_pixels(&frame.dirty_rects);
        let base: u32 = self.last_applied_bitrate;
        self.progressive.evaluate(dirty, total, base)
    }

    /// The whole frame is encoded next.
    fn encode_whole(
        &mut self,
        frame: &CapturedFrame,
        use_444: bool,
        supports_444: bool,
    ) -> (action: EncodeAction)
        requires
            old(self).display_frame_count < u64::MAX,
        ensures
            final(self).wf(),
            (final(self)@, action@) == whole_frame(old(self)@, *frame, use_444, supports_444),
    {
        self.display_frame_count = self.display_frame_count + 1;
        match &frame.data {
            FrameData::PixelBuffer => {
                self.phase = EncodePhase::PixelBuffer;
                EncodeAction::EncodePixelBuffer
            },
            FrameData::Raw(_) => if use_444 && supports_444 {
                self.phase = EncodePhase::Full444;
                EncodeAction::Encode444
            } else {
                self.phase = EncodePhase::Full420;
                EncodeAction::Encode420
            },
        }
    }

    /// Hands on a frame, or nothing new where the encoder returned no data.
    fn finish_encoded(
        &mut self,
        frame: &CapturedFrame,
        main: EncodedFrame,
        aux: Option<Vec<u8>>,
        slow: bool,
    ) -> (action: EncodeAction)
        requires
            slow ==> old(self).overload_count < u64::MAX,
        ensures
            final(self).wf(),
            ({
                let aux = match aux {
                    Some(data) => Some(data@),
                    None => None,
                };
                (final(self)@, action@) == if main.data@.len() > 0 {
                    sent(old(self)@, *frame, main@, aux, slow)
                } else {
                    (UpdatesView { phase: PhaseView::Idle, ..old(self)@ }, left_out())
                }
            }),
    {
        self.phase = EncodePhase::Idle;
        if main.data.len() == 0 {
            return EncodeAction::Finish {
                update: Some(DisplayUpdate::DefaultPointer),
                stats: None,
                overload: false,
            };
        }
        let aux_len: usize = match &aux {
            Some(data) => data.len(),
            None => 0,
        };
        let bytes: u32 = add_sizes(main.data.len(), aux_len);
        let mut overload: bool = false;
        if slow {
            self.skip_next_frame = true;
            self.overload_count = self.overload_count + 1;
            overload = self.overload_count % OVERLOAD_WARNING_INTERVAL == 1;
        }
        EncodeAction::Finish {
            stats: Some(FrameStats { bytes, keyframe: Some(main.is_keyframe) }),
            update: Some(
                DisplayUpdate::GfxFrame(
                    GfxFrameUpdate {
                        width: to_u16(frame.width),
                        height: to_u16(frame.height),
                        enc_width: to_u16(main.width),
                        enc_height: to_u16(main.height),
                        is_keyframe: main.is_keyframe,
                        h264_data: main.data,
                        h264_aux: aux,
                    },
                ),
            ),
            overload,
        }
    }

    /// Notes one rectangle's result: the next rectangle follows, or all of them
    /// are handed on.
    fn finish_rect(
        &mut self,
        frame: &CapturedFrame,
        use_444: bool,
        supports_444: bool,
        todo: Vec<Rect>,
        next: usize,
        done: Vec<H264Rect>,
        encoded: EncodedFrame,
    ) -> (action: EncodeAction)
        requires
            next < todo@.len(),
            old(self)@.phase is Idle,
            old(self).display_frame_count < u64::MAX,
        ensures
            final(self).wf(),
            (final(self)@, action@) == stepped(
                UpdatesView {
                    phase: PhaseView::Rects {
                        use_444,
                        supports_444,
                        todo: todo@.skip(next as int),
                        done: update::rect_views(done@),
                    },
                    ..old(self)@
                },
                *frame,
                EventView::Rect(Some(encoded@)),
            ),
    {
        let part: Rect = todo[next];
        let mut done = done;
        let ghost before = done@;
        done.push(
            H264Rect {
                x: to_u16(part.x),
                y: to_u16(part.y),
                width: to_u16(part.width),
                height: to_u16(part.height),
                enc_width: to_u16(encoded.width),
                enc_height: to_u16(encoded.height),
                h264_data: encoded.data,
            },
        );
        assert(update::rect_views(done@) =~= update::rect_views(before).push(
            rect_view(part, encoded@),
        ));
        let ghost left = todo@.skip(next as int);
        assert(left[0] == part);
        if todo.len() - next > 1 {
            let following: Rect = todo[next + 1];
            assert(left[1] == following);
            assert(todo@.skip(next + 1) =~= left.drop_first());
            self.phase = EncodePhase::Rects { use_444, supports_444, todo, next: next + 1, done };
            EncodeAction::EncodeRect(following)
        } else {
            self.display_frame_count = self.display_frame_count + 1;
            let bytes: u32 = count_bytes(&done);
            EncodeAction::Finish {
                update: Some(
                    DisplayUpdate::GfxDirtyH264(
                        GfxDirtyH264Update {
                            rects: done,
                            width: to_u16(frame.width),
                            height: to_u16(frame.height),
                        },
                    ),
                ),
                stats: Some(FrameStats { bytes, keyframe: None }),
                overload: false,
            }
        }
    }

    /// Takes up a suggested bitrate that is far enough from the one in use.
    fn adapt_bitrate(&mut self, suggested: u32) -> (bitrate: Option<u32>)
        ensures
            ({
                let s = old(self)@;
                let change = worth_changing(suggested, s.last_applied_bitrate, s.base_bitrate);
                &&& bitrate == if change {
                    Some(suggested)
                } else {
                    None
                }
                &&& final(self)@ == if change {
                    UpdatesView { last_applied_bitrate: suggested, ..s }
                } else {
                    s
                }
            }),
            final(self).phase == old(self).phase,
    {
        let current: u32 = self.last_applied_bitrate;
        let gap: u32 = if suggested < current {
            current - suggested
        } else {
            suggested - current
        };
        if gap != 0 && gap as u64 * 10 > self.base_bitrate as u64 {
            self.last_applied_bitrate = suggested;
            Some(suggested)
        } else {
            None
        }
    }

    /// Whether an event answers the action before, and the sizes and counts that
    /// the next step works with fit their types.
    pub fn can_step(&self, frame: &CapturedFrame, event: &EncodeEvent) -> (yes: bool)
        ensures
            yes == (expected(self@.phase, event@) && step_fits(self@, *frame, event@)),
    {
        match (&self.phase, event) {
            (EncodePhase::Idle, EncodeEvent::Begin) => self.skip_next_frame || total_pixels(frame)
                == 0 || all_dirty_pixels(&frame.dirty_rects) <= u64::MAX as u128,
            (EncodePhase::Gfx, EncodeEvent::Gfx(_)) => self.has_encoder || can_make_bitmap(frame),
            (EncodePhase::Bitrate { .. }, EncodeEvent::Bitrate(_)) => all_dirty_pixels(
                &frame.dirty_rects,
            ) <= u64::MAX as u128,
            (EncodePhase::Apply { .. }, EncodeEvent::Applied { .. }) => all_dirty_pixels(
                &frame.dirty_rects,
            ) <= u32::MAX as u128 && self.display_frame_count < u64::MAX,
            (EncodePhase::Rects { .. }, EncodeEvent::Rect(_)) => self.display_frame_count
                < u64::MAX,
            (EncodePhase::PixelBuffer, EncodeEvent::Encoded { result, slow }) => result.is_none()
                || !*slow || self.overload_count < u64::MAX,
            (EncodePhase::Full420, EncodeEvent::Encoded { result, slow }) => result.is_none()
                || !*slow || self.overload_count < u64::MAX,
            (EncodePhase::Full444, EncodeEvent::Encoded444 { slow, .. }) => !*slow
                || self.overload_count < u64::MAX,
            _ => false,
        }
    }

    /// Takes the answer to the action before, and says what to do next with
    /// `frame`.
    #[verifier::rlimit(40)]
    pub fn encode_and_send(&mut self, frame: &CapturedFrame, event: EncodeEvent) -> (action:
        EncodeAction)
        requires
            old(self).wf(),
            expected(old(self)@.phase, event@),
            step_fits(old(self)@, *frame, event@),
        ensures
            final(self).wf(),
            (final(self)@, action@) == stepped(old(self)@, *frame, event@),
    {
        let mut phase = EncodePhase::Idle;
        core::mem::swap(&mut phase, &mut self.phase);
        match (phase, event) {
            (EncodePhase::Idle, EncodeEvent::Begin) => {
                if self.skip_next_frame {
                    self.skip_next_frame = false;
                    return EncodeAction::Finish {
                        update: Some(DisplayUpdate::DefaultPointer),
                        stats: None,
                        overload: false,
                    };
                }
                let frame_rate: Option<u32> = self.adjust_fps_for_activity(frame);
                self.phase = EncodePhase::Gfx;
                EncodeAction::ReadGfx { frame_rate }
            },
            (EncodePhase::Gfx, EncodeEvent::Gfx(status)) => {
                if status.ready && self.has_encoder {
                    let use_444: bool = self.mode_444 && status.avc444_supported
                        && status.avc444_enabled;
                    self.phase = EncodePhase::Bitrate { use_444 };
                    EncodeAction::ReadBitrate { base: self.base_bitrate }
                } else if self.has_encoder {
                    EncodeAction::Finish {
                        update: Some(DisplayUpdate::DefaultPointer),
                        stats: None,
                        overload: false,
                    }
                } else {
                    EncodeAction::Finish {
                        update: bitmap_update(frame),
                        stats: None,
                        overload: false,
                    }
                }
            },
            (EncodePhase::Bitrate { use_444 }, EncodeEvent::Bitrate(suggested)) => {
                let bitrate: Option<u32> = self.adapt_bitrate(suggested);
                let ramp: ProgressiveAction = self.apply_progressive_bitrate(frame);
                self.phase = EncodePhase::Apply { use_444 };
                EncodeAction::Apply { bitrate, ramp }
            },
            (EncodePhase::Apply { use_444 }, EncodeEvent::Applied { supports_444 }) => {
                let todo: Vec<Rect> = find_parts(frame);
                if todo.len() > 0 {
                    let first: Rect = todo[0];
                    let done: Vec<H264Rect> = Vec::new();
                    assert(todo@.skip(0) =~= todo@);
                    assert(update::rect_views(done@) =~= Seq::empty());
                    self.phase = EncodePhase::Rects { use_444, supports_444, todo, next: 0, done };
                    EncodeAction::EncodeRect(first)
                } else {
                    self.encode_whole(frame, use_444, supports_444)
                }
            },
            (
                EncodePhase::Rects { use_444, supports_444, todo, next, done },
                EncodeEvent::Rect(Some(encoded)),
            ) => {
                self.finish_rect(frame, use_444, supports_444, todo, next, done, encoded)
            },
            (EncodePhase::Rects { use_444, supports_444, .. }, EncodeEvent::Rect(None)) => {
                self.encode_whole(frame, use_444, supports_444)
            },
            (EncodePhase::PixelBuffer, EncodeEvent::Encoded { result: Some(encoded), slow }) => {
                self.finish_encoded(frame, encoded, None, slow)
            },
            (EncodePhase::Full444, EncodeEvent::Encoded444 { streams: Some((main, aux)), slow }) => {
                self.finish_encoded(frame, main, Some(aux), slow)
            },
            (EncodePhase::Full444, EncodeEvent::Encoded444 { streams: None, .. }) => {
                self.phase = EncodePhase::Full420;
                EncodeAction::Encode420
            },
            (EncodePhase::Full420, EncodeEvent::Encoded { result: Some(encoded), slow }) => {
                self.finish_encoded(frame, encoded, None, slow)
            },
            (EncodePhase::Full420, EncodeEvent::Encoded { result: None, .. }) => {
                EncodeAction::Finish {
                    update: Some(DisplayUpdate::DefaultPointer),
                    stats: None,
                    overload: false,
                }
            },
            _ => EncodeAction::Finish {
                update: Some(DisplayUpdate::DefaultPointer),
                stats: None,
                overload: false,
            },
        }
    }
}

} // verus!
