//! The display that a client sees: its size, what is captured of it, and how
//! its updates are awaited.

use vstd::prelude::*;

use crate::encode::{EncodePhase, MacDisplayUpdates, PhaseView, UpdatesView};
use crate::encode_laws;
use crate::frame::to_u16;
use crate::progressive::ProgressiveRamp;
use crate::update;
use crate::update::{DesktopSize, DisplayUpdate, UpdateView};

verus! {

/// The widest display where the screen's scale is not known.
pub const DEFAULT_MAX_WIDTH: u16 = 3840;

/// The highest display where the screen's scale is not known.
pub const DEFAULT_MAX_HEIGHT: u16 = 2160;

/// The form of captured pixels.
#[derive(Clone, Copy, Debug, PartialEq, Eq, Structural)]
pub enum CapturePixelFormat {
    Nv12,
    Bgra,
}

/// What the screen capturer is asked for.
#[derive(Clone, Copy, Debug, PartialEq, Eq, Structural)]
pub struct CaptureConfig {
    pub width: u32,
    pub height: u32,
    pub frame_rate: u32,
    pub pixel_format: CapturePixelFormat,
    pub show_cursor: bool,
}

/// The display of one server.
#[derive(Clone, Copy, Debug, PartialEq, Eq, Structural)]
pub struct MacDisplay {
    pub width: u16,
    pub height: u16,
    /// The largest size that a client can ask for.
    pub max_width: u16,
    pub max_height: u16,
    /// Whether the size stays as it was configured.
    pub fixed_resolution: bool,
    pub frame_rate: u32,
    /// Whether the encoder is to be the platform's.
    pub hardware_encoder: bool,
    /// Whether the 4:4:4 mode is asked for.
    pub mode_444: bool,
    /// Whether the pointer is part of the captured picture.
    pub show_cursor: bool,
    pub base_bitrate: u32,
}

/// The largest extent of a display that starts with `size` pixels on a screen
/// whose physical pixels are `scale` times as many.
pub open spec fn largest(size: u16, scale: Option<u32>, default: u16) -> int {
    match scale {
        Some(scale) => update::greatest(size as int, (size * scale) % 0x1_0000),
        None => update::greatest(size as int, default as int),
    }
}

/// The size that a display takes where a client asks for `width` by `height`
/// pixels; none where it keeps its size.
pub open spec fn resized(display: MacDisplay, width: u16, height: u16) -> Option<DesktopSize> {
    let w = if width < display.max_width {
        width
    } else {
        display.max_width
    };
    let h = if height < display.max_height {
        height
    } else {
        display.max_height
    };
    if !display.fixed_resolution && w > 0 && h > 0 && (w != display.width || h != display.height) {
        Some(DesktopSize { width: w, height: h })
    } else {
        None
    }
}

/// The larger of two extents.
fn larger(a: u16, b: u16) -> (r: u16)
    ensures
        r == update::greatest(a as int, b as int),
{
    if a < b {
        b
    } else {
        a
    }
}

impl MacDisplay {
    /// A display of `width` by `height` pixels. `scale` is the screen's scale,
    /// where it is known; `estimated_bitrate` serves where no bitrate is
    /// configured.
    pub fn new(
        width: u16,
        height: u16,
        fixed_resolution: bool,
        frame_rate: u32,
        hardware_encoder: bool,
        mode_444: bool,
        show_cursor: bool,
        bitrate_override: Option<u32>,
        estimated_bitrate: u32,
        scale: Option<u32>,
    ) -> (display: Self)
        requires
            scale matches Some(s) ==> width * s <= u32::MAX && height * s <= u32::MAX,
        ensures
            display == (MacDisplay {
                width,
                height,
                max_width: largest(width, scale, DEFAULT_MAX_WIDTH) as u16,
                max_height: largest(height, scale, DEFAULT_MAX_HEIGHT) as u16,
                fixed_resolution,
                frame_rate,
                hardware_encoder,
                mode_444,
                show_cursor,
                base_bitrate: match bitrate_override {
                    Some(bitrate) => bitrate,
                    None => estimated_bitrate,
                },
            }),
            is_new_display(
                display,
                DesktopSize { width, height },
                bitrate_override,
                estimated_bitrate,
                scale,
            ),
    {
        let base_bitrate: u32 = match bitrate_override {
            Some(bitrate) => bitrate,
            None => estimated_bitrate,
        };
        let (max_width, max_height) = match scale {
            Some(scale) => (
                larger(width, to_u16(width as u32 * scale)),
                larger(height, to_u16(height as u32 * scale)),
            ),
            None => (larger(width, DEFAULT_MAX_WIDTH), larger(height, DEFAULT_MAX_HEIGHT)),
        };
        MacDisplay {
            width,
            height,
            max_width,
            max_height,
            fixed_resolution,
            frame_rate,
            hardware_encoder,
            mode_444,
            show_cursor,
            base_bitrate,
        }
    }

    /// The size of the desktop.
    pub fn size(&self) -> (size: DesktopSize)
        ensures
            size == (DesktopSize { width: self.width, height: self.height }),
    {
        DesktopSize { width: self.width, height: self.height }
    }

    /// The size to take where a client asks for `width` by `height` pixels;
    /// none where the display keeps its size.
    pub fn request_resize(&self, width: u16, height: u16) -> (size: Option<DesktopSize>)
        ensures
            size == resized(*self, width, height),
    {
        if self.fixed_resolution {
            return None;
        }
        let w: u16 = if width < self.max_width {
            width
        } else {
            self.max_width
        };
        let h: u16 = if height < self.max_height {
            height
        } else {
            self.max_height
        };
        if w > 0 && h > 0 && (w != self.width || h != self.height) {
            Some(DesktopSize { width: w, height: h })
        } else {
            None
        }
    }

    /// Takes a new size, with the bitrate that goes with it.
    pub fn adopt_size(&mut self, size: DesktopSize, bitrate: u32)
        ensures
            *final(self) == (MacDisplay {
                width: size.width,
                height: size.height,
                base_bitrate: bitrate,
                ..*old(self)
            }),
            *final(self) == adopted(*old(self), size, bitrate),
    {
        self.width = size.width;
        self.height = size.height;
        self.base_bitrate = bitrate;
    }

    /// What the screen capturer is asked for. Only the platform's encoder in
    /// its 4:2:0 mode takes the platform's pixels.
    pub fn capture_config(&self) -> (config: CaptureConfig)
        ensures
            config == (CaptureConfig {
                width: self.width as u32,
                height: self.height as u32,
                frame_rate: self.frame_rate,
                pixel_format: if self.hardware_encoder && !self.mode_444 {
                    CapturePixelFormat::Nv12
                } else {
                    CapturePixelFormat::Bgra
                },
                show_cursor: self.show_cursor,
            }),
            config == capture_of(*self),
    {
        CaptureConfig {
            width: self.width as u32,
            height: self.height as u32,
            frame_rate: self.frame_rate,
            pixel_format: if self.hardware_encoder && !self.mode_444 {
                CapturePixelFormat::Nv12
            } else {
                CapturePixelFormat::Bgra
            },
            show_cursor: self.show_cursor,
        }
    }

    /// The stream of updates of this display, which starts afresh.
    /// `has_encoder` says whether an encoder could be made.
    pub fn updates(&self, has_encoder: bool) -> (updates: MacDisplayUpdates)
        ensures
            updates.wf(),
            updates@ == (UpdatesView {
                base_bitrate: self.base_bitrate,
                mode_444: self.mode_444,
                has_encoder,
                frame_rate: self.frame_rate,
                display_frame_count: 0,
                skip_next_frame: false,
                overload_count: 0,
                low_activity_frames: 0,
                current_fps: self.frame_rate,
                cursor_channel: !self.show_cursor,
                last_cursor_pos: (0u16, 0u16),
                cursor_initialized: false,
                last_applied_bitrate: self.base_bitrate,
                ramp: 0,
                phase: PhaseView::Idle,
            }),
            updates@ == fresh(*self, has_encoder),
            encode_laws::rate_follows_activity(updates@),
    {
        MacDisplayUpdates {
            base_bitrate: self.base_bitrate,
            mode_444: self.mode_444,
            has_encoder,
            frame_rate: self.frame_rate,
            display_frame_count: 0,
            skip_next_frame: false,
            overload_count: 0,
            low_activity_frames: 0,
            current_fps: self.frame_rate,
            cursor_channel: !self.show_cursor,
            last_cursor_pos: (0, 0),
            cursor_initialized: false,
            last_applied_bitrate: self.base_bitrate,
            progressive: ProgressiveRamp::new(),
            phase: EncodePhase::Idle,
        }
    }
}

/// Clients cannot ask for more than the largest size, nor for an empty one.
pub proof fn resize_stays_within_limits(display: MacDisplay, width: u16, height: u16)
    ensures
        resized(display, width, height) matches Some(size) ==> 0 < size.width <= display.max_width
            && 0 < size.height <= display.max_height && size.width <= width && size.height
            <= height,
        display.fixed_resolution ==> resized(display, width, height) is None,
{
}

/// A size that was taken is not taken again.
pub proof fn resize_happens_once(display: MacDisplay, width: u16, height: u16, bitrate: u32)
    ensures
        resized(display, width, height) matches Some(size) ==> resized(
            MacDisplay {
                width: size.width,
                height: size.height,
                base_bitrate: bitrate,
                ..display
            },
            width,
            height,
        ) is None,
{
}

/// A new display is no larger than its largest size.
pub proof fn new_display_fits(size: u16, scale: Option<u32>, default: u16)
    ensures
        size <= largest(size, scale, default) <= u16::MAX,
{
}

/// What happened while the next update is awaited.
#[derive(Clone, Copy, Debug, PartialEq, Eq, Structural)]
pub enum UpdateEvent {
    /// The next update is wanted.
    Start,
    /// The answer to [`UpdateAction::ReadCursor`].
    FirstCursor { x: u16, y: u16 },
    /// It was time to look at the pointer, which is here.
    Cursor { x: u16, y: u16 },
    /// A frame came.
    Frame,
    /// No more frames come.
    End,
}

/// What to do for the next update.
#[derive(Debug)]
pub enum UpdateAction {
    /// Find out where the pointer is.
    ReadCursor,
    /// Wait for a frame.
    WaitFrame,
    /// Wait until it is time to look at the pointer, or for a frame.
    WaitEither,
    /// Work on the frame that came.
    Encode,
    /// Here it is; none where the stream is over.
    Finish(Option<DisplayUpdate>),
}

/// What an action says.
pub enum UpdateActionView {
    ReadCursor,
    WaitFrame,
    WaitEither,
    Encode,
    Finish(Option<UpdateView>),
}

impl View for UpdateAction {
    type V = UpdateActionView;

    open spec fn view(&self) -> UpdateActionView {
        match *self {
            UpdateAction::ReadCursor => UpdateActionView::ReadCursor,
            UpdateAction::WaitFrame => UpdateActionView::WaitFrame,
            UpdateAction::WaitEither => UpdateActionView::WaitEither,
            UpdateAction::Encode => UpdateActionView::Encode,
            UpdateAction::Finish(update) => UpdateActionView::Finish(update::optional(update)),
        }
    }
}

/// The state after an event while the next update is awaited, and what to do.
pub open spec fn awaited(s: UpdatesView, event: UpdateEvent) -> (UpdatesView, UpdateActionView) {
    match event {
        UpdateEvent::Start => if s.cursor_channel && !s.cursor_initialized {
            (UpdatesView { cursor_initialized: true, ..s }, UpdateActionView::ReadCursor)
        } else if s.cursor_channel {
            (s, UpdateActionView::WaitEither)
        } else {
            (s, UpdateActionView::WaitFrame)
        },
        UpdateEvent::FirstCursor { x, y } => (
            UpdatesView { last_cursor_pos: (x, y), ..s },
            UpdateActionView::Finish(Some(UpdateView::DefaultPointer)),
        ),
        UpdateEvent::Cursor { x, y } => if (x, y) != s.last_cursor_pos {
            (
                UpdatesView { last_cursor_pos: (x, y), ..s },
                UpdateActionView::Finish(Some(UpdateView::PointerPosition { x, y })),
            )
        } else {
            (s, UpdateActionView::WaitEither)
        },
        UpdateEvent::Frame => (s, UpdateActionView::Encode),
        UpdateEvent::End => (s, UpdateActionView::Finish(None)),
    }
}

impl MacDisplayUpdates {
    /// Takes what happened while the next update is awaited, and says what to
    /// do.
    pub fn next_update(&mut self, event: UpdateEvent) -> (action: UpdateAction)
        ensures
            (final(self)@, action@) == awaited(old(self)@, event),
            final(self).phase == old(self).phase,
    {
        match event {
            UpdateEvent::Start => {
                if self.cursor_channel && !self.cursor_initialized {
                    self.cursor_initialized = true;
                    UpdateAction::ReadCursor
                } else if self.cursor_channel {
                    UpdateAction::WaitEither
                } else {
                    UpdateAction::WaitFrame
                }
            },
            UpdateEvent::FirstCursor { x, y } => {
                self.last_cursor_pos = (x, y);
                UpdateAction::Finish(Some(DisplayUpdate::DefaultPointer))
            },
            UpdateEvent::Cursor { x, y } => {
                if x != self.last_cursor_pos.0 || y != self.last_cursor_pos.1 {
                    self.last_cursor_pos = (x, y);
                    UpdateAction::Finish(Some(DisplayUpdate::PointerPosition { x, y }))
                } else {
                    UpdateAction::WaitEither
                }
            },
            UpdateEvent::Frame => UpdateAction::Encode,
            UpdateEvent::End => UpdateAction::Finish(None),
        }
    }
}

/// A pointer that stays where it is reported is not reported again.
pub proof fn pointer_is_reported_once(s: UpdatesView, x: u16, y: u16)
    ensures
        ({
            let after = awaited(s, UpdateEvent::Cursor { x, y }).0;
            &&& after.last_cursor_pos == (x, y)
            &&& awaited(after, UpdateEvent::Cursor { x, y }) == (
                after,
                UpdateActionView::WaitEither,
            )
        }),
{
}

/// Where the pointer goes its own way, it is announced before anything else, and
/// once only.
pub proof fn pointer_is_announced_once(s: UpdatesView, event: UpdateEvent)
    ensures
        awaited(s, event).1 is ReadCursor <==> event is Start && s.cursor_channel
            && !s.cursor_initialized,
        awaited(s, event).1 is ReadCursor ==> awaited(s, event).0.cursor_initialized,
        s.cursor_initialized ==> awaited(s, event).0.cursor_initialized,
{
}

/// What the capturer delivers.
#[derive(Clone, Copy, Debug, PartialEq, Eq, Structural)]
pub enum Captured {
    /// A frame.
    Frame,
    /// Nothing changed.
    Idle,
    /// Nothing: the stream has stopped, or nothing more is at hand.
    Nothing,
}

/// What happened while a frame is awaited.
#[derive(Clone, Copy, Debug, PartialEq, Eq, Structural)]
pub enum CaptureStep {
    /// A frame is wanted.
    Start,
    /// The capturer delivered this.
    Delivered(Captured),
    /// Behind the frame just delivered, this is at hand already.
    AtHand(Captured),
    /// The capturer was started again, or could not be.
    Restarted(bool),
    /// The fallback delivered a frame, or none.
    Fallback(bool),
    /// The pause is over.
    Rested,
}

/// What to do for the next frame.
#[derive(Clone, Copy, Debug, PartialEq, Eq, Structural)]
pub enum CaptureAction {
    /// Wait for what the capturer delivers.
    Read,
    /// Keep the frame, and look whether more is at hand.
    Peek,
    /// Try to start the capturer again.
    Restart,
    /// Ask the fallback for a frame.
    UseFallback,
    /// Pause for one frame of the fallback.
    Rest,
    /// Hand on the frame that was kept.
    HandOn,
    /// Hand on the fallback's frame.
    HandOnFallback,
}

/// What to do after a step: a stopped capturer is started again, with frames
/// from the fallback until that works; a frame with a newer one behind it is
/// dropped together with that.
pub open spec fn captured(step: CaptureStep) -> CaptureAction {
    match step {
        CaptureStep::Start => CaptureAction::Read,
        CaptureStep::Delivered(Captured::Frame) => CaptureAction::Peek,
        CaptureStep::Delivered(Captured::Idle) => CaptureAction::Read,
        CaptureStep::Delivered(Captured::Nothing) => CaptureAction::Restart,
        CaptureStep::AtHand(Captured::Frame) => CaptureAction::Read,
        CaptureStep::AtHand(_) => CaptureAction::HandOn,
        CaptureStep::Restarted(true) => CaptureAction::Read,
        CaptureStep::Restarted(false) => CaptureAction::UseFallback,
        CaptureStep::Fallback(true) => CaptureAction::HandOnFallback,
        CaptureStep::Fallback(false) => CaptureAction::Rest,
        CaptureStep::Rested => CaptureAction::Restart,
    }
}

/// Takes what happened while a frame is awaited, and says what to do.
pub fn next_frame(step: CaptureStep) -> (action: CaptureAction)
    ensures
        action == captured(step),
{
    match step {
        CaptureStep::Start => CaptureAction::Read,
        CaptureStep::Delivered(what) => match what {
            Captured::Frame => CaptureAction::Peek,
            Captured::Idle => CaptureAction::Read,
            Captured::Nothing => CaptureAction::Restart,
        },
        CaptureStep::AtHand(what) => match what {
            Captured::Frame => CaptureAction::Read,
            Captured::Idle => CaptureAction::HandOn,
            Captured::Nothing => CaptureAction::HandOn,
        },
        CaptureStep::Restarted(ok) => if ok {
            CaptureAction::Read
        } else {
            CaptureAction::UseFallback
        },
        CaptureStep::Fallback(ok) => if ok {
            CaptureAction::HandOnFallback
        } else {
            CaptureAction::Rest
        },
        CaptureStep::Rested => CaptureAction::Restart,
    }
}

/// A display whose size is not fixed ends up with the size that a client asks
/// for, each extent cut to its limit: it takes that size, or has it already.
/// Requests for nothing, and all requests where the size is fixed, change
/// nothing. A size is taken only where it is another one.
pub proof fn resize_gives_what_was_asked_for(display: MacDisplay, width: u16, height: u16)
    ensures
        ({
            let (w, h) = match resized(display, width, height) {
                Some(size) => (size.width, size.height),
                None => (display.width, display.height),
            };
            let heard = !display.fixed_resolution && width > 0 && height > 0 && display.max_width
                > 0 && display.max_height > 0;
            &&& heard && width <= display.max_width ==> w == width
            &&& heard && width > display.max_width ==> w == display.max_width
            &&& heard && height <= display.max_height ==> h == height
            &&& heard && height > display.max_height ==> h == display.max_height
            &&& !heard ==> w == display.width && h == display.height
            &&& resized(display, width, height) is Some <==> w != display.width || h
                != display.height
        }),
{
}

/// Without a known scale a display can grow to the default size. With one it can
/// grow to all physical pixels, as far as sixteen bits count them; it can always
/// have the size that it starts with.
pub proof fn displays_can_grow_to_the_screen(size: u16, scale: u32, default: u16)
    ensures
        size >= default ==> largest(size, None, default) == size,
        size < default ==> largest(size, None, default) == default,
        scale >= 1 && size * scale < 0x1_0000 ==> largest(size, Some(scale), default) == size
            * scale,
        largest(size, Some(scale), default) >= size,
        largest(size, Some(scale), default) == size || (size * scale - largest(
            size,
            Some(scale),
            default,
        )) % 0x1_0000 == 0,
        forall|n: int|
            0 <= n < 0x1_0000 && #[trigger] ((size * scale - n) % 0x1_0000) == 0 ==> largest(
                size,
                Some(scale),
                default,
            ) >= n,
{
    assert(scale >= 1 ==> size * scale >= size) by (nonlinear_arith);
    assert(size * scale >= 0) by (nonlinear_arith);
}

/// Every move of the pointer is reported, along whichever axis, with the place
/// where it is; a pointer that has not moved is not. Whatever is seen is what is
/// known afterwards, and nothing else changes.
pub proof fn every_move_is_reported(s: UpdatesView, x: u16, y: u16)
    ensures
        ({
            let (after, action) = awaited(s, UpdateEvent::Cursor { x, y });
            &&& x != s.last_cursor_pos.0 || y != s.last_cursor_pos.1 ==> action
                == UpdateActionView::Finish(Some(UpdateView::PointerPosition { x, y }))
            &&& x == s.last_cursor_pos.0 && y == s.last_cursor_pos.1 ==> action is WaitEither
            &&& after.last_cursor_pos.0 == x && after.last_cursor_pos.1 == y
            &&& after == UpdatesView { last_cursor_pos: after.last_cursor_pos, ..s }
        }),
{
}

/// Where the client has the pointer after some looks at it, when it had it at
/// `shown` before; and the state after them.
pub open spec fn pointer_shown(s: UpdatesView, shown: (u16, u16), looks: Seq<(u16, u16)>) -> (
    UpdatesView,
    (u16, u16),
)
    decreases looks.len(),
{
    if looks.len() == 0 {
        (s, shown)
    } else {
        let (before, had) = pointer_shown(s, shown, looks.drop_last());
        let (x, y) = looks.last();
        let (after, action) = awaited(before, UpdateEvent::Cursor { x, y });
        (
            after,
            match action {
                UpdateActionView::Finish(Some(UpdateView::PointerPosition { x, y })) => (x, y),
                _ => had,
            },
        )
    }
}

/// The client has the pointer where it was last seen, however it moved.
pub proof fn pointer_is_where_it_was_seen(
    s: UpdatesView,
    shown: (u16, u16),
    looks: Seq<(u16, u16)>,
)
    requires
        s.last_cursor_pos == shown,
    ensures
        looks.len() > 0 ==> pointer_shown(s, shown, looks).1 == looks.last(),
        pointer_shown(s, shown, looks).0.last_cursor_pos == pointer_shown(s, shown, looks).1,
    decreases looks.len(),
{
    if looks.len() > 0 {
        pointer_is_where_it_was_seen(s, shown, looks.drop_last());
    }
}

/// What happens while the next update is awaited: frames are worked on as they
/// come, and the stream is over when no more come. The pointer is looked at only
/// where it goes its own way; there the first look is noted and hands on its
/// shape, and every later wait is for a frame or the pointer.
pub proof fn updates_are_awaited(s: UpdatesView, x: u16, y: u16)
    ensures
        awaited(s, UpdateEvent::Frame) == (s, UpdateActionView::Encode),
        awaited(s, UpdateEvent::End) == (s, UpdateActionView::Finish(None)),
        awaited(s, UpdateEvent::FirstCursor { x, y }).1 == UpdateActionView::Finish(
            Some(UpdateView::DefaultPointer),
        ),
        awaited(s, UpdateEvent::FirstCursor { x, y }).0.last_cursor_pos == (x, y),
        ({
            let first = awaited(s, UpdateEvent::FirstCursor { x, y }).0;
            first == UpdatesView { last_cursor_pos: first.last_cursor_pos, ..s }
        }),
        awaited(s, UpdateEvent::Start).1 is WaitFrame <==> !s.cursor_channel,
        awaited(s, UpdateEvent::Start).1 is WaitEither <==> s.cursor_channel
            && s.cursor_initialized,
        ({
            let begun = awaited(s, UpdateEvent::Start).0;
            begun == UpdatesView { cursor_initialized: begun.cursor_initialized, ..s }
        }),
        !s.cursor_channel ==> awaited(s, UpdateEvent::Start).0 == s,
{
}

/// A frame is kept when it is delivered, and handed on where none is behind it; a
/// frame with one behind it is not. Only a capturer that stopped is started
/// again, and only where that fails does the fallback serve; a frame of the
/// fallback is handed on, and without one it rests before the next try.
pub proof fn frames_are_handed_on(step: CaptureStep)
    ensures
        captured(step) is Peek <==> step == CaptureStep::Delivered(Captured::Frame),
        captured(step) is HandOn <==> step == CaptureStep::AtHand(Captured::Idle) || step
            == CaptureStep::AtHand(Captured::Nothing),
        captured(step) is Restart <==> step == CaptureStep::Delivered(Captured::Nothing) || step
            is Rested,
        captured(step) is UseFallback <==> step == CaptureStep::Restarted(false),
        captured(step) is HandOnFallback <==> step == CaptureStep::Fallback(true),
        captured(step) is Rest <==> step == CaptureStep::Fallback(false),
        captured(step) is Read <==> step is Start || step == CaptureStep::Delivered(Captured::Idle)
            || step == CaptureStep::AtHand(Captured::Frame) || step == CaptureStep::Restarted(true),
{
}

/// Whether a display is one that was just made: it has the size asked for, can grow
/// to the screen in each extent, and has the bitrate that is set, or else the
/// estimated one.
pub open spec fn is_new_display(
    display: MacDisplay,
    size: DesktopSize,
    bitrate_override: Option<u32>,
    estimated_bitrate: u32,
    scale: Option<u32>,
) -> bool {
    &&& display.width == size.width
    &&& display.height == size.height
    &&& display.max_width == largest(size.width, scale, DEFAULT_MAX_WIDTH)
    &&& display.max_height == largest(size.height, scale, DEFAULT_MAX_HEIGHT)
    &&& bitrate_override matches Some(bitrate) ==> display.base_bitrate == bitrate
    &&& bitrate_override is None ==> display.base_bitrate == estimated_bitrate
}

/// A new display can take any size up to its own, and without a known scale any up
/// to 3840 by 2160; with one, any up to all physical pixels. What it takes is what
/// was asked for.
pub proof fn new_displays_take_what_fits(
    display: MacDisplay,
    size: DesktopSize,
    bitrate_override: Option<u32>,
    estimated_bitrate: u32,
    scale: Option<u32>,
    width: u16,
    height: u16,
)
    requires
        is_new_display(display, size, bitrate_override, estimated_bitrate, scale),
        !display.fixed_resolution,
        width > 0,
        height > 0,
        width <= size.width || scale is None && width <= 3840 || (scale matches Some(s) && s >= 1
            && size.width * s < 0x1_0000 && width <= size.width * s),
        height <= size.height || scale is None && height <= 2160 || (scale matches Some(s) && s >= 1
            && size.height * s < 0x1_0000 && height <= size.height * s),
    ensures
        width == size.width && height == size.height ==> resized(display, width, height) is None,
        width != size.width || height != size.height ==> resized(display, width, height) == Some(
            DesktopSize { width, height },
        ),
        bitrate_override matches Some(bitrate) ==> display.base_bitrate == bitrate,
        bitrate_override is None ==> display.base_bitrate == estimated_bitrate,
{
    if let Some(s) = scale {
        displays_can_grow_to_the_screen(size.width, s, DEFAULT_MAX_WIDTH);
        displays_can_grow_to_the_screen(size.height, s, DEFAULT_MAX_HEIGHT);
    }
}

/// A display that took a new size, with the bitrate that goes with it.
pub open spec fn adopted(display: MacDisplay, size: DesktopSize, bitrate: u32) -> MacDisplay {
    MacDisplay { width: size.width, height: size.height, base_bitrate: bitrate, ..display }
}

/// A display that takes what a client asks for within its limits has that size
/// afterwards, is captured in that size and encoded at the new bitrate; asked
/// again, it keeps it. Its limits and everything else stay.
pub proof fn taken_sizes_are_captured(
    display: MacDisplay,
    width: u16,
    height: u16,
    bitrate: u32,
    has_encoder: bool,
)
    requires
        !display.fixed_resolution,
        0 < width <= display.max_width,
        0 < height <= display.max_height,
        width != display.width || height != display.height,
    ensures
        resized(display, width, height) is Some,
        ({
            let after = adopted(display, resized(display, width, height)->Some_0, bitrate);
            let config = capture_of(after);
            &&& config.width == width && config.height == height
            &&& config.frame_rate == display.frame_rate
            &&& config.show_cursor == display.show_cursor
            &&& resized(after, width, height) is None
            &&& after.max_width == display.max_width && after.max_height == display.max_height
            &&& !after.fixed_resolution
            &&& fresh(after, has_encoder).base_bitrate == bitrate
            &&& fresh(after, has_encoder).last_applied_bitrate == bitrate
        }),
{
}

/// What the screen capturer is asked for.
pub open spec fn capture_of(display: MacDisplay) -> CaptureConfig {
    CaptureConfig {
        width: display.width as u32,
        height: display.height as u32,
        frame_rate: display.frame_rate,
        pixel_format: if display.hardware_encoder && !display.mode_444 {
            CapturePixelFormat::Nv12
        } else {
            CapturePixelFormat::Bgra
        },
        show_cursor: display.show_cursor,
    }
}

/// Just the platform's encoder in its 4:2:0 mode gets the platform's pixels, and
/// just a pointer that is not part of the picture goes its own way.
pub proof fn settings_reach_the_capture(display: MacDisplay, has_encoder: bool)
    ensures
        capture_of(display).pixel_format == CapturePixelFormat::Nv12 <==> display.hardware_encoder
            && !display.mode_444,
        capture_of(display).show_cursor <==> !fresh(display, has_encoder).cursor_channel,
        fresh(display, has_encoder).frame_rate == capture_of(display).frame_rate,
        fresh(display, has_encoder).current_fps == capture_of(display).frame_rate,
        capture_of(display).show_cursor == display.show_cursor,
        capture_of(display).frame_rate == display.frame_rate,
        fresh(display, has_encoder).mode_444 == display.mode_444,
        fresh(display, has_encoder).has_encoder == has_encoder,
{
}

/// The state of a stream of updates that starts afresh.
pub open spec fn fresh(display: MacDisplay, has_encoder: bool) -> UpdatesView {
    UpdatesView {
        base_bitrate: display.base_bitrate,
        mode_444: display.mode_444,
        has_encoder,
        frame_rate: display.frame_rate,
        display_frame_count: 0,
        skip_next_frame: false,
        overload_count: 0,
        low_activity_frames: 0,
        current_fps: display.frame_rate,
        cursor_channel: !display.show_cursor,
        last_cursor_pos: (0u16, 0u16),
        cursor_initialized: false,
        last_applied_bitrate: display.base_bitrate,
        ramp: 0,
        phase: PhaseView::Idle,
    }
}

/// A fresh stream works on its first frame, whatever came before it, counts from
/// zero, and has no ramp under way. It announces the pointer first where that goes
/// its own way.
pub proof fn fresh_streams_start_at_once(
    display: MacDisplay,
    has_encoder: bool,
    frame: crate::frame::CapturedFrame,
)
    ensures
        ({
            let s = fresh(display, has_encoder);
            &&& crate::encode::stepped(s, frame, crate::encode::EventView::Begin).1 is ReadGfx
            &&& awaited(s, UpdateEvent::Start).1 is ReadCursor <==> !display.show_cursor
            &&& s.display_frame_count == 0 && s.overload_count == 0 && s.low_activity_frames == 0
            &&& s.ramp == 0 && s.last_cursor_pos.0 == 0 && s.last_cursor_pos.1 == 0
        }),
{
}

/// An action says what it is, and the update that it hands on.
pub proof fn update_actions_say_what_they_are(action: UpdateAction, update: DisplayUpdate)
    ensures
        action@ is ReadCursor <==> action is ReadCursor,
        action@ is WaitFrame <==> action is WaitFrame,
        action@ is WaitEither <==> action is WaitEither,
        action@ is Encode <==> action is Encode,
        action@ is Finish <==> action is Finish,
        action == UpdateAction::Finish(None) ==> action@ == UpdateActionView::Finish(None),
        action == UpdateAction::Finish(Some(update)) ==> action@ == UpdateActionView::Finish(
            Some(update@),
        ),
{
}

} // verus!
