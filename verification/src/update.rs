//! The updates that a display hands on for its client.

use vstd::prelude::*;

use crate::frame;
use crate::frame::{
    another, as_bytes, copy_region, share, to_u16, BitmapUpdate, BitmapView, CapturedFrame,
    FrameData, PixelFormat, Rect, PIXEL_BYTES,
};

verus! {

/// The size of a desktop, in pixels.
#[derive(Clone, Copy, Debug, PartialEq, Eq, Structural)]
pub struct DesktopSize {
    pub width: u16,
    pub height: u16,
}

/// A whole frame as H.264, with the second stream of the 4:4:4 mode where it
/// has one.
#[derive(Debug)]
pub struct GfxFrameUpdate {
    pub h264_data: Vec<u8>,
    pub width: u16,
    pub height: u16,
    pub enc_width: u16,
    pub enc_height: u16,
    pub is_keyframe: bool,
    pub h264_aux: Option<Vec<u8>>,
}

/// One rectangle of a frame as H.264.
#[derive(Debug)]
pub struct H264Rect {
    pub x: u16,
    pub y: u16,
    pub width: u16,
    pub height: u16,
    pub enc_width: u16,
    pub enc_height: u16,
    pub h264_data: Vec<u8>,
}

/// The changed rectangles of a frame of `width` by `height` pixels.
#[derive(Debug)]
pub struct GfxDirtyH264Update {
    pub rects: Vec<H264Rect>,
    pub width: u16,
    pub height: u16,
}

/// What the client's screen is to show next.
#[derive(Debug)]
pub enum DisplayUpdate {
    /// The desktop has a new size.
    Resize(DesktopSize),
    /// Pixels.
    Bitmap(BitmapUpdate),
    /// The pointer has moved.
    PointerPosition { x: u16, y: u16 },
    /// The pointer has its default shape; also stands in for a frame that is
    /// left out.
    DefaultPointer,
    /// A frame for the graphics channel.
    GfxFrame(GfxFrameUpdate),
    /// Parts of a frame for the graphics channel.
    GfxDirtyH264(GfxDirtyH264Update),
}

/// What a frame update says.
pub struct GfxFrameView {
    pub h264_data: Seq<u8>,
    pub width: int,
    pub height: int,
    pub enc_width: int,
    pub enc_height: int,
    pub is_keyframe: bool,
    pub h264_aux: Option<Seq<u8>>,
}

/// What a rectangle update says.
pub struct H264RectView {
    pub x: int,
    pub y: int,
    pub width: int,
    pub height: int,
    pub enc_width: int,
    pub enc_height: int,
    pub h264_data: Seq<u8>,
}

/// What a display update says.
pub enum UpdateView {
    Resize(DesktopSize),
    Bitmap(BitmapView),
    PointerPosition { x: u16, y: u16 },
    DefaultPointer,
    GfxFrame(GfxFrameView),
    GfxDirtyH264 { rects: Seq<H264RectView>, width: int, height: int },
}

impl View for GfxFrameUpdate {
    type V = GfxFrameView;

    open spec fn view(&self) -> GfxFrameView {
        GfxFrameView {
            h264_data: self.h264_data@,
            width: self.width as int,
            height: self.height as int,
            enc_width: self.enc_width as int,
            enc_height: self.enc_height as int,
            is_keyframe: self.is_keyframe,
            h264_aux: match self.h264_aux {
                Some(data) => Some(data@),
                None => None,
            },
        }
    }
}

impl View for H264Rect {
    type V = H264RectView;

    open spec fn view(&self) -> H264RectView {
        H264RectView {
            x: self.x as int,
            y: self.y as int,
            width: self.width as int,
            height: self.height as int,
            enc_width: self.enc_width as int,
            enc_height: self.enc_height as int,
            h264_data: self.h264_data@,
        }
    }
}

/// What each of some rectangle updates says.
pub open spec fn rect_views(rects: Seq<H264Rect>) -> Seq<H264RectView> {
    Seq::new(rects.len(), |i: int| rects[i]@)
}

impl View for DisplayUpdate {
    type V = UpdateView;

    open spec fn view(&self) -> UpdateView {
        match *self {
            DisplayUpdate::Resize(size) => UpdateView::Resize(size),
            DisplayUpdate::Bitmap(bitmap) => UpdateView::Bitmap(bitmap@),
            DisplayUpdate::PointerPosition { x, y } => UpdateView::PointerPosition { x, y },
            DisplayUpdate::DefaultPointer => UpdateView::DefaultPointer,
            DisplayUpdate::GfxFrame(update) => UpdateView::GfxFrame(update@),
            DisplayUpdate::GfxDirtyH264(update) => UpdateView::GfxDirtyH264 {
                rects: rect_views(update.rects@),
                width: update.width as int,
                height: update.height as int,
            },
        }
    }
}

/// What an update that may be missing says.
pub open spec fn optional(update: Option<DisplayUpdate>) -> Option<UpdateView> {
    match update {
        Some(update) => Some(update@),
        None => None,
    }
}

/// The corners of a box: left, top, and the pixels right and below it.
pub struct Corners {
    pub left: int,
    pub top: int,
    pub right: int,
    pub bottom: int,
}

/// The smaller of two numbers.
pub open spec fn least(a: int, b: int) -> int {
    if a < b {
        a
    } else {
        b
    }
}

/// The larger of two numbers.
pub open spec fn greatest(a: int, b: int) -> int {
    if a < b {
        b
    } else {
        a
    }
}

/// The smallest box round all of `rects` and nothing else; with no rectangle,
/// one that starts at the frame's far corner and ends at its origin.
pub open spec fn enclosing(rects: Seq<Rect>, width: int, height: int) -> Corners
    decreases rects.len(),
{
    if rects.len() == 0 {
        Corners { left: width, top: height, right: 0, bottom: 0 }
    } else {
        let before = enclosing(rects.drop_last(), width, height);
        let rect = rects.last();
        Corners {
            left: least(before.left, rect.x as int),
            top: least(before.top, rect.y as int),
            right: greatest(before.right, rect.x + rect.width),
            bottom: greatest(before.bottom, rect.y + rect.height),
        }
    }
}

/// The box of what changed in a frame, cut off at the frame's edges.
pub open spec fn dirty_box(frame: CapturedFrame) -> Corners {
    let all = enclosing(frame.dirty_rects@, frame.width as int, frame.height as int);
    Corners {
        right: least(all.right, frame.width as int),
        bottom: least(all.bottom, frame.height as int),
        ..all
    }
}

/// Whether only the changed part of a frame is sent.
pub open spec fn has_dirty_box(frame: CapturedFrame) -> bool {
    let part = dirty_box(frame);
    frame.dirty_rects@.len() > 0 && part.left < part.right && part.top < part.bottom
}

/// The bitmap update for a frame: what changed, or all of it. A size that
/// sixteen bits make zero has none, and a buffer of the platform is left out.
pub open spec fn bitmap_view(frame: CapturedFrame) -> Option<UpdateView> {
    let part = dirty_box(frame);
    let (w, h) = (part.right - part.left, part.bottom - part.top);
    if frame.data is PixelBuffer {
        Some(UpdateView::DefaultPointer)
    } else if has_dirty_box(frame) {
        if w % 0x1_0000 == 0 || h % 0x1_0000 == 0 {
            None
        } else {
            Some(
                UpdateView::Bitmap(
                    BitmapView {
                        x: part.left % 0x1_0000,
                        y: part.top % 0x1_0000,
                        width: w % 0x1_0000,
                        height: h % 0x1_0000,
                        format: PixelFormat::BgrA32,
                        data: frame::region(
                            frame::pixels(frame),
                            frame.stride as int,
                            part.left,
                            part.top,
                            w,
                            h as nat,
                        ),
                        stride: w * PIXEL_BYTES,
                    },
                ),
            )
        }
    } else if frame::low16(frame.width) == 0 || frame::low16(frame.height) == 0 || frame.stride
        == 0 {
        None
    } else {
        Some(
            UpdateView::Bitmap(
                BitmapView {
                    x: 0,
                    y: 0,
                    width: frame::low16(frame.width),
                    height: frame::low16(frame.height),
                    format: PixelFormat::BgrA32,
                    data: frame::pixels(frame),
                    stride: frame.stride as int,
                },
            ),
        )
    }
}

/// Whether the corners of every changed rectangle are 32-bit numbers.
pub open spec fn corners_fit(frame: CapturedFrame) -> bool {
    forall|i: int|
        0 <= i < frame.dirty_rects@.len() ==> {
            let rect = #[trigger] frame.dirty_rects@[i];
            rect.x + rect.width <= u32::MAX && rect.y + rect.height <= u32::MAX
        }
}

/// Whether the changed part of a frame can be copied on this machine.
pub open spec fn dirty_box_fits(frame: CapturedFrame) -> bool {
    let part = dirty_box(frame);
    let (w, h) = (part.right - part.left, part.bottom - part.top);
    has_dirty_box(frame) && w % 0x1_0000 != 0 && h % 0x1_0000 != 0 ==> {
        &&& (part.bottom - 1) * frame.stride + part.right * PIXEL_BYTES <= usize::MAX
        &&& w * PIXEL_BYTES * h <= isize::MAX
    }
}

/// Whether the bitmap update for a frame can be made on this machine.
pub open spec fn bitmap_fits(frame: CapturedFrame) -> bool {
    frame.data is Raw ==> corners_fit(frame) && dirty_box_fits(frame)
}

/// What changed in a frame lies in the box that is sent.
pub proof fn dirty_box_covers_changes(frame: CapturedFrame, i: int, px: int, py: int)
    requires
        0 <= i < frame.dirty_rects@.len(),
        px < frame.width,
        py < frame.height,
        frame.dirty_rects@[i].x <= px < frame.dirty_rects@[i].x + frame.dirty_rects@[i].width,
        frame.dirty_rects@[i].y <= py < frame.dirty_rects@[i].y + frame.dirty_rects@[i].height,
    ensures
        has_dirty_box(frame),
        dirty_box(frame).left <= px < dirty_box(frame).right,
        dirty_box(frame).top <= py < dirty_box(frame).bottom,
{
    lemma_encloses(frame.dirty_rects@, frame.width as int, frame.height as int, i);
}

/// The box encloses each rectangle.
proof fn lemma_encloses(rects: Seq<Rect>, width: int, height: int, i: int)
    requires
        0 <= i < rects.len(),
    ensures
        ({
            let all = enclosing(rects, width, height);
            &&& all.left <= rects[i].x && all.top <= rects[i].y
            &&& rects[i].x + rects[i].width <= all.right
            &&& rects[i].y + rects[i].height <= all.bottom
        }),
    decreases rects.len(),
{
    if i < rects.len() - 1 {
        lemma_encloses(rects.drop_last(), width, height, i);
    }
}

/// Whether the corners of every changed rectangle are 32-bit numbers.
fn check_corners(frame: &CapturedFrame) -> (fit: bool)
    ensures
        fit == corners_fit(*frame),
{
    let rects: &Vec<Rect> = &frame.dirty_rects;
    let mut i: usize = 0;
    while i < rects.len()
        invariant
            rects == frame.dirty_rects,
            i <= rects@.len(),
            forall|j: int|
                0 <= j < i ==> {
                    let rect = #[trigger] rects@[j];
                    rect.x + rect.width <= u32::MAX && rect.y + rect.height <= u32::MAX
                },
        decreases rects@.len() - i,
    {
        let rect: Rect = rects[i];
        if rect.x > u32::MAX - rect.width || rect.y > u32::MAX - rect.height {
            assert(!(rects@[i as int].x + rects@[i as int].width <= u32::MAX && rects@[i as int].y
                + rects@[i as int].height <= u32::MAX));
            return false;
        }
        i += 1;
    }
    true
}

/// The box of what changed in a frame, with its corners as they are computed.
struct Bounds {
    left: u32,
    top: u32,
    right: u32,
    bottom: u32,
}

/// The box of what changed in a frame, cut off at the frame's edges.
fn find_box(frame: &CapturedFrame) -> (found: Bounds)
    requires
        corners_fit(*frame),
    ensures
        dirty_box(*frame) == (Corners {
            left: found.left as int,
            top: found.top as int,
            right: found.right as int,
            bottom: found.bottom as int,
        }),
        found.right <= frame.width,
        found.bottom <= frame.height,
{
    let mut min_x: u32 = frame.width;
    let mut min_y: u32 = frame.height;
    let mut max_x: u32 = 0;
    let mut max_y: u32 = 0;
    let rects: &Vec<Rect> = &frame.dirty_rects;
    let mut i: usize = 0;
    assert(rects@.take(0) =~= Seq::empty());
    while i < rects.len()
        invariant
            rects == frame.dirty_rects,
            corners_fit(*frame),
            i <= rects@.len(),
            enclosing(rects@.take(i as int), frame.width as int, frame.height as int) == (Corners {
                left: min_x as int,
                top: min_y as int,
                right: max_x as int,
                bottom: max_y as int,
            }),
        decreases rects@.len() - i,
    {
        let rect: Rect = rects[i];
        if rect.x < min_x {
            min_x = rect.x;
        }
        if rect.y < min_y {
            min_y = rect.y;
        }
        if max_x < rect.x + rect.width {
            max_x = rect.x + rect.width;
        }
        if max_y < rect.y + rect.height {
            max_y = rect.y + rect.height;
        }
        assert(rects@.take(i + 1).drop_last() =~= rects@.take(i as int));
        i += 1;
    }
    assert(rects@.take(i as int) =~= rects@);
    Bounds {
        left: min_x,
        top: min_y,
        right: if max_x < frame.width {
            max_x
        } else {
            frame.width
        },
        bottom: if max_y < frame.height {
            max_y
        } else {
            frame.height
        },
    }
}

/// Whether the bitmap update for a frame can be made on this machine.
pub fn can_make_bitmap(frame: &CapturedFrame) -> (yes: bool)
    ensures
        yes == bitmap_fits(*frame),
{
    match &frame.data {
        FrameData::PixelBuffer => return true,
        FrameData::Raw(_) => {},
    }
    if !check_corners(frame) {
        return false;
    }
    let part: Bounds = find_box(frame);
    if frame.dirty_rects.len() == 0 || part.left >= part.right || part.top >= part.bottom {
        return true;
    }
    let w: u32 = part.right - part.left;
    let h: u32 = part.bottom - part.top;
    if to_u16(w) == 0 || to_u16(h) == 0 {
        return true;
    }
    proof {
        assert((part.bottom - 1) * frame.stride <= 0x1_0000_0000 * 0x1_0000_0000_0000_0000)
            by (nonlinear_arith)
            requires
                0 < part.bottom <= u32::MAX,
                0 <= frame.stride <= 0xFFFF_FFFF_FFFF_FFFF,
        ;
        assert(w * PIXEL_BYTES * h <= 0x4_0000_0000 * 0x1_0000_0000) by (nonlinear_arith)
            requires
                0 <= w <= u32::MAX,
                0 <= h <= u32::MAX,
                PIXEL_BYTES == 4,
        ;
        assert(0 <= (part.bottom - 1) * frame.stride) by (nonlinear_arith)
            requires
                0 < part.bottom,
                0 <= frame.stride,
        ;
    }
    let pixel: u128 = PIXEL_BYTES as u128;
    let end: u128 = (part.bottom - 1) as u128 * frame.stride as u128 + part.right as u128 * pixel;
    let size: u128 = w as u128 * pixel * h as u128;
    end <= usize::MAX as u128 && size <= isize::MAX as u128
}

/// The bitmap update for a frame.
pub fn bitmap_update(frame: &CapturedFrame) -> (update: Option<DisplayUpdate>)
    requires
        bitmap_fits(*frame),
    ensures
        optional(update) == bitmap_view(*frame),
{
    let buffer = match &frame.data {
        FrameData::Raw(buffer) => buffer,
        FrameData::PixelBuffer => return Some(DisplayUpdate::DefaultPointer),
    };
    let part: Bounds = find_box(frame);
    if frame.dirty_rects.len() > 0 && part.right > part.left && part.bottom > part.top {
        let w: u32 = part.right - part.left;
        let h: u32 = part.bottom - part.top;
        let width: u16 = to_u16(w);
        let height: u16 = to_u16(h);
        if width == 0 || height == 0 {
            return None;
        }
        proof {
            assert(w * PIXEL_BYTES <= w * PIXEL_BYTES * h) by (nonlinear_arith)
                requires
                    h >= 1,
            ;
        }
        let data: Vec<u8> = copy_region(
            as_bytes(buffer),
            frame.stride,
            part.left as usize,
            part.top as usize,
            w as usize,
            h as usize,
        );
        return Some(
            DisplayUpdate::Bitmap(
                BitmapUpdate {
                    x: to_u16(part.left),
                    y: to_u16(part.top),
                    width,
                    height,
                    format: PixelFormat::BgrA32,
                    data: share(data),
                    stride: w as usize * PIXEL_BYTES,
                },
            ),
        );
    }
    let width: u16 = to_u16(frame.width);
    let height: u16 = to_u16(frame.height);
    if width == 0 || height == 0 || frame.stride == 0 {
        return None;
    }
    Some(
        DisplayUpdate::Bitmap(
            BitmapUpdate {
                x: 0,
                y: 0,
                width,
                height,
                format: PixelFormat::BgrA32,
                data: another(buffer),
                stride: frame.stride,
            },
        ),
    )
}

/// The box of what changed is the smallest: it lies within every box that has all
/// changed rectangles in it, as far as that goes into the frame.
pub proof fn dirty_box_is_smallest(frame: CapturedFrame, other: Corners)
    requires
        other.left <= frame.width,
        other.top <= frame.height,
        other.right >= 0,
        other.bottom >= 0,
        forall|i: int|
            0 <= i < frame.dirty_rects@.len() ==> {
                let rect = #[trigger] frame.dirty_rects@[i];
                &&& other.left <= rect.x && rect.x + rect.width <= other.right
                &&& other.top <= rect.y && rect.y + rect.height <= other.bottom
            },
    ensures
        dirty_box(frame).left >= other.left,
        dirty_box(frame).top >= other.top,
        dirty_box(frame).right <= other.right,
        dirty_box(frame).bottom <= other.bottom,
        dirty_box(frame).right <= frame.width,
        dirty_box(frame).bottom <= frame.height,
        dirty_box(frame).left >= 0,
        dirty_box(frame).top >= 0,
{
    lemma_smallest(frame.dirty_rects@, frame.width as int, frame.height as int, other);
}

/// The box round rectangles lies within every other box round them.
proof fn lemma_smallest(rects: Seq<Rect>, width: int, height: int, other: Corners)
    requires
        0 <= width,
        0 <= height,
        other.left <= width,
        other.top <= height,
        other.right >= 0,
        other.bottom >= 0,
        forall|i: int|
            0 <= i < rects.len() ==> {
                let rect = #[trigger] rects[i];
                &&& other.left <= rect.x && rect.x + rect.width <= other.right
                &&& other.top <= rect.y && rect.y + rect.height <= other.bottom
            },
    ensures
        ({
            let all = enclosing(rects, width, height);
            &&& all.left >= other.left && all.top >= other.top
            &&& all.right <= other.right && all.bottom <= other.bottom
            &&& all.left >= 0 && all.top >= 0
        }),
    decreases rects.len(),
{
    if rects.len() > 0 {
        lemma_smallest(rects.drop_last(), width, height, other);
        let last = rects[rects.len() - 1];
        assert(other.left <= last.x);
    }
}

/// The bitmap for a frame lies within it, shows its pixels, and shows every pixel
/// that changed; where nothing is known to have changed within the frame, it
/// shows all of it. Its rows are as far apart as it says.
pub proof fn bitmaps_show_the_frame(frame: CapturedFrame, px: int, py: int, k: int)
    requires
        frame.data is Raw,
        0 < frame.width < 0x1_0000,
        0 < frame.height < 0x1_0000,
        frame.width * 4 <= frame.stride,
        frame.height * frame.stride <= frame::pixels(frame).len(),
        0 <= px < frame.width,
        0 <= py < frame.height,
        0 <= k < 4,
    ensures
        ({
            let changed = exists|i: int|
                0 <= i < frame.dirty_rects@.len() && {
                    let rect = #[trigger] frame.dirty_rects@[i];
                    rect.x <= px < rect.x + rect.width && rect.y <= py < rect.y + rect.height
                };
            bitmap_view(frame) matches Some(UpdateView::Bitmap(shown)) && {
                let inside = shown.x <= px < shown.x + shown.width && shown.y <= py < shown.y
                    + shown.height;
                &&& 0 <= shown.x && shown.x + shown.width <= frame.width
                &&& 0 <= shown.y && shown.y + shown.height <= frame.height
                &&& shown.width > 0 && shown.height > 0
                &&& changed ==> inside
                &&& frame.dirty_rects@.len() == 0 ==> inside
                &&& inside ==> shown.data[(py - shown.y) * shown.stride + (px - shown.x) * 4 + k]
                    == frame::pixels(frame)[py * frame.stride + px * 4 + k]
                &&& shown.format == PixelFormat::BgrA32
            }
        }),
{
    let data = frame::pixels(frame);
    let stride = frame.stride as int;
    let part = dirty_box(frame);
    let changed = exists|i: int|
        0 <= i < frame.dirty_rects@.len() && {
            let rect = #[trigger] frame.dirty_rects@[i];
            rect.x <= px < rect.x + rect.width && rect.y <= py < rect.y + rect.height
        };
    if changed {
        let i = choose|i: int|
            0 <= i < frame.dirty_rects@.len() && {
                let rect = #[trigger] frame.dirty_rects@[i];
                rect.x <= px < rect.x + rect.width && rect.y <= py < rect.y + rect.height
            };
        dirty_box_covers_changes(frame, i, px, py);
    }
    lemma_box_starts_within(frame.dirty_rects@, frame.width as int, frame.height as int);
    if has_dirty_box(frame) {
        let (w, h) = (part.right - part.left, part.bottom - part.top);
        assert((part.top + h) * stride <= data.len()) by (nonlinear_arith)
            requires
                part.top + h <= frame.height,
                stride >= 0,
                frame.height * stride <= data.len(),
        ;
        if part.left <= px < part.right && part.top <= py < part.bottom {
            frame::regions_keep_their_pixels(
                data,
                stride,
                part.left,
                part.top,
                w,
                h as nat,
                px,
                py,
                k,
            );
        }
    }
}

/// The box round rectangles starts at no negative place.
proof fn lemma_box_starts_within(rects: Seq<Rect>, width: int, height: int)
    requires
        0 <= width,
        0 <= height,
    ensures
        enclosing(rects, width, height).left >= 0,
        enclosing(rects, width, height).top >= 0,
    decreases rects.len(),
{
    if rects.len() > 0 {
        lemma_box_starts_within(rects.drop_last(), width, height);
    }
}

/// A buffer of the platform makes no bitmap.
pub proof fn platform_buffers_make_no_bitmap(frame: CapturedFrame)
    requires
        frame.data is PixelBuffer,
    ensures
        bitmap_view(frame) == Some(UpdateView::DefaultPointer),
{
}

/// Where something within the frame changed, the bitmap shows no more than the
/// smallest box round it: it lies within every box that has all changed
/// rectangles in it. Its rows follow each other closely.
pub proof fn bitmaps_show_only_what_changed(
    frame: CapturedFrame,
    other: Corners,
    i: int,
    px: int,
    py: int,
)
    requires
        frame.data is Raw,
        frame.width < 0x1_0000,
        frame.height < 0x1_0000,
        0 <= i < frame.dirty_rects@.len(),
        px < frame.width,
        py < frame.height,
        frame.dirty_rects@[i].x <= px < frame.dirty_rects@[i].x + frame.dirty_rects@[i].width,
        frame.dirty_rects@[i].y <= py < frame.dirty_rects@[i].y + frame.dirty_rects@[i].height,
        other.left <= frame.width,
        other.top <= frame.height,
        forall|j: int|
            0 <= j < frame.dirty_rects@.len() ==> {
                let rect = #[trigger] frame.dirty_rects@[j];
                &&& other.left <= rect.x && rect.x + rect.width <= other.right
                &&& other.top <= rect.y && rect.y + rect.height <= other.bottom
            },
    ensures
        bitmap_view(frame) matches Some(UpdateView::Bitmap(shown)) && {
            &&& other.left <= shown.x && shown.x + shown.width <= other.right
            &&& other.top <= shown.y && shown.y + shown.height <= other.bottom
            &&& shown.stride == shown.width * 4
        },
{
    assert(other.right >= 0 && other.bottom >= 0) by {
        let rect = frame.dirty_rects@[i];
        assert(other.left <= rect.x);
    }
    dirty_box_covers_changes(frame, i, px, py);
    dirty_box_is_smallest(frame, other);
}

/// The bitmap for a frame of which nothing is known to have changed has the frame's
/// pixels as they are, and its size as far as sixteen bits hold it. There is none
/// just where these leave nothing of it, or where its rows have no bytes.
pub proof fn whole_frames_are_shown_as_they_are(frame: CapturedFrame)
    requires
        frame.data is Raw,
        frame.dirty_rects@.len() == 0,
    ensures
        bitmap_view(frame) is None <==> frame.width % 0x1_0000 == 0 || frame.height % 0x1_0000 == 0
            || frame.stride == 0,
        bitmap_view(frame) is Some ==> (bitmap_view(frame) matches Some(UpdateView::Bitmap(shown))
            && shown.x == 0 && shown.y == 0 && shown.width == frame.width % 0x1_0000
            && shown.height == frame.height % 0x1_0000 && shown.stride == frame.stride
            && shown.data == frame::pixels(frame)),
{
}

/// Updates say what their fields hold: each frame and each rectangle its own place,
/// size and data, rectangles in order, and each update what it is.
pub proof fn updates_say_what_they_hold(
    update: DisplayUpdate,
    whole: GfxFrameUpdate,
    rect: H264Rect,
    parts: GfxDirtyH264Update,
    i: int,
)
    ensures
        rect@.x == rect.x && rect@.y == rect.y,
        rect@.width == rect.width && rect@.height == rect.height,
        rect@.enc_width == rect.enc_width && rect@.enc_height == rect.enc_height,
        rect@.h264_data == rect.h264_data@,
        whole@.width == whole.width && whole@.height == whole.height,
        whole@.enc_width == whole.enc_width && whole@.enc_height == whole.enc_height,
        whole@.h264_data == whole.h264_data@ && whole@.is_keyframe == whole.is_keyframe,
        whole@.h264_aux is Some <==> whole.h264_aux is Some,
        whole.h264_aux matches Some(data) ==> whole@.h264_aux == Some(data@),
        update@ is Bitmap <==> update is Bitmap,
        update@ is GfxFrame <==> update is GfxFrame,
        update@ is GfxDirtyH264 <==> update is GfxDirtyH264,
        update@ is DefaultPointer <==> update is DefaultPointer,
        update matches DisplayUpdate::Resize(size) ==> update@ == UpdateView::Resize(size),
        update matches DisplayUpdate::PointerPosition { x, y } ==> update@
            == (UpdateView::PointerPosition { x, y }),
        update matches DisplayUpdate::Bitmap(bitmap) ==> update@ == UpdateView::Bitmap(bitmap@),
        update matches DisplayUpdate::GfxFrame(frame) ==> update@ == UpdateView::GfxFrame(frame@),
        DisplayUpdate::GfxDirtyH264(parts)@ matches UpdateView::GfxDirtyH264 {
            rects,
            width,
            height,
        } && width == parts.width && height == parts.height && rects.len() == parts.rects@.len()
            && (0 <= i < rects.len() ==> rects[i] == parts.rects@[i]@),
        optional(Some(update)) == Some(update@),
        optional(None) is None,
{
}

} // verus!
