//! What holds of the work on every frame.

use vstd::prelude::*;

use crate::encode;
use crate::encode::{
    ActionView, EncodeAction, EncodeEvent, EncodedFrame, EncodedView, EventView, GfxStatus,
    MacDisplayUpdates, PhaseView, UpdatesView, DIRTY_RECT_MAX_COUNT, LOW_ACTIVITY_MIN_FPS,
    LOW_ACTIVITY_RAMP_FRAMES,
};
use crate::frame::{CapturedFrame, Rect};
use crate::progressive;
use crate::rounding;
use crate::update::{DisplayUpdate, H264RectView, UpdateView};

verus! {

/// Whether the capture rate is the one that the activity calls for.
pub open spec fn rate_follows_activity(s: UpdatesView) -> bool {
    s.current_fps == if s.low_activity_frames < LOW_ACTIVITY_RAMP_FRAMES {
        s.frame_rate
    } else {
        LOW_ACTIVITY_MIN_FPS
    }
}

/// Whatever happens, the capture rate follows the activity: the low rate after
/// a long enough run of quiet frames, else the full rate.
pub proof fn capture_rate_is_right(s: UpdatesView, frame: CapturedFrame, event: EventView)
    requires
        rate_follows_activity(s),
        encode::expected(s.phase, event),
    ensures
        rate_follows_activity(encode::stepped(s, frame, event).0),
        encode::stepped(s, frame, event).0.frame_rate == s.frame_rate,
{
}

/// A busy frame brings the full capture rate back at once.
pub proof fn activity_restores_the_rate(s: UpdatesView, frame: CapturedFrame)
    requires
        rate_follows_activity(s),
        encode::total_area(frame) > 0,
        frame.dirty_rects@.len() > 0,
        !crate::rounding::below_half_percent(
            encode::dirty_area(frame.dirty_rects@),
            encode::total_area(frame),
        ),
    ensures
        encode::after_activity(s, frame).0.current_fps == s.frame_rate,
        encode::after_activity(s, frame).0.low_activity_frames == 0,
{
}

/// How many more steps the work on a frame takes at most.
pub open spec fn steps_left(phase: PhaseView) -> nat {
    match phase {
        PhaseView::Idle => (DIRTY_RECT_MAX_COUNT + 6) as nat,
        PhaseView::Gfx => (DIRTY_RECT_MAX_COUNT + 5) as nat,
        PhaseView::Bitrate { .. } => (DIRTY_RECT_MAX_COUNT + 4) as nat,
        PhaseView::Apply { .. } => (DIRTY_RECT_MAX_COUNT + 3) as nat,
        PhaseView::Rects { todo, .. } => 2 + todo.len(),
        PhaseView::Full444 => 2,
        PhaseView::PixelBuffer => 1,
        PhaseView::Full420 => 1,
    }
}

/// The parts of a frame are no more than its changed rectangles.
proof fn lemma_dirty_parts_len(rects: Seq<Rect>, width: int, height: int)
    ensures
        encode::dirty_parts(rects, width, height).len() <= rects.len(),
    decreases rects.len(),
{
    if rects.len() > 0 {
        lemma_dirty_parts_len(rects.drop_last(), width, height);
    }
}

/// The work on a frame comes to an end: each step either finishes it, and the
/// next frame can begin, or leaves fewer steps.
pub proof fn every_frame_finishes(s: UpdatesView, frame: CapturedFrame, event: EventView)
    requires
        encode::expected(s.phase, event),
        s.phase matches PhaseView::Rects { todo, .. } ==> todo.len() > 0,
    ensures
        ({
            let (next, action) = encode::stepped(s, frame, event);
            &&& action is Finish <==> next.phase is Idle
            &&& action is Finish || steps_left(next.phase) < steps_left(s.phase)
            &&& next.phase matches PhaseView::Rects { todo, .. } ==> todo.len() > 0
        }),
{
    lemma_dirty_parts_len(frame.dirty_rects@, frame.width as int, frame.height as int);
}

/// Bitmaps and encoded frames are not mixed: with an encoder, no bitmap goes
/// out, whatever comes of a frame.
pub proof fn encoder_means_no_bitmap(s: UpdatesView, frame: CapturedFrame, event: EventView)
    requires
        encode::expected(s.phase, event),
        s.has_encoder,
    ensures
        encode::stepped(s, frame, event).1 matches ActionView::Finish { update, .. } ==> !(update
            matches Some(UpdateView::Bitmap(_))),
{
}

/// Without an encoder nothing but bitmaps goes out.
pub proof fn no_encoder_means_bitmap(s: UpdatesView, frame: CapturedFrame, event: EventView)
    requires
        s.phase is Gfx,
        event is Gfx,
        !s.has_encoder,
    ensures
        encode::stepped(s, frame, event).1 == (ActionView::Finish {
            update: crate::update::bitmap_view(frame),
            stats: None,
            overload: false,
        }),
{
}

/// Whether an encoder's result is there, and took too long.
pub open spec fn is_late(event: EventView) -> bool {
    match event {
        EventView::Encoded { result: Some(encoded), slow } => slow && encoded.data.len() > 0,
        EventView::Encoded444 { streams: Some((main, _)), slow } => slow && main.data.len() > 0,
        _ => false,
    }
}

/// A frame that took the encoder too long goes out, and costs the next frame,
/// and only that.
pub proof fn overload_skips_one_frame(
    s: UpdatesView,
    frame: CapturedFrame,
    event: EventView,
    next_frame: CapturedFrame,
)
    requires
        encode::expected(s.phase, event),
        is_late(event),
    ensures
        ({
            let (after, sent) = encode::stepped(s, frame, event);
            let (skipped, action) = encode::stepped(after, next_frame, EventView::Begin);
            &&& sent matches ActionView::Finish { update: Some(UpdateView::GfxFrame(_)), .. }
            &&& action == encode::left_out()
            &&& !skipped.skip_next_frame
            &&& skipped == UpdatesView { skip_next_frame: false, ..after }
            &&& encode::stepped(skipped, next_frame, EventView::Begin).1 is ReadGfx
        }),
{
}

/// The parts that are encoded one by one lie within the frame and are not
/// empty.
pub proof fn parts_lie_within_the_frame(rects: Seq<Rect>, width: int, height: int, i: int)
    requires
        0 <= width <= u32::MAX,
        0 <= height <= u32::MAX,
        0 <= i < encode::dirty_parts(rects, width, height).len(),
    ensures
        ({
            let part = encode::dirty_parts(rects, width, height)[i];
            &&& part.width > 0 && part.x + part.width <= width
            &&& part.height > 0 && part.y + part.height <= height
        }),
    decreases rects.len(),
{
    if rects.len() > 0 {
        let before = encode::dirty_parts(rects.drop_last(), width, height);
        if i < before.len() {
            parts_lie_within_the_frame(rects.drop_last(), width, height, i);
        }
    }
}

/// The changed pixels of a frame are those of each of its rectangles, added up.
pub proof fn changed_pixels_add_up(rects: Seq<Rect>, rect: Rect, frame: CapturedFrame)
    ensures
        encode::dirty_area(Seq::empty()) == 0,
        encode::dirty_area(rects.push(rect)) == encode::dirty_area(rects) + rect.width
            * rect.height,
        encode::total_area(frame) == frame.width * frame.height,
{
    assert(rects.push(rect).drop_last() =~= rects);
    assert(rect.width * rect.height >= 0) by (nonlinear_arith)
        requires
            rect.width >= 0,
            rect.height >= 0,
    ;
    assert(frame.width * frame.height >= 0) by (nonlinear_arith)
        requires
            frame.width >= 0,
            frame.height >= 0,
    ;
}

/// The parts of a frame are its changed rectangles, in order, each cut to the
/// frame. One that starts beyond an edge is moved to the last pixels before it.
pub proof fn parts_are_what_changed(rects: Seq<Rect>, width: int, height: int)
    requires
        0 < width <= u32::MAX,
        0 < height <= u32::MAX,
        forall|i: int|
            0 <= i < rects.len() ==> (#[trigger] rects[i]).width > 0 && rects[i].height > 0,
    ensures
        encode::dirty_parts(rects, width, height).len() == rects.len(),
        forall|i: int|
            0 <= i < rects.len() ==> {
                let (rect, part) = (rects[i], #[trigger] encode::dirty_parts(
                    rects,
                    width,
                    height,
                )[i]);
                &&& rect.x < width ==> part.x == rect.x
                &&& rect.x >= width ==> part.x == width - 1
                &&& rect.y < height ==> part.y == rect.y
                &&& rect.y >= height ==> part.y == height - 1
                &&& part.x + rect.width <= width ==> part.width == rect.width
                &&& part.x + rect.width > width ==> part.width == width - part.x
                &&& part.y + rect.height <= height ==> part.height == rect.height
                &&& part.y + rect.height > height ==> part.height == height - part.y
            },
    decreases rects.len(),
{
    if rects.len() > 0 {
        parts_are_what_changed(rects.drop_last(), width, height);
    }
}

/// A changed rectangle without pixels makes no part, wherever it stands among the
/// others.
pub proof fn empty_rectangles_make_no_part(
    before: Seq<Rect>,
    empty: Rect,
    behind: Seq<Rect>,
    width: int,
    height: int,
)
    requires
        0 <= width <= u32::MAX,
        0 <= height <= u32::MAX,
        empty.width == 0 || empty.height == 0,
    ensures
        encode::dirty_parts(before.push(empty) + behind, width, height) == encode::dirty_parts(
            before + behind,
            width,
            height,
        ),
        encode::dirty_area(before.push(empty) + behind) == encode::dirty_area(before + behind),
    decreases behind.len(),
{
    assert(empty.width * empty.height == 0) by (nonlinear_arith)
        requires
            empty.width == 0 || empty.height == 0,
    ;
    if behind.len() == 0 {
        assert(before.push(empty) + behind =~= before.push(empty));
        assert(before + behind =~= before);
        assert(before.push(empty).drop_last() =~= before);
    } else {
        empty_rectangles_make_no_part(before, empty, behind.drop_last(), width, height);
        assert((before.push(empty) + behind).drop_last() =~= before.push(empty)
            + behind.drop_last());
        assert((before + behind).drop_last() =~= before + behind.drop_last());
    }
}

/// Where pixels changed, there is a part to encode.
proof fn lemma_changes_make_parts(rects: Seq<Rect>, width: int, height: int)
    requires
        0 <= width <= u32::MAX,
        0 <= height <= u32::MAX,
    ensures
        width > 0 && height > 0 && encode::dirty_area(rects) > 0 ==> encode::dirty_parts(
            rects,
            width,
            height,
        ).len() > 0,
        width == 0 || height == 0 ==> encode::dirty_parts(rects, width, height).len() == 0,
    decreases rects.len(),
{
    if rects.len() > 0 {
        lemma_changes_make_parts(rects.drop_last(), width, height);
        let last = rects.last();
        assert(last.width == 0 || last.height == 0 ==> last.width * last.height == 0)
            by (nonlinear_arith);
    }
}

/// Whether an action encodes a whole frame, in the form that suits it: the
/// platform's buffer as it is, two streams where they are wanted and there is an
/// encoder for them, else one.
pub open spec fn encodes_whole(
    action: ActionView,
    frame: CapturedFrame,
    use_444: bool,
    supports_444: bool,
) -> bool {
    &&& action is EncodePixelBuffer <==> frame.data is PixelBuffer
    &&& action is Encode444 <==> frame.data is Raw && use_444 && supports_444
    &&& action is Encode420 <==> frame.data is Raw && !(use_444 && supports_444)
}

/// A frame with pixels of its own in which little changed is encoded part by
/// part: at most 16 rectangles with, all together, at least one pixel and at most
/// 262144. Any other is encoded whole.
pub proof fn small_changes_are_encoded_one_by_one(
    s: UpdatesView,
    frame: CapturedFrame,
    supports_444: bool,
)
    requires
        s.phase is Apply,
    ensures
        ({
            let (next, action) = encode::stepped(s, frame, EventView::Applied { supports_444 });
            let area = encode::dirty_area(frame.dirty_rects@);
            let one_by_one = frame.data is Raw && frame.dirty_rects@.len() <= 16 && 0 < area
                <= 262144 && frame.width > 0 && frame.height > 0;
            &&& action is EncodeRect <==> one_by_one
            &&& one_by_one ==> next.display_frame_count == s.display_frame_count
            &&& !one_by_one ==> encodes_whole(action, frame, s.phase->Apply_use_444, supports_444)
            &&& !one_by_one ==> next.display_frame_count == s.display_frame_count + 1
        }),
{
    lemma_changes_make_parts(frame.dirty_rects@, frame.width as int, frame.height as int);
}

/// Where a part cannot be encoded, the whole frame is, in the form that it would
/// have had at once.
pub proof fn failed_parts_lead_to_the_whole_frame(s: UpdatesView, frame: CapturedFrame)
    requires
        s.phase is Rects,
    ensures
        ({
            let (next, action) = encode::stepped(s, frame, EventView::Rect(None));
            &&& encodes_whole(
                action,
                frame,
                s.phase->Rects_use_444,
                s.phase->Rects_supports_444,
            )
            &&& next.display_frame_count == s.display_frame_count + 1
        }),
{
}

/// The state and the action after the results of some parts, one after the other.
pub open spec fn after_results(
    begun: (UpdatesView, ActionView),
    frame: CapturedFrame,
    results: Seq<EncodedView>,
) -> (UpdatesView, ActionView)
    decreases results.len(),
{
    if results.len() == 0 {
        begun
    } else {
        encode::stepped(
            after_results(begun, frame, results.drop_last()).0,
            frame,
            EventView::Rect(Some(results.last())),
        )
    }
}

/// How the work on the parts of a frame stands after some results.
proof fn lemma_results(
    s: UpdatesView,
    frame: CapturedFrame,
    supports_444: bool,
    results: Seq<EncodedView>,
)
    requires
        s.phase is Apply,
        results.len() < encode::parts_to_encode(frame).len(),
    ensures
        ({
            let begun = encode::stepped(s, frame, EventView::Applied { supports_444 });
            let parts = encode::parts_to_encode(frame);
            let (next, action) = after_results(begun, frame, results);
            let n = results.len() as int;
            &&& action == ActionView::EncodeRect(parts[n])
            &&& next == UpdatesView { phase: next.phase, ..s }
            &&& next.phase matches PhaseView::Rects { todo, done, .. } && todo == parts.skip(n)
                && done == Seq::new(
                results.len(),
                |i: int| encode::rect_view(parts[i], results[i]),
            )
        }),
    decreases results.len(),
{
    let parts = encode::parts_to_encode(frame);
    if results.len() == 0 {
        assert(parts.skip(0) =~= parts);
        assert(Seq::<H264RectView>::empty() =~= Seq::new(
            0,
            |i: int| encode::rect_view(parts[i], results[i]),
        ));
    } else {
        let n = results.len() as int;
        let before = results.drop_last();
        lemma_results(s, frame, supports_444, before);
        assert(parts.skip(n - 1).drop_first() =~= parts.skip(n));
        assert(Seq::new(
            before.len(),
            |i: int| encode::rect_view(parts[i], before[i]),
        ).push(encode::rect_view(parts[n - 1], results.last())) =~= Seq::new(
            results.len(),
            |i: int| encode::rect_view(parts[i], results[i]),
        ));
    }
}

/// How many bytes some results have.
pub open spec fn results_bytes(results: Seq<EncodedView>) -> nat
    decreases results.len(),
{
    if results.len() == 0 {
        0
    } else {
        results[0].data.len() + results_bytes(results.drop_first())
    }
}

/// The bytes of results, counted from the other end.
proof fn lemma_results_bytes(results: Seq<EncodedView>)
    ensures
        results.len() > 0 ==> results_bytes(results) == results_bytes(results.drop_last())
            + results.last().data.len(),
    decreases results.len(),
{
    if results.len() > 1 {
        lemma_results_bytes(results.drop_first());
        assert(results.drop_first().drop_last() =~= results.drop_last().drop_first());
    } else if results.len() == 1 {
        assert(results.drop_last() =~= Seq::empty());
        assert(results.drop_first() =~= Seq::empty());
    }
}

/// The rectangles of an update have as many bytes as the results they came from.
proof fn lemma_rects_bytes(rects: Seq<H264RectView>, results: Seq<EncodedView>)
    requires
        rects.len() == results.len(),
        forall|i: int|
            0 <= i < rects.len() ==> (#[trigger] rects[i]).h264_data == results[i].data,
    ensures
        encode::rects_bytes(rects) == results_bytes(results),
    decreases rects.len(),
{
    lemma_results_bytes(results);
    if rects.len() > 0 {
        lemma_rects_bytes(rects.drop_last(), results.drop_last());
    }
}

/// Whether a rectangle of an update shows one of the frame's parts: at the place
/// and with the size of the part, as far as sixteen bits hold them, and with the
/// encoder's data and size for it.
pub open spec fn shows(rect: H264RectView, part: Rect, encoded: EncodedView) -> bool {
    &&& part.x < 0x1_0000 ==> rect.x == part.x
    &&& part.y < 0x1_0000 ==> rect.y == part.y
    &&& part.width < 0x1_0000 ==> rect.width == part.width
    &&& part.height < 0x1_0000 ==> rect.height == part.height
    &&& encoded.width < 0x1_0000 ==> rect.enc_width == encoded.width
    &&& encoded.height < 0x1_0000 ==> rect.enc_height == encoded.height
    &&& rect.h264_data == encoded.data
}

/// When the last part that was asked for has been encoded, the update holds one
/// rectangle for each, in the order in which they were asked for, each at its
/// place and with its own data. The work on the frame is done, it counts as one
/// frame, and its size is that of all the data.
pub proof fn parts_reach_the_client_as_asked_for(
    s: UpdatesView,
    frame: CapturedFrame,
    supports_444: bool,
    results: Seq<EncodedView>,
)
    requires
        s.phase is Apply,
        ({
            let begun = encode::stepped(s, frame, EventView::Applied { supports_444 });
            &&& forall|i: int|
                0 <= i < results.len() ==> (#[trigger] after_results(
                    begun,
                    frame,
                    results.take(i),
                )).1 is EncodeRect
            &&& after_results(begun, frame, results).1 is Finish
        }),
    ensures
        ({
            let begun = encode::stepped(s, frame, EventView::Applied { supports_444 });
            let (next, action) = after_results(begun, frame, results);
            &&& action matches ActionView::Finish {
                update: Some(UpdateView::GfxDirtyH264 { rects, width, height }),
                stats: Some(stats),
                overload: false,
            } && {
                &&& rects.len() == results.len()
                &&& forall|i: int|
                    0 <= i < results.len() ==> shows(
                        #[trigger] rects[i],
                        after_results(begun, frame, results.take(i)).1->EncodeRect_0,
                        results[i],
                    )
                &&& frame.width < 0x1_0000 ==> width == frame.width
                &&& frame.height < 0x1_0000 ==> height == frame.height
                &&& results_bytes(results) <= u32::MAX ==> stats.bytes == results_bytes(results)
                &&& stats.keyframe is None
            }
            &&& next == UpdatesView {
                phase: PhaseView::Idle,
                display_frame_count: s.display_frame_count + 1,
                ..s
            }
        }),
{
    let begun = encode::stepped(s, frame, EventView::Applied { supports_444 });
    let parts = encode::parts_to_encode(frame);
    let n = results.len() as int;
    if parts.len() == 0 {
        if n > 0 {
            assert(results.take(0) =~= Seq::empty());
            assert(after_results(begun, frame, results.take(0)).1 is EncodeRect);
        }
        assert(false);
    }
    if n < parts.len() {
        lemma_results(s, frame, supports_444, results);
        assert(false);
    }
    let most = results.take(parts.len() - 1);
    lemma_results(s, frame, supports_444, most);
    let all = results.take(parts.len() as int);
    assert(all.drop_last() =~= most);
    let last = after_results(begun, frame, all);
    assert(parts.skip(parts.len() - 1).len() == 1);
    assert(last.1 is Finish);
    if n > parts.len() {
        assert(after_results(begun, frame, results.take(parts.len() as int)).1 is EncodeRect);
        assert(false);
    }
    assert(all =~= results);
    let rects = last.1->Finish_update->Some_0->GfxDirtyH264_rects;
    assert forall|i: int| 0 <= i < n implies #[trigger] rects[i] == encode::rect_view(
        parts[i],
        results[i],
    ) by {}
    lemma_rects_bytes(rects, results);
    assert forall|i: int| 0 <= i < n implies shows(
        #[trigger] rects[i],
        after_results(begun, frame, results.take(i)).1->EncodeRect_0,
        results[i],
    ) by {
        lemma_results(s, frame, supports_444, results.take(i));
    }
}

/// What changed in a frame reaches the client where it changed: of a frame in
/// which little changed, with as many results as changed rectangles, the update
/// holds for each of these a rectangle at the same place, cut to the frame, with
/// the encoder's data for it.
pub proof fn changes_reach_the_client_where_they_are(
    s: UpdatesView,
    frame: CapturedFrame,
    supports_444: bool,
    results: Seq<EncodedView>,
)
    requires
        s.phase is Apply,
        frame.data is Raw,
        0 < frame.width < 0x1_0000,
        0 < frame.height < 0x1_0000,
        0 < frame.dirty_rects@.len() <= 16,
        encode::dirty_area(frame.dirty_rects@) <= 262144,
        forall|i: int|
            0 <= i < frame.dirty_rects@.len() ==> {
                let rect = #[trigger] frame.dirty_rects@[i];
                rect.width > 0 && rect.height > 0 && rect.x < frame.width && rect.y < frame.height
            },
        results.len() == frame.dirty_rects@.len(),
    ensures
        ({
            let begun = encode::stepped(s, frame, EventView::Applied { supports_444 });
            after_results(begun, frame, results).1 matches ActionView::Finish {
                update: Some(UpdateView::GfxDirtyH264 { rects, .. }),
                ..
            } && rects.len() == results.len() && forall|i: int|
                0 <= i < results.len() ==> {
                    let (rect, shown) = (frame.dirty_rects@[i], #[trigger] rects[i]);
                    &&& shown.x == rect.x && shown.y == rect.y
                    &&& rect.x + rect.width <= frame.width ==> shown.width == rect.width
                    &&& rect.x + rect.width > frame.width ==> shown.x + shown.width == frame.width
                    &&& rect.y + rect.height <= frame.height ==> shown.height == rect.height
                    &&& rect.y + rect.height > frame.height ==> shown.y + shown.height
                        == frame.height
                    &&& shown.h264_data == results[i].data
                }
        }),
{
    let rects = frame.dirty_rects@;
    let begun = encode::stepped(s, frame, EventView::Applied { supports_444 });
    let parts = encode::parts_to_encode(frame);
    parts_are_what_changed(rects, frame.width as int, frame.height as int);
    let last = rects.last();
    assert(last.width * last.height > 0) by (nonlinear_arith)
        requires
            last.width > 0,
            last.height > 0,
    ;
    assert(parts == encode::dirty_parts(rects, frame.width as int, frame.height as int));
    let n = results.len() as int;
    assert forall|i: int| 0 <= i < n implies (#[trigger] after_results(
        begun,
        frame,
        results.take(i),
    )).1 is EncodeRect && after_results(begun, frame, results.take(i)).1->EncodeRect_0
        == parts[i] by {
        lemma_results(s, frame, supports_444, results.take(i));
    }
    lemma_results(s, frame, supports_444, results.take(n - 1));
    assert(results.drop_last() =~= results.take(n - 1));
    assert(parts.skip(n - 1).len() == 1);
    assert(after_results(begun, frame, results).1 is Finish);
    parts_reach_the_client_as_asked_for(s, frame, supports_444, results);
    let shown =
        after_results(begun, frame, results).1->Finish_update->Some_0->GfxDirtyH264_rects;
    assert forall|i: int| 0 <= i < n implies shows(#[trigger] shown[i], parts[i], results[i]) by {
        assert(after_results(begun, frame, results.take(i)).1->EncodeRect_0 == parts[i]);
    }
}

/// What the state of the graphics channel decides: with an encoder, a frame is
/// encoded where the channel is ready and left out where it is not; without one,
/// it never gets that far.
pub proof fn ready_channels_get_encoded_frames(
    s: UpdatesView,
    frame: CapturedFrame,
    status: GfxStatus,
)
    requires
        s.phase is Gfx,
    ensures
        ({
            let (next, action) = encode::stepped(s, frame, EventView::Gfx(status));
            &&& action is ReadBitrate <==> s.has_encoder && status.ready
            &&& action is ReadBitrate ==> action->ReadBitrate_base == s.base_bitrate
            &&& s.has_encoder && !status.ready ==> action == (ActionView::Finish {
                update: Some(UpdateView::DefaultPointer),
                stats: None,
                overload: false,
            })
            &&& next == UpdatesView { phase: next.phase, ..s }
        }),
{
}

/// Two streams are encoded just where they are wanted, the client's graphics
/// channel supports them and has them switched on, and the encoder makes them.
pub proof fn two_streams_need_all_ends(
    s: UpdatesView,
    frame: CapturedFrame,
    status: GfxStatus,
    suggested: u32,
    supports_444: bool,
)
    requires
        s.phase is Gfx,
        s.has_encoder,
        status.ready,
    ensures
        ({
            let told = encode::stepped(s, frame, EventView::Gfx(status)).0;
            let set = encode::stepped(told, frame, EventView::Bitrate(suggested)).0;
            let (next, action) = encode::stepped(set, frame, EventView::Applied { supports_444 });
            let wanted = s.mode_444 && status.avc444_supported && status.avc444_enabled;
            action is EncodeRect || encodes_whole(action, frame, wanted, supports_444)
        }),
        ({
            let told = encode::stepped(s, frame, EventView::Gfx(status)).0;
            let set = encode::stepped(told, frame, EventView::Bitrate(suggested)).0;
            let (rects, action) = encode::stepped(set, frame, EventView::Applied { supports_444 });
            let wanted = s.mode_444 && status.avc444_supported && status.avc444_enabled;
            action is EncodeRect ==> encodes_whole(
                encode::stepped(rects, frame, EventView::Rect(None)).1,
                frame,
                wanted,
                supports_444,
            )
        }),
{
    let told = encode::stepped(s, frame, EventView::Gfx(status)).0;
    let set = encode::stepped(told, frame, EventView::Bitrate(suggested)).0;
    small_changes_are_encoded_one_by_one(set, frame, supports_444);
}

/// Whether an update is a whole frame of the given data: with the frame's size
/// and the encoder's, as far as sixteen bits hold them.
pub open spec fn shows_whole(
    update: Option<UpdateView>,
    frame: CapturedFrame,
    main: EncodedView,
    aux: Option<Seq<u8>>,
) -> bool {
    update matches Some(UpdateView::GfxFrame(shown)) && {
        &&& shown.h264_data == main.data
        &&& shown.h264_aux == aux
        &&& shown.is_keyframe == main.is_keyframe
        &&& frame.width < 0x1_0000 ==> shown.width == frame.width
        &&& frame.height < 0x1_0000 ==> shown.height == frame.height
        &&& main.width < 0x1_0000 ==> shown.enc_width == main.width
        &&& main.height < 0x1_0000 ==> shown.enc_height == main.height
    }
}

/// What comes of a whole frame that was encoded as one stream: it goes out with
/// its data, or, where there is none, nothing of it does.
pub proof fn one_stream_goes_out(
    s: UpdatesView,
    frame: CapturedFrame,
    result: Option<EncodedView>,
    slow: bool,
)
    requires
        s.phase is PixelBuffer || s.phase is Full420,
    ensures
        ({
            let (next, action) = encode::stepped(s, frame, EventView::Encoded { result, slow });
            &&& (result matches Some(main) && main.data.len() > 0) ==> (action
                matches ActionView::Finish { update, stats: Some(stats), overload } && {
                let main = result->Some_0;
                &&& shows_whole(update, frame, main, None)
                &&& main.data.len() <= u32::MAX ==> stats.bytes == main.data.len()
                &&& stats.keyframe == Some(main.is_keyframe)
                &&& overload <==> slow && (s.overload_count + 1) % 60 == 1
                &&& next == UpdatesView {
                    phase: PhaseView::Idle,
                    skip_next_frame: s.skip_next_frame || slow,
                    overload_count: s.overload_count + (if slow {
                        1int
                    } else {
                        0
                    }),
                    ..s
                }
            })
            &&& !(result matches Some(main) && main.data.len() > 0) ==> action
                == (ActionView::Finish {
                update: Some(UpdateView::DefaultPointer),
                stats: None,
                overload: false,
            }) && next == UpdatesView { phase: PhaseView::Idle, ..s }
        }),
{
}

/// What comes of a whole frame that was encoded as two streams: both go out
/// together, or nothing where the first is empty; where there are none, it is
/// encoded as one.
pub proof fn two_streams_go_out(
    s: UpdatesView,
    frame: CapturedFrame,
    main: EncodedView,
    aux: Seq<u8>,
    slow: bool,
)
    requires
        s.phase is Full444,
    ensures
        ({
            let (next, action) = encode::stepped(
                s,
                frame,
                EventView::Encoded444 { streams: Some((main, aux)), slow },
            );
            &&& main.data.len() > 0 ==> (action matches ActionView::Finish {
                update,
                stats: Some(stats),
                overload,
            } && {
                &&& shows_whole(update, frame, main, Some(aux))
                &&& main.data.len() + aux.len() <= u32::MAX ==> stats.bytes == main.data.len()
                    + aux.len()
                &&& stats.keyframe == Some(main.is_keyframe)
                &&& overload <==> slow && (s.overload_count + 1) % 60 == 1
                &&& next == UpdatesView {
                    phase: PhaseView::Idle,
                    skip_next_frame: s.skip_next_frame || slow,
                    overload_count: s.overload_count + (if slow {
                        1int
                    } else {
                        0
                    }),
                    ..s
                }
            })
            &&& main.data.len() == 0 ==> action == (ActionView::Finish {
                update: Some(UpdateView::DefaultPointer),
                stats: None,
                overload: false,
            }) && next == UpdatesView { phase: PhaseView::Idle, ..s }
        }),
        ({
            let (next, action) = encode::stepped(
                s,
                frame,
                EventView::Encoded444 { streams: None, slow },
            );
            action is Encode420 && next == UpdatesView { phase: PhaseView::Full420, ..s }
        }),
{
}

/// A suggested bitrate is taken just where it is further from the one in use than
/// a tenth of the base, above or below it. The ramp works with the bitrate that is
/// then in use, and with what changed in the frame.
pub proof fn bitrates_follow_the_network(s: UpdatesView, frame: CapturedFrame, suggested: u32)
    requires
        s.phase is Bitrate,
    ensures
        ({
            let (next, action) = encode::stepped(s, frame, EventView::Bitrate(suggested));
            let far = 10 * (suggested - s.last_applied_bitrate) > s.base_bitrate || 10 * (
            s.last_applied_bitrate - suggested) > s.base_bitrate;
            let (ramp, left) = progressive::evaluated(
                s.ramp,
                encode::dirty_area(frame.dirty_rects@),
                encode::total_area(frame),
                next.last_applied_bitrate,
            );
            &&& far ==> next.last_applied_bitrate == suggested
            &&& !far ==> next.last_applied_bitrate == s.last_applied_bitrate
            &&& action == (ActionView::Apply {
                bitrate: if far {
                    Some(suggested)
                } else {
                    None
                },
                ramp,
            })
            &&& next.ramp == left
            &&& next == UpdatesView {
                phase: PhaseView::Apply { use_444: s.phase->Bitrate_use_444 },
                last_applied_bitrate: next.last_applied_bitrate,
                ramp: next.ramp,
                ..s
            }
        }),
{
}

/// A frame in which less than a two-hundredth of the pixels changed is quiet. The
/// sixtieth in a row slows the capture down to 5 frames a second, and the first
/// that is not quiet brings the full rate back. Frames of which nothing is known
/// do not count.
pub proof fn quiet_frames_slow_the_capture(s: UpdatesView, frame: CapturedFrame)
    requires
        s.phase is Idle,
        !s.skip_next_frame,
        encode::total_area(frame) <= 0x8_0000_0000_0000,
    ensures
        ({
            let (next, action) = encode::stepped(s, frame, EventView::Begin);
            let known = frame.dirty_rects@.len() > 0 && frame.width > 0 && frame.height > 0;
            let quiet = known && 200 * encode::dirty_area(frame.dirty_rects@) < frame.width
                * frame.height;
            let busy = known && !quiet;
            let slows = quiet && s.low_activity_frames == 59 && s.current_fps != 5;
            let quickens = busy && s.low_activity_frames >= 60;
            &&& action == (ActionView::ReadGfx {
                frame_rate: if slows {
                    Some(5u32)
                } else if quickens {
                    Some(s.frame_rate)
                } else {
                    None
                },
            })
            &&& slows ==> next.current_fps == 5
            &&& quickens ==> next.current_fps == s.frame_rate
            &&& !slows && !quickens ==> next.current_fps == s.current_fps
            &&& quiet && s.low_activity_frames < u32::MAX ==> next.low_activity_frames
                == s.low_activity_frames + 1
            &&& quiet && s.low_activity_frames == u32::MAX ==> next.low_activity_frames
                == s.low_activity_frames
            &&& busy ==> next.low_activity_frames == 0
            &&& !known ==> next.low_activity_frames == s.low_activity_frames
            &&& next == UpdatesView {
                phase: PhaseView::Gfx,
                low_activity_frames: next.low_activity_frames,
                current_fps: next.current_fps,
                ..s
            }
        }),
{
    let total = encode::total_area(frame);
    assert(total == frame.width * frame.height && (total == 0 <==> frame.width == 0 || frame.height
        == 0)) by (nonlinear_arith)
        requires
            total == (frame.width * frame.height) as nat,
            frame.width >= 0,
            frame.height >= 0,
    ;
    if total > 0 {
        rounding::half_percent_is_exact(encode::dirty_area(frame.dirty_rects@), total);
    }
}

/// A frame that is to be left out is, and nothing of it is looked at.
pub proof fn skipped_frames_are_not_looked_at(s: UpdatesView, frame: CapturedFrame)
    requires
        s.phase is Idle,
        s.skip_next_frame,
    ensures
        encode::stepped(s, frame, EventView::Begin) == (
            UpdatesView { skip_next_frame: false, ..s },
            ActionView::Finish {
                update: Some(UpdateView::DefaultPointer),
                stats: None,
                overload: false,
            },
        ),
{
}

/// No step touches the settings of the stream or what is known of the pointer.
pub proof fn frames_leave_the_settings(s: UpdatesView, frame: CapturedFrame, event: EventView)
    requires
        encode::expected(s.phase, event),
    ensures
        ({
            let next = encode::stepped(s, frame, event).0;
            &&& next.base_bitrate == s.base_bitrate
            &&& next.mode_444 == s.mode_444
            &&& next.has_encoder == s.has_encoder
            &&& next.frame_rate == s.frame_rate
            &&& next.cursor_channel == s.cursor_channel
            &&& next.last_cursor_pos == s.last_cursor_pos
            &&& next.cursor_initialized == s.cursor_initialized
        }),
{
}

/// After each action the answer to it is awaited, and nothing else; after the end
/// of a frame, a new frame.
pub proof fn actions_are_answered(
    s: UpdatesView,
    frame: CapturedFrame,
    event: EventView,
    answer: EventView,
)
    requires
        encode::expected(s.phase, event),
    ensures
        ({
            let (next, action) = encode::stepped(s, frame, event);
            encode::expected(next.phase, answer) <==> match action {
                ActionView::ReadGfx { .. } => answer is Gfx,
                ActionView::ReadBitrate { .. } => answer is Bitrate,
                ActionView::Apply { .. } => answer is Applied,
                ActionView::EncodeRect(_) => answer is Rect,
                ActionView::EncodePixelBuffer => answer is Encoded,
                ActionView::Encode420 => answer is Encoded,
                ActionView::Encode444 => answer is Encoded444,
                ActionView::Finish { .. } => answer is Begin,
            }
        }),
        encode::expected(PhaseView::Idle, answer) <==> answer is Begin,
{
}

/// An answer says what it holds: an encoder's data and size as they are, and where
/// there are none, that.
pub proof fn answers_say_what_they_hold(
    event: EncodeEvent,
    encoded: EncodedFrame,
    aux: Vec<u8>,
    slow: bool,
)
    ensures
        encoded@.data == encoded.data@ && encoded@.is_keyframe == encoded.is_keyframe,
        encoded@.width == encoded.width && encoded@.height == encoded.height,
        event == EncodeEvent::Rect(Some(encoded)) ==> event@ == EventView::Rect(Some(encoded@)),
        event == EncodeEvent::Rect(None) ==> event@ == EventView::Rect(None),
        event == (EncodeEvent::Encoded { result: Some(encoded), slow }) ==> event@
            == (EventView::Encoded { result: Some(encoded@), slow }),
        event == (EncodeEvent::Encoded { result: None, slow }) ==> event@ == (EventView::Encoded {
            result: None,
            slow,
        }),
        event == (EncodeEvent::Encoded444 { streams: Some((encoded, aux)), slow }) ==> event@
            == (EventView::Encoded444 { streams: Some((encoded@, aux@)), slow }),
        event == (EncodeEvent::Encoded444 { streams: None, slow }) ==> event@
            == (EventView::Encoded444 { streams: None, slow }),
        event is Begin ==> event@ is Begin,
        event matches EncodeEvent::Gfx(status) ==> event@ == EventView::Gfx(status),
        event matches EncodeEvent::Bitrate(bitrate) ==> event@ == EventView::Bitrate(bitrate),
        event matches EncodeEvent::Applied { supports_444 } ==> event@ == (EventView::Applied {
            supports_444,
        }),
{
}

/// An action says what it is and what it asks for.
pub proof fn actions_say_what_they_are(action: EncodeAction, update: DisplayUpdate)
    ensures
        action matches EncodeAction::ReadGfx { frame_rate } ==> action@ == (ActionView::ReadGfx {
            frame_rate,
        }),
        action matches EncodeAction::ReadBitrate { base } ==> action@ == (ActionView::ReadBitrate {
            base,
        }),
        action matches EncodeAction::Apply { bitrate, ramp } ==> action@ == (ActionView::Apply {
            bitrate,
            ramp,
        }),
        action matches EncodeAction::EncodeRect(rect) ==> action@ == ActionView::EncodeRect(rect),
        action is EncodePixelBuffer <==> action@ is EncodePixelBuffer,
        action is Encode444 <==> action@ is Encode444,
        action is Encode420 <==> action@ is Encode420,
        action matches EncodeAction::Finish { update: handed, stats, overload } ==> {
            &&& action@ == (ActionView::Finish {
                update: action@->Finish_update,
                stats,
                overload,
            })
            &&& handed is None ==> action@->Finish_update is None
            &&& handed == Some(update) ==> action@->Finish_update == Some(update@)
        },
{
}

/// The state of a stream of updates says what its fields hold.
pub proof fn streams_say_what_they_hold(updates: MacDisplayUpdates)
    ensures
        updates@.base_bitrate == updates.base_bitrate,
        updates@.mode_444 == updates.mode_444,
        updates@.has_encoder == updates.has_encoder,
        updates@.frame_rate == updates.frame_rate,
        updates@.display_frame_count == updates.display_frame_count,
        updates@.skip_next_frame == updates.skip_next_frame,
        updates@.overload_count == updates.overload_count,
        updates@.low_activity_frames == updates.low_activity_frames,
        updates@.current_fps == updates.current_fps,
        updates@.cursor_channel == updates.cursor_channel,
        updates@.last_cursor_pos == updates.last_cursor_pos,
        updates@.cursor_initialized == updates.cursor_initialized,
        updates@.last_applied_bitrate == updates.last_applied_bitrate,
        updates@.ramp == updates.progressive@,
{
}

} // verus!
