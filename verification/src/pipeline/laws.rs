//! What holds of the stages over a whole frame, whatever happens in it.

use vstd::prelude::*;
use crate::pipeline::adapter::{adapter_step, AdapterAction, AdapterEvent, AdapterView};
use crate::pipeline::collector::{
    all_inside, collector_outcome, collector_step, paint, CollectorAction, CollectorEvent,
    CollectorView, ColoredPixel,
};
use crate::pipeline::stage::{FrameError, StageState};
use crate::raster::{lemma_pixel_at_in_raster, lemma_pixel_id_roundtrip, pixel_at, pixel_id};
use crate::ray::Ray;

verus! {

/// The compute adapter after a run of events.
pub open spec fn adapter_run(start: AdapterView, events: Seq<AdapterEvent>) -> AdapterView
    decreases events.len(),
{
    if events.len() == 0 {
        start
    } else {
        adapter_step(adapter_run(start, events.drop_last()), events.last()).0
    }
}

/// What the compute adapter asks for at event number `i` of a run.
pub open spec fn adapter_action_at(
    start: AdapterView,
    events: Seq<AdapterEvent>,
    i: int,
) -> AdapterAction {
    adapter_step(adapter_run(start, events.take(i)), events[i]).1
}

/// The collector after a run of events.
pub open spec fn collector_run(start: CollectorView, events: Seq<CollectorEvent>) -> CollectorView
    decreases events.len(),
{
    if events.len() == 0 {
        start
    } else {
        collector_step(collector_run(start, events.drop_last()), events.last()).0
    }
}

/// What the collector asks for at event number `i` of a run.
pub open spec fn collector_action_at(
    start: CollectorView,
    events: Seq<CollectorEvent>,
    i: int,
) -> CollectorAction {
    collector_step(collector_run(start, events.take(i)), events[i]).1
}

/// The compute adapter never goes back: whatever it is told, the state it
/// goes to is the one it was in or a later one. A failure, once noted,
/// stays, and an adapter that has failed is closed.
pub proof fn lemma_adapter_moves_forward(before: AdapterView, event: AdapterEvent)
    ensures
        before.state.leads_to(adapter_step(before, event).0.state),
        before.state == StageState::Closed ==> adapter_step(before, event) == (
            before,
            AdapterAction::Ignored,
        ),
        adapter_step(before, event).0.failure != before.failure ==> adapter_step(
            before,
            event,
        ).0.state == StageState::Closed && before.state != StageState::Closed,
{
}

/// The collector never goes back, and once it drains or is closed, nothing
/// changes it any more.
pub proof fn lemma_collector_moves_forward(before: CollectorView, event: CollectorEvent)
    ensures
        before.state.leads_to(collector_step(before, event).0.state),
        before.state != StageState::Running ==> collector_step(before, event) == (
            before,
            CollectorAction::Ignored,
        ),
        collector_step(before, event).0.width == before.width,
        collector_step(before, event).0.height == before.height,
{
}

/// Over a whole run the compute adapter only ever moves forward: the state
/// after a part of the run leads to the state after the whole of it.
pub proof fn lemma_adapter_run_moves_forward(
    start: AdapterView,
    events: Seq<AdapterEvent>,
    i: int,
)
    requires
        0 <= i <= events.len(),
    ensures
        adapter_run(start, events.take(i)).state.leads_to(adapter_run(start, events).state),
    decreases events.len(),
{
    if i == events.len() {
        assert(events.take(i) =~= events);
    } else {
        assert(events.drop_last().take(i) =~= events.take(i));
        lemma_adapter_run_moves_forward(start, events.drop_last(), i);
        lemma_adapter_moves_forward(adapter_run(start, events.drop_last()), events.last());
    }
}

/// Over a whole run the collector only ever moves forward.
pub proof fn lemma_collector_run_moves_forward(
    start: CollectorView,
    events: Seq<CollectorEvent>,
    i: int,
)
    requires
        0 <= i <= events.len(),
    ensures
        collector_run(start, events.take(i)).state.leads_to(collector_run(start, events).state),
    decreases events.len(),
{
    if i == events.len() {
        assert(events.take(i) =~= events);
    } else {
        assert(events.drop_last().take(i) =~= events.take(i));
        lemma_collector_run_moves_forward(start, events.drop_last(), i);
        lemma_collector_moves_forward(collector_run(start, events.drop_last()), events.last());
    }
}

/// The place on the canvas that a result is written to.
pub open spec fn place(pixel: ColoredPixel, width: nat) -> int {
    pixel_id(pixel.x as nat, pixel.y as nat, width) as int
}

/// Writing results to a canvas keeps its size.
pub proof fn lemma_paint_len(
    pixels: Seq<(u8, u8, u8)>,
    width: nat,
    height: nat,
    batch: Seq<ColoredPixel>,
)
    requires
        pixels.len() == width * height,
        all_inside(batch, width, height),
    ensures
        paint(pixels, width, batch).len() == pixels.len(),
    decreases batch.len(),
{
    if batch.len() > 0 {
        lemma_inside_front(batch, width, height);
        lemma_paint_len(pixels, width, height, batch.drop_last());
    }
}

/// Writing one batch after another is writing the two as one.
pub proof fn lemma_paint_concat(
    pixels: Seq<(u8, u8, u8)>,
    width: nat,
    first: Seq<ColoredPixel>,
    second: Seq<ColoredPixel>,
)
    ensures
        paint(paint(pixels, width, first), width, second) == paint(pixels, width, first + second),
    decreases second.len(),
{
    if second.len() == 0 {
        assert(first + second =~= first);
    } else {
        assert((first + second).drop_last() =~= first + second.drop_last());
        assert((first + second).last() == second.last());
        lemma_paint_concat(pixels, width, first, second.drop_last());
    }
}

/// The colour that was last written to place `id`, if any was.
pub open spec fn written(batch: Seq<ColoredPixel>, width: nat, id: int) -> Option<(u8, u8, u8)>
    decreases batch.len(),
{
    if batch.len() == 0 {
        None
    } else if place(batch.last(), width) == id {
        Some(batch.last().rgb)
    } else {
        written(batch.drop_last(), width, id)
    }
}

/// A batch that lies inside the raster still does so without its last
/// result, and the place of every result is one of the canvas.
pub proof fn lemma_inside_front(batch: Seq<ColoredPixel>, width: nat, height: nat)
    requires
        all_inside(batch, width, height),
        batch.len() > 0,
    ensures
        all_inside(batch.drop_last(), width, height),
        0 <= place(batch.last(), width) < width * height,
{
    assert forall|i: int| 0 <= i < batch.drop_last().len() implies (#[trigger] batch.drop_last()[i]).x
        < width && batch.drop_last()[i].y < height by {
        assert(batch.drop_last()[i] == batch[i]);
    }
    lemma_pixel_id_roundtrip(batch.last().x as nat, batch.last().y as nat, width, height);
}

/// The colour of a pixel on the canvas is whatever was written for that
/// pixel last, and the colour it had before where nothing was written for
/// it. Nothing is blended.
pub proof fn lemma_paint_pixel(
    pixels: Seq<(u8, u8, u8)>,
    width: nat,
    height: nat,
    batch: Seq<ColoredPixel>,
    id: int,
)
    requires
        pixels.len() == width * height,
        all_inside(batch, width, height),
        0 <= id < width * height,
    ensures
        paint(pixels, width, batch)[id] == match written(batch, width, id) {
            Some(colour) => colour,
            None => pixels[id],
        },
    decreases batch.len(),
{
    if batch.len() > 0 {
        lemma_inside_front(batch, width, height);
        lemma_paint_len(pixels, width, height, batch.drop_last());
        lemma_paint_pixel(pixels, width, height, batch.drop_last(), id);
    }
}

/// A colour was last written to a place exactly if some result names the
/// place, and it is then the colour of the last result that does.
pub proof fn lemma_written_is_last(batch: Seq<ColoredPixel>, width: nat, id: int)
    ensures
        written(batch, width, id) is None <==> forall|k: int|
            0 <= k < batch.len() ==> place(#[trigger] batch[k], width) != id,
        written(batch, width, id) matches Some(colour) ==> exists|k: int|
            0 <= k < batch.len() && place(#[trigger] batch[k], width) == id && batch[k].rgb
                == colour && forall|j: int|
                k < j < batch.len() ==> place(#[trigger] batch[j], width) != id,
    decreases batch.len(),
{
    if batch.len() > 0 {
        let front = batch.drop_last();
        let end = batch.len() - 1;
        lemma_written_is_last(front, width, id);
        assert(forall|k: int| 0 <= k < front.len() ==> front[k] == batch[k]);
        if place(batch.last(), width) == id {
            assert(place(batch[end], width) == id && batch[end].rgb == batch.last().rgb);
        } else {
            if written(front, width, id) is Some {
                let k = choose|k: int|
                    0 <= k < front.len() && place(#[trigger] front[k], width) == id && front[k].rgb
                        == written(front, width, id)->Some_0 && forall|j: int|
                        k < j < front.len() ==> place(#[trigger] front[j], width) != id;
                assert(place(batch[k], width) == id);
                assert forall|j: int| k < j < batch.len() implies place(
                    #[trigger] batch[j],
                    width,
                ) != id by {
                    if j < front.len() {
                        assert(front[j] == batch[j]);
                    }
                }
            } else {
                assert forall|k: int| 0 <= k < batch.len() implies place(
                    #[trigger] batch[k],
                    width,
                ) != id by {
                    if k < front.len() {
                        assert(front[k] == batch[k]);
                    }
                }
            }
        }
    }
}

/// Where no two results name the same pixel, as is the case for the rays of
/// the tiles of one raster, every result is kept: once all are written, the
/// canvas holds for each of them its colour at its place.
pub proof fn lemma_each_result_is_kept(
    pixels: Seq<(u8, u8, u8)>,
    width: nat,
    height: nat,
    batch: Seq<ColoredPixel>,
)
    requires
        pixels.len() == width * height,
        all_inside(batch, width, height),
        forall|j: int, k: int|
            0 <= j < k < batch.len() ==> place(#[trigger] batch[j], width) != place(
                #[trigger] batch[k],
                width,
            ),
    ensures
        forall|k: int|
            0 <= k < batch.len() ==> paint(pixels, width, batch)[place(
                #[trigger] batch[k],
                width,
            )] == batch[k].rgb,
{
    assert forall|k: int| 0 <= k < batch.len() implies paint(pixels, width, batch)[place(
        #[trigger] batch[k],
        width,
    )] == batch[k].rgb by {
        let id = place(batch[k], width);
        lemma_pixel_id_roundtrip(batch[k].x as nat, batch[k].y as nat, width, height);
        lemma_paint_pixel(pixels, width, height, batch, id);
        lemma_written_is_last(batch, width, id);
    }
}

/// Some result of the batch names the pixel in column `x` of row `y`.
pub open spec fn names(batch: Seq<ColoredPixel>, x: nat, y: nat) -> bool {
    exists|k: int| 0 <= k < batch.len() && (#[trigger] batch[k]).x == x && batch[k].y == y
}

/// A backend that finds one and the same colour for every ray gives a
/// canvas of that colour: if the results name every pixel of the raster and
/// all carry the colour `colour`, every pixel of the canvas has it once they
/// are written.
pub proof fn lemma_uniform_results_give_uniform_canvas(
    pixels: Seq<(u8, u8, u8)>,
    width: nat,
    height: nat,
    batch: Seq<ColoredPixel>,
    colour: (u8, u8, u8),
)
    requires
        pixels.len() == width * height,
        all_inside(batch, width, height),
        forall|k: int| 0 <= k < batch.len() ==> (#[trigger] batch[k]).rgb == colour,
        forall|x: nat, y: nat| x < width && y < height ==> #[trigger] names(batch, x, y),
    ensures
        paint(pixels, width, batch) == Seq::new(width * height, |id: int| colour),
{
    lemma_paint_len(pixels, width, height, batch);
    let painted = paint(pixels, width, batch);
    assert forall|id: int| 0 <= id < width * height implies painted[id] == colour by {
        lemma_pixel_at_in_raster(id as nat, width, height);
        let (x, y) = pixel_at(id as nat, width);
        assert(names(batch, x, y));
        let k = choose|k: int|
            0 <= k < batch.len() && (#[trigger] batch[k]).x == x && batch[k].y == y;
        assert(place(batch[k], width) == id);
        lemma_paint_pixel(pixels, width, height, batch, id);
        lemma_written_is_last(batch, width, id);
    }
    assert(painted =~= Seq::new(width * height, |id: int| colour));
}

/// The compute adapter at the start of a frame.
pub open spec fn fresh_adapter() -> AdapterView {
    AdapterView { state: StageState::Running, in_flight: None, failure: None }
}

/// What reaches the collector when an action of the compute adapter is
/// carried out. Coloured rays reach it as coloured pixels; `quantize` stands
/// for the conversion, which is done in floating point outside this crate.
pub open spec fn delivered(
    action: AdapterAction,
    quantize: spec_fn(Vec<Ray>) -> Vec<ColoredPixel>,
) -> Seq<CollectorEvent> {
    match action {
        AdapterAction::Forward(rays) => seq![CollectorEvent::Batch(quantize(rays))],
        AdapterAction::ForwardAndClose(rays) => seq![
            CollectorEvent::Batch(quantize(rays)),
            CollectorEvent::UpstreamClosed,
        ],
        AdapterAction::Close => seq![CollectorEvent::UpstreamClosed],
        AdapterAction::Abort(error) => seq![CollectorEvent::Aborted(error)],
        _ => Seq::empty(),
    }
}

/// The compute adapter and the collector after a run of events at the
/// adapter, where everything that the adapter sends on reaches the
/// collector, in order.
pub open spec fn frame_run(
    adapter: AdapterView,
    collector: CollectorView,
    events: Seq<AdapterEvent>,
    quantize: spec_fn(Vec<Ray>) -> Vec<ColoredPixel>,
) -> (AdapterView, CollectorView)
    decreases events.len(),
{
    if events.len() == 0 {
        (adapter, collector)
    } else {
        let before = frame_run(adapter, collector, events.drop_last(), quantize);
        let stepped = adapter_step(before.0, events.last());
        (stepped.0, collector_run(before.1, delivered(stepped.1, quantize)))
    }
}

/// What the two stages keep between them from the start of a frame on: a
/// failure at the adapter has reached the collector, and as long as the
/// adapter has not closed, the collector is still running unless it has
/// failed by itself.
pub open spec fn in_step(adapter: AdapterView, collector: CollectorView) -> bool {
    &&& adapter.failure is Some ==> collector.failure is Some
    &&& adapter.failure is Some ==> adapter.state == StageState::Closed
    &&& adapter.state == StageState::Closed ==> adapter.in_flight is None
    &&& adapter.state != StageState::Closed ==> collector.failure is Some || collector.state
        == StageState::Running
    &&& collector.failure is Some ==> collector.state == StageState::Closed
}

/// One event at the adapter keeps the two stages in step.
pub proof fn lemma_in_step_kept(
    adapter: AdapterView,
    collector: CollectorView,
    event: AdapterEvent,
    quantize: spec_fn(Vec<Ray>) -> Vec<ColoredPixel>,
)
    requires
        in_step(adapter, collector),
    ensures
        in_step(
            adapter_step(adapter, event).0,
            collector_run(collector, delivered(adapter_step(adapter, event).1, quantize)),
        ),
{
    let stepped = adapter_step(adapter, event);
    let sent = delivered(stepped.1, quantize);
    if sent.len() == 1 {
        assert(sent.drop_last() =~= Seq::empty());
        assert(collector_run(collector, sent.drop_last()) == collector);
    } else if sent.len() == 2 {
        assert(sent.drop_last().drop_last() =~= Seq::empty());
        assert(collector_run(collector, sent.drop_last().drop_last()) == collector);
    }
}

/// The adapter of a frame run is the adapter run by itself, and the two
/// stages stay in step throughout.
pub proof fn lemma_frame_run_in_step(
    collector: CollectorView,
    events: Seq<AdapterEvent>,
    quantize: spec_fn(Vec<Ray>) -> Vec<ColoredPixel>,
)
    requires
        collector.state == StageState::Running,
        collector.failure is None,
    ensures
        frame_run(fresh_adapter(), collector, events, quantize).0 == adapter_run(
            fresh_adapter(),
            events,
        ),
        in_step(
            frame_run(fresh_adapter(), collector, events, quantize).0,
            frame_run(fresh_adapter(), collector, events, quantize).1,
        ),
    decreases events.len(),
{
    if events.len() > 0 {
        lemma_frame_run_in_step(collector, events.drop_last(), quantize);
        let before = frame_run(fresh_adapter(), collector, events.drop_last(), quantize);
        lemma_in_step_kept(before.0, before.1, events.last(), quantize);
    }
}

/// A closed adapter stays as it is for the rest of the run.
pub proof fn lemma_closed_adapter_stays(start: AdapterView, events: Seq<AdapterEvent>, i: int)
    requires
        0 <= i <= events.len(),
        adapter_run(start, events.take(i)).state == StageState::Closed,
    ensures
        adapter_run(start, events) == adapter_run(start, events.take(i)),
    decreases events.len(),
{
    if i == events.len() {
        assert(events.take(i) =~= events);
    } else {
        assert(events.drop_last().take(i) =~= events.take(i));
        lemma_closed_adapter_stays(start, events.drop_last(), i);
    }
}

/// A failure of the backend leaves no picture. Take any run of events at
/// the compute adapter of a frame, and let the backend fail on a tile at
/// some point of it, whatever happened to the tiles before and whatever is
/// reported after. Then the adapter answers that failure by aborting the
/// frame with the backend's error, and the collector ends without a
/// picture: what it gives in the end is an error.
pub proof fn lemma_backend_failure_leaves_no_picture(
    collector: CollectorView,
    events: Seq<AdapterEvent>,
    quantize: spec_fn(Vec<Ray>) -> Vec<ColoredPixel>,
    i: int,
)
    requires
        collector.state == StageState::Running,
        collector.failure is None,
        0 <= i < events.len(),
        events[i] is BackendFailed,
        adapter_run(fresh_adapter(), events.take(i)).in_flight is Some,
    ensures
        adapter_action_at(fresh_adapter(), events, i) == AdapterAction::Abort(FrameError::Backend),
        adapter_run(fresh_adapter(), events).failure == Some(FrameError::Backend),
        collector_outcome(frame_run(fresh_adapter(), collector, events, quantize).1) is Err,
{
    let upto = events.take(i);
    let after = events.take(i + 1);
    lemma_frame_run_in_step(collector, upto, quantize);
    assert(after.drop_last() =~= upto);
    assert(after.last() == events[i]);
    assert(adapter_run(fresh_adapter(), after).failure == Some(FrameError::Backend));
    lemma_closed_adapter_stays(fresh_adapter(), events, i + 1);
    lemma_frame_run_in_step(collector, events, quantize);
}

/// Whatever fails the frame at the compute adapter, the collector ends
/// without a picture.
pub proof fn lemma_failed_frame_leaves_no_picture(
    collector: CollectorView,
    events: Seq<AdapterEvent>,
    quantize: spec_fn(Vec<Ray>) -> Vec<ColoredPixel>,
)
    requires
        collector.state == StageState::Running,
        collector.failure is None,
        adapter_run(fresh_adapter(), events).failure is Some,
    ensures
        collector_outcome(frame_run(fresh_adapter(), collector, events, quantize).1) is Err,
{
    lemma_frame_run_in_step(collector, events, quantize);
}

/// The collector asks for the picture to be persisted exactly if it ends
/// with one: a frame whose end is an error was never offered for
/// persistence, and a frame that ends with a picture was offered once.
pub proof fn lemma_persist_iff_picture(start: CollectorView, events: Seq<CollectorEvent>)
    requires
        start.state == StageState::Running,
        start.failure is None,
    ensures
        collector_outcome(collector_run(start, events)) is Ok <==> exists|i: int|
            0 <= i < events.len() && #[trigger] collector_action_at(start, events, i)
                == CollectorAction::Persist,
        collector_run(start, events).state == StageState::Running ==> collector_run(
            start,
            events,
        ).failure is None,
    decreases events.len(),
{
    if events.len() > 0 {
        let front = events.drop_last();
        let end = events.len() - 1;
        lemma_persist_iff_picture(start, front);
        assert(events.take(end) =~= front);
        assert forall|i: int| 0 <= i < front.len() implies collector_action_at(start, front, i)
            == collector_action_at(start, events, i) by {
            assert(front.take(i) =~= events.take(i));
        }
        let before = collector_run(start, front);
        if collector_outcome(before) is Ok {
            let i = choose|i: int|
                0 <= i < front.len() && #[trigger] collector_action_at(start, front, i)
                    == CollectorAction::Persist;
            assert(collector_action_at(start, events, i) == CollectorAction::Persist);
        } else {
            if collector_outcome(collector_run(start, events)) is Ok {
                assert(collector_action_at(start, events, end) == CollectorAction::Persist);
            }
            if exists|i: int|
                0 <= i < events.len() && #[trigger] collector_action_at(start, events, i)
                    == CollectorAction::Persist {
                let i = choose|i: int|
                    0 <= i < events.len() && #[trigger] collector_action_at(start, events, i)
                        == CollectorAction::Persist;
                if i < front.len() {
                    assert(collector_action_at(start, front, i) == CollectorAction::Persist);
                }
            }
        }
    }
}

/// The results of all batches of a run of events at the collector, in the
/// order in which they arrive.
pub open spec fn stream(events: Seq<CollectorEvent>) -> Seq<ColoredPixel>
    decreases events.len(),
{
    if events.len() == 0 {
        Seq::empty()
    } else {
        stream(events.drop_last()) + match events.last() {
            CollectorEvent::Batch(batch) => batch@,
            _ => Seq::empty(),
        }
    }
}

/// Every event of the run is a batch of results that lie inside the raster.
pub open spec fn only_batches_inside(
    events: Seq<CollectorEvent>,
    width: nat,
    height: nat,
) -> bool {
    forall|i: int|
        0 <= i < events.len() ==> match #[trigger] events[i] {
            CollectorEvent::Batch(batch) => all_inside(batch@, width, height),
            _ => false,
        }
}

/// A frame without failure gives the picture that the backend painted.
/// While batches of results inside the raster arrive, the collector keeps
/// running, and its canvas holds the results of all of them, written in the
/// order of their arrival; when the stage before it closes after them, that
/// canvas is the picture of the frame.
pub proof fn lemma_clean_run_paints_stream(start: CollectorView, events: Seq<CollectorEvent>)
    requires
        start.state == StageState::Running,
        start.failure is None,
        start.pixels.len() == start.width * start.height,
        only_batches_inside(events, start.width, start.height),
    ensures
        all_inside(stream(events), start.width, start.height),
        collector_run(start, events) == (CollectorView {
            pixels: paint(start.pixels, start.width, stream(events)),
            ..start
        }),
        collector_outcome(collector_run(start, events.push(CollectorEvent::UpstreamClosed)))
            == Ok::<Seq<(u8, u8, u8)>, FrameError>(
            paint(start.pixels, start.width, stream(events)),
        ),
    decreases events.len(),
{
    if events.len() > 0 {
        let front = events.drop_last();
        assert(only_batches_inside(front, start.width, start.height)) by {
            assert forall|i: int| 0 <= i < front.len() implies match #[trigger] front[i] {
                CollectorEvent::Batch(batch) => all_inside(batch@, start.width, start.height),
                _ => false,
            } by {
                assert(front[i] == events[i]);
            }
        }
        lemma_clean_run_paints_stream(start, front);
        assert(events[events.len() - 1] == events.last());
        let batch = events.last()->Batch_0;
        lemma_paint_concat(start.pixels, start.width, stream(front), batch@);
        assert forall|i: int| 0 <= i < stream(events).len() implies (#[trigger] stream(
            events,
        )[i]).x < start.width && stream(events)[i].y < start.height by {
            if i < stream(front).len() {
                assert(stream(events)[i] == stream(front)[i]);
            } else {
                assert(stream(events)[i] == batch@[i - stream(front).len()]);
            }
        }
    }
    let closing = events.push(CollectorEvent::UpstreamClosed);
    assert(closing.drop_last() =~= events);
    assert(closing.last() == CollectorEvent::UpstreamClosed);
}

} // verus!
