//! The collector: the last stage of the pipeline. It takes in batches of
//! coloured pixels, writes each colour to its place on the canvas, and hands
//! the canvas over once the stage before it has closed, unless the frame has
//! failed.

use vstd::prelude::*;
use crate::canvas::{black, Canvas};
use crate::pipeline::stage::{FrameError, StageState};
use crate::raster::pixel_id;

verus! {

/// The colour that the compute backend found for one pixel, in 8 bits for
/// each of red, green and blue.
#[derive(Clone, Copy, Debug)]
pub struct ColoredPixel {
    /// Column of the pixel.
    pub x: u32,
    /// Row of the pixel.
    pub y: u32,
    /// Its colour as `(red, green, blue)`.
    pub rgb: (u8, u8, u8),
}

/// What the collector is told of.
pub enum CollectorEvent {
    /// A batch of results has arrived.
    Batch(Vec<ColoredPixel>),
    /// The frame has failed upstream.
    Aborted(FrameError),
    /// The stage before has closed: no more results will come.
    UpstreamClosed,
}

/// What the collector asks of whoever drives it.
#[derive(Clone, Copy, Debug, PartialEq, Eq, Structural)]
pub enum CollectorAction {
    /// Wait for the next event.
    Continue,
    /// The picture is complete: take the canvas and persist it.
    Persist,
    /// The frame has failed: drop the canvas and report the error.
    Discard(FrameError),
    /// The collector has ended; the event changes nothing.
    Ignored,
}

/// Every pixel of the batch lies inside a raster of the given extents.
pub open spec fn all_inside(batch: Seq<ColoredPixel>, width: nat, height: nat) -> bool {
    forall|i: int| 0 <= i < batch.len() ==> (#[trigger] batch[i]).x < width && batch[i].y < height
}

/// The raster `pixels` after the colours of `batch` have been written to it,
/// one after the other.
pub open spec fn paint(pixels: Seq<(u8, u8, u8)>, width: nat, batch: Seq<ColoredPixel>) -> Seq<
    (u8, u8, u8),
>
    decreases batch.len(),
{
    if batch.len() == 0 {
        pixels
    } else {
        paint(pixels, width, batch.drop_last()).update(
            pixel_id(batch.last().x as nat, batch.last().y as nat, width) as int,
            batch.last().rgb,
        )
    }
}

/// The collector as the proofs see it.
pub struct CollectorView {
    /// The pixels of the canvas, row by row.
    pub pixels: Seq<(u8, u8, u8)>,
    /// Number of pixel columns of the canvas.
    pub width: nat,
    /// Number of pixel rows of the canvas.
    pub height: nat,
    /// Where the stage stands.
    pub state: StageState,
    /// Why the frame failed, if it did.
    pub failure: Option<FrameError>,
}

/// The collector of a failed frame: closed, with the reason kept.
pub open spec fn collector_failed(before: CollectorView, error: FrameError) -> CollectorView {
    CollectorView { state: StageState::Closed, failure: Some(error), ..before }
}

/// The collector after `event`, and what it asks for.
///
/// While it runs, a batch is written to the canvas whole, unless one of its
/// pixels lies outside the raster, which fails the frame; word of a failure
/// upstream fails the frame; and the closing of the stage before freezes the
/// canvas for persistence. After that nothing changes any more.
pub open spec fn collector_step(before: CollectorView, event: CollectorEvent) -> (
    CollectorView,
    CollectorAction,
) {
    match before.state {
        StageState::Running => match event {
            CollectorEvent::Batch(batch) => if all_inside(batch@, before.width, before.height) {
                (
                    CollectorView {
                        pixels: paint(before.pixels, before.width, batch@),
                        ..before
                    },
                    CollectorAction::Continue,
                )
            } else {
                (
                    collector_failed(before, FrameError::PixelOutsideRaster),
                    CollectorAction::Discard(FrameError::PixelOutsideRaster),
                )
            },
            CollectorEvent::Aborted(error) => (
                collector_failed(before, error),
                CollectorAction::Discard(error),
            ),
            CollectorEvent::UpstreamClosed => (
                CollectorView { state: StageState::Draining, ..before },
                CollectorAction::Persist,
            ),
        },
        _ => (before, CollectorAction::Ignored),
    }
}

/// The last stage of the pipeline of one frame.
pub struct Collector {
    canvas: Canvas,
    state: StageState,
    failure: Option<FrameError>,
}

impl View for Collector {
    type V = CollectorView;

    closed spec fn view(&self) -> CollectorView {
        CollectorView {
            pixels: self.canvas@,
            width: self.canvas.width(),
            height: self.canvas.height(),
            state: self.state,
            failure: self.failure,
        }
    }
}

impl Collector {
    /// The canvas holds one pixel for each place of its raster.
    pub open spec fn wf(&self) -> bool {
        self@.pixels.len() == self@.width * self@.height
    }

    /// A running collector with a black canvas of the given extents, or
    /// `None` where such a canvas does not fit in memory.
    pub fn new(width: u32, height: u32) -> (made: Option<Collector>)
        ensures
            made is Some <==> Canvas::fits(width, height),
            made matches Some(collector) ==> collector.wf() && collector@ == (CollectorView {
                pixels: black(width as nat, height as nat),
                width: width as nat,
                height: height as nat,
                state: StageState::Running,
                failure: None,
            }),
    {
        match Canvas::new(width, height) {
            Some(canvas) => Some(Collector { canvas, state: StageState::Running, failure: None }),
            None => None,
        }
    }

    /// Where the stage stands.
    pub fn state(&self) -> (state: StageState)
        ensures
            state == self@.state,
    {
        self.state
    }

    /// Whether every pixel of `batch` lies inside the canvas.
    fn accepts(&self, batch: &Vec<ColoredPixel>) -> (inside: bool)
        ensures
            inside == all_inside(batch@, self@.width, self@.height),
    {
        let (width, height) = self.canvas.dimensions();
        let mut i: usize = 0;
        while i < batch.len()
            invariant
                i <= batch.len(),
                width == self@.width,
                height == self@.height,
                all_inside(batch@.take(i as int), width as nat, height as nat),
            decreases batch.len() - i,
        {
            if batch[i].x >= width || batch[i].y >= height {
                return false;
            }
            proof {
                assert forall|k: int| 0 <= k < i + 1 implies (#[trigger] batch@.take(
                    i + 1,
                )[k]).x < width && batch@.take(i + 1)[k].y < height by {
                    if k < i {
                        assert(batch@.take(i as int)[k] == batch@[k]);
                    }
                }
            }
            i = i + 1;
        }
        proof {
            assert(batch@.take(i as int) =~= batch@);
        }
        true
    }

    /// Writes the colours of `batch` to the canvas, one after the other.
    fn write(&mut self, batch: &Vec<ColoredPixel>)
        requires
            old(self).wf(),
            all_inside(batch@, old(self)@.width, old(self)@.height),
        ensures
            final(self).wf(),
            final(self)@ == (CollectorView {
                pixels: paint(old(self)@.pixels, old(self)@.width, batch@),
                ..old(self)@
            }),
    {
        let mut i: usize = 0;
        while i < batch.len()
            invariant
                i <= batch.len(),
                self.wf(),
                all_inside(batch@, self@.width, self@.height),
                self@ == (CollectorView {
                    pixels: paint(old(self)@.pixels, old(self)@.width, batch@.take(i as int)),
                    ..old(self)@
                }),
            decreases batch.len() - i,
        {
            let pixel = batch[i];
            proof {
                assert(batch@.take(i + 1).drop_last() =~= batch@.take(i as int));
                assert(batch@.take(i + 1).last() == batch@[i as int]);
            }
            self.canvas.put_pixel(pixel.x, pixel.y, pixel.rgb);
            i = i + 1;
        }
        proof {
            assert(batch@.take(i as int) =~= batch@);
        }
    }

    /// Takes in one event and says what is to be done next.
    pub fn on_event(&mut self, event: CollectorEvent) -> (action: CollectorAction)
        requires
            old(self).wf(),
        ensures
            final(self).wf(),
            (final(self)@, action) == collector_step(old(self)@, event),
    {
        match self.state {
            StageState::Running => match event {
                CollectorEvent::Batch(batch) => {
                    if self.accepts(&batch) {
                        self.write(&batch);
                        CollectorAction::Continue
                    } else {
                        self.fail(FrameError::PixelOutsideRaster)
                    }
                },
                CollectorEvent::Aborted(error) => self.fail(error),
                CollectorEvent::UpstreamClosed => {
                    self.state = StageState::Draining;
                    CollectorAction::Persist
                },
            },
            _ => CollectorAction::Ignored,
        }
    }

    /// Ends the stage for a frame that has failed.
    fn fail(&mut self, error: FrameError) -> (action: CollectorAction)
        requires
            old(self).wf(),
        ensures
            final(self).wf(),
            final(self)@ == collector_failed(old(self)@, error),
            action == CollectorAction::Discard(error),
    {
        self.state = StageState::Closed;
        self.failure = Some(error);
        CollectorAction::Discard(error)
    }

    /// Ends the stage and hands the canvas over for persistence. The canvas
    /// is handed over only if the stage before has closed and the frame has
    /// not failed; a failed frame gives the reason of its failure, and a
    /// frame that is still running is cut off as a breach of protocol.
    pub fn finish(self) -> (picture: Result<Canvas, FrameError>)
        requires
            self.wf(),
        ensures
            picture is Ok <==> collector_outcome(self@) is Ok,
            picture matches Ok(canvas) ==> canvas.wf() && canvas@ == self@.pixels && canvas.width()
                == self@.width && canvas.height() == self@.height,
            picture matches Err(error) ==> collector_outcome(self@) == Err::<
                Seq<(u8, u8, u8)>,
                FrameError,
            >(error),
    {
        match self.failure {
            Some(error) => Err(error),
            None => match self.state {
                StageState::Draining => Ok(self.canvas),
                _ => Err(FrameError::Protocol),
            },
        }
    }
}

/// How the frame of a collector ends: with its pixels, or with the reason
/// why there are none.
pub open spec fn collector_outcome(view: CollectorView) -> Result<Seq<(u8, u8, u8)>, FrameError> {
    match view.failure {
        Some(error) => Err(error),
        None => match view.state {
            StageState::Draining => Ok(view.pixels),
            _ => Err(FrameError::Protocol),
        },
    }
}

} // verus!
