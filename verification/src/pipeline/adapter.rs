//! The compute adapter: the middle stage of the pipeline. It takes tiles in,
//! has each one coloured by the compute backend, and passes the coloured
//! rays on. It holds one tile at a time.

use vstd::prelude::*;
use crate::pipeline::stage::{FrameError, StageState};
use crate::ray::Ray;
use crate::scene::SceneChunk;

verus! {

/// What the compute adapter is told of.
pub enum AdapterEvent {
    /// A tile has arrived from the producer.
    Tile(SceneChunk),
    /// The compute backend has returned the rays of the tile it was given.
    BackendReturned(Vec<Ray>),
    /// The compute backend has reported that the dispatch failed.
    BackendFailed,
    /// The producer has closed: no more tiles will come.
    UpstreamClosed,
}

/// What the compute adapter asks of whoever drives it.
pub enum AdapterAction {
    /// Wait for the next event.
    Await,
    /// Hand the rays of `tile` to the compute backend, over a grid of
    /// `shape.0` by `shape.1`, with a noise texture of the same extents, and
    /// tell the adapter how it ended.
    Dispatch { tile: SceneChunk, shape: (u32, u32) },
    /// Pass the coloured rays on to the collector, then wait for the next
    /// tile.
    Forward(Vec<Ray>),
    /// Pass the coloured rays on to the collector, then close the queue to
    /// it: they are the last.
    ForwardAndClose(Vec<Ray>),
    /// Close the queue to the collector: all tiles are through.
    Close,
    /// The frame has failed: tell the collector why, and stop.
    Abort(FrameError),
    /// The adapter has ended; the event changes nothing.
    Ignored,
}

/// The compute adapter as the proofs see it.
pub struct AdapterView {
    /// Where the stage stands.
    pub state: StageState,
    /// Number of rays of the tile that is with the compute backend, if one
    /// is.
    pub in_flight: Option<nat>,
    /// Why the frame failed, if it did.
    pub failure: Option<FrameError>,
}

/// The grid extents with which a tile is dispatched.
pub open spec fn shape_of(tile: SceneChunk) -> (u32, u32) {
    (tile.dispatch_shape().0 as u32, tile.dispatch_shape().1 as u32)
}

/// The adapter of a failed frame, and the word it sends of the failure.
pub open spec fn adapter_failed(error: FrameError) -> (AdapterView, AdapterAction) {
    (
        AdapterView { state: StageState::Closed, in_flight: None, failure: Some(error) },
        AdapterAction::Abort(error),
    )
}

/// The adapter after `event`, and what it asks for.
///
/// With no tile in hand, a tile that arrives is dispatched, with the grid
/// extents that belong to it, and the closing of the producer closes the
/// adapter. With a tile at the backend, rays that come back are passed on if
/// they are as many as were sent, and the closing of the producer is noted
/// until the backend is done. A failure of the backend, a result of the
/// wrong length, a tile that cannot be dispatched, or an event out of turn
/// fails the frame. A closed adapter ignores everything.
pub open spec fn adapter_step(before: AdapterView, event: AdapterEvent) -> (
    AdapterView,
    AdapterAction,
) {
    match before.state {
        StageState::Closed => (before, AdapterAction::Ignored),
        StageState::Running => match before.in_flight {
            None => match event {
                AdapterEvent::Tile(tile) => if tile.dispatchable() {
                    (
                        AdapterView { in_flight: Some(tile@.len()), ..before },
                        AdapterAction::Dispatch { tile, shape: shape_of(tile) },
                    )
                } else {
                    adapter_failed(FrameError::TileTooLong)
                },
                AdapterEvent::UpstreamClosed => (
                    AdapterView { state: StageState::Closed, ..before },
                    AdapterAction::Close,
                ),
                _ => adapter_failed(FrameError::Protocol),
            },
            Some(sent) => match event {
                AdapterEvent::BackendReturned(rays) => if rays@.len() == sent {
                    (AdapterView { in_flight: None, ..before }, AdapterAction::Forward(rays))
                } else {
                    adapter_failed(FrameError::ResultLength)
                },
                AdapterEvent::BackendFailed => adapter_failed(FrameError::Backend),
                AdapterEvent::UpstreamClosed => (
                    AdapterView { state: StageState::Draining, ..before },
                    AdapterAction::Await,
                ),
                AdapterEvent::Tile(_) => adapter_failed(FrameError::Protocol),
            },
        },
        StageState::Draining => match before.in_flight {
            None => (AdapterView { state: StageState::Closed, ..before }, AdapterAction::Close),
            Some(sent) => match event {
                AdapterEvent::BackendReturned(rays) => if rays@.len() == sent {
                    (
                        AdapterView { state: StageState::Closed, in_flight: None, ..before },
                        AdapterAction::ForwardAndClose(rays),
                    )
                } else {
                    adapter_failed(FrameError::ResultLength)
                },
                AdapterEvent::BackendFailed => adapter_failed(FrameError::Backend),
                _ => adapter_failed(FrameError::Protocol),
            },
        },
    }
}

/// The middle stage of the pipeline of one frame.
pub struct Adapter {
    state: StageState,
    in_flight: Option<usize>,
    failure: Option<FrameError>,
}

impl View for Adapter {
    type V = AdapterView;

    closed spec fn view(&self) -> AdapterView {
        AdapterView {
            state: self.state,
            in_flight: match self.in_flight {
                Some(sent) => Some(sent as nat),
                None => None,
            },
            failure: self.failure,
        }
    }
}

impl Adapter {
    /// A running adapter with no tile in hand.
    pub fn new() -> (adapter: Adapter)
        ensures
            adapter@ == (AdapterView {
                state: StageState::Running,
                in_flight: None,
                failure: None,
            }),
    {
        Adapter { state: StageState::Running, in_flight: None, failure: None }
    }

    /// Where the stage stands.
    pub fn state(&self) -> (state: StageState)
        ensures
            state == self@.state,
    {
        self.state
    }

    /// Why the frame failed, if it did.
    pub fn failure(&self) -> (failure: Option<FrameError>)
        ensures
            failure == self@.failure,
    {
        self.failure
    }

    /// Ends the stage for a frame that has failed.
    fn fail(&mut self, error: FrameError) -> (action: AdapterAction)
        ensures
            (final(self)@, action) == adapter_failed(error),
    {
        self.state = StageState::Closed;
        self.in_flight = None;
        self.failure = Some(error);
        AdapterAction::Abort(error)
    }

    /// Takes in one event and says what is to be done next.
    pub fn on_event(&mut self, event: AdapterEvent) -> (action: AdapterAction)
        ensures
            (final(self)@, action) == adapter_step(old(self)@, event),
    {
        match self.state {
            StageState::Closed => AdapterAction::Ignored,
            StageState::Running => match self.in_flight {
                None => match event {
                    AdapterEvent::Tile(tile) => {
                        if tile.is_dispatchable() {
                            let shape = tile.get_dimensions();
                            self.in_flight = Some(tile.len());
                            AdapterAction::Dispatch { tile, shape }
                        } else {
                            self.fail(FrameError::TileTooLong)
                        }
                    },
                    AdapterEvent::UpstreamClosed => {
                        self.state = StageState::Closed;
                        AdapterAction::Close
                    },
                    _ => self.fail(FrameError::Protocol),
                },
                Some(sent) => match event {
                    AdapterEvent::BackendReturned(rays) => {
                        if rays.len() == sent {
                            self.in_flight = None;
                            AdapterAction::Forward(rays)
                        } else {
                            self.fail(FrameError::ResultLength)
                        }
                    },
                    AdapterEvent::BackendFailed => self.fail(FrameError::Backend),
                    AdapterEvent::UpstreamClosed => {
                        self.state = StageState::Draining;
                        AdapterAction::Await
                    },
                    AdapterEvent::Tile(_) => self.fail(FrameError::Protocol),
                },
            },
            StageState::Draining => match self.in_flight {
                None => {
                    self.state = StageState::Closed;
                    AdapterAction::Close
                },
                Some(sent) => match event {
                    AdapterEvent::BackendReturned(rays) => {
                        if rays.len() == sent {
                            self.state = StageState::Closed;
                            self.in_flight = None;
                            AdapterAction::ForwardAndClose(rays)
                        } else {
                            self.fail(FrameError::ResultLength)
                        }
                    },
                    AdapterEvent::BackendFailed => self.fail(FrameError::Backend),
                    _ => self.fail(FrameError::Protocol),
                },
            },
        }
    }
}

} // verus!
