//! The producer: the first stage of the pipeline. It pulls tiles from the
//! partitioner and sends each one on, until the raster is used up; then it
//! closes the queue to the compute adapter.

use vstd::prelude::*;
use crate::pipeline::stage::StageState;
use crate::scene::{SceneChunk, SceneIterator};

verus! {

/// What the producer asks of whoever drives it.
pub enum ProducerAction {
    /// Put the tile on the queue to the compute adapter, waiting while the
    /// queue is full, then ask again.
    Send(SceneChunk),
    /// Close the queue to the compute adapter: every pixel has been sent.
    Close,
    /// The producer has ended; there is nothing to do.
    Ignored,
}

/// The first stage of the pipeline of one frame.
pub struct Producer<'a, F> {
    tiles: SceneIterator<'a, F>,
    state: StageState,
}

impl<'a, F: Fn(u32, u32) -> ultraviolet::Vec3> Producer<'a, F> {
    /// The partitioner that the tiles come from.
    pub closed spec fn tiles(&self) -> SceneIterator<'a, F> {
        self.tiles
    }

    /// Where the stage stands.
    pub closed spec fn stage(&self) -> StageState {
        self.state
    }

    /// The producer is in a state that `new` and `step` leave it in.
    pub open spec fn wf(&self) -> bool {
        self.tiles().wf()
    }

    /// A running producer that sends the tiles of `tiles`.
    pub fn new(tiles: SceneIterator<'a, F>) -> (producer: Self)
        requires
            tiles.wf(),
        ensures
            producer.wf(),
            producer.tiles() == tiles,
            producer.stage() == StageState::Running,
    {
        Producer { tiles, state: StageState::Running }
    }

    /// Where the stage stands.
    pub fn state(&self) -> (state: StageState)
        ensures
            state == self.stage(),
    {
        self.state
    }

    /// Says what is to be done next: while it runs, the producer sends the
    /// next tile of the partitioner, and closes when there is none; once
    /// closed, it stays so.
    pub fn step(&mut self) -> (action: ProducerAction)
        requires
            old(self).wf(),
        ensures
            final(self).wf(),
            final(self).tiles().scene() == old(self).tiles().scene(),
            final(self).tiles().capacity() == old(self).tiles().capacity(),
            final(self).tiles().caster() == old(self).tiles().caster(),
            old(self).stage().leads_to(final(self).stage()),
            old(self).stage() == StageState::Running && !old(self).tiles().exhausted() ==> (
            action matches ProducerAction::Send(chunk) && old(self).tiles().yields(chunk)
                && chunk.well_formed() && final(self).stage() == StageState::Running
                && final(self).tiles().cursor() == old(self).tiles().cursor() + chunk@.len()),
            old(self).stage() == StageState::Running && old(self).tiles().exhausted() ==> action
                is Close && final(self).stage() == StageState::Closed && final(self).tiles().cursor()
                == old(self).tiles().cursor(),
            old(self).stage() != StageState::Running ==> action is Ignored && final(self).stage()
                == old(self).stage() && final(self).tiles().cursor() == old(self).tiles().cursor(),
    {
        match self.state {
            StageState::Running => match self.tiles.next() {
                Some(chunk) => ProducerAction::Send(chunk),
                None => {
                    self.state = StageState::Closed;
                    ProducerAction::Close
                },
            },
            _ => ProducerAction::Ignored,
        }
    }
}

} // verus!
