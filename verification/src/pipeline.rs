//! The pipeline of one frame: a producer that cuts the raster into tiles, a
//! compute adapter that has each tile coloured by the compute backend, and a
//! collector that gathers the colours on a canvas.
//!
//! The stages are connected by queues and run side by side; waiting on a
//! queue or on the backend is the business of whoever drives them. What is
//! here is what each stage decides: given the state it is in and what has
//! just happened, the state it goes to and what is to be done next.

pub mod adapter;
pub mod collector;
pub mod laws;
pub mod producer;
pub mod stage;
