use std::collections::VecDeque;
use tilecast::canvas::Canvas;
use tilecast::pipeline::adapter::{Adapter, AdapterAction, AdapterEvent};
use tilecast::pipeline::collector::{Collector, CollectorAction, CollectorEvent, ColoredPixel};
use tilecast::pipeline::producer::{Producer, ProducerAction};
use tilecast::pipeline::stage::{FrameError, StageState};
use tilecast::ray::Ray;
use tilecast::scene::{Scene, SceneChunk, SceneIterator};
use ultraviolet::Vec3;

const QUEUE: usize = 2;

fn scene(width: u32, height: u32) -> Scene {
    Scene { screen_width: width, screen_height: height, eye: Vec3::new(4.0, 1.0, 5.0) }
}

fn toward(x: u32, y: u32) -> Vec3 {
    Vec3::new(x as f32, y as f32, -1.0)
}

fn quantize(rays: &[Ray]) -> Vec<ColoredPixel> {
    rays.iter()
        .map(|ray| ColoredPixel {
            x: ray.screen_x,
            y: ray.screen_y,
            rgb: (
                (ray.color.x * 255f32) as u8,
                (ray.color.y * 255f32) as u8,
                (ray.color.z * 255f32) as u8,
            ),
        })
        .collect()
}

fn rays(count: u32) -> Vec<Ray> {
    (0..count).map(|i| Ray::new(Vec3::zero(), Vec3::unit_z(), None, i, 0)).collect()
}

enum Delivery {
    Batch(Vec<Ray>),
    Failed(FrameError),
}

struct Run {
    picture: Result<Canvas, FrameError>,
    dispatched: Vec<(usize, (u32, u32))>,
    collector_actions: Vec<CollectorAction>,
    adapter_state: StageState,
    longest_queue: usize,
}

// Drives the three stages over two bounded queues, one step of one stage at
// a time, until the collector has seen the queue to it close. `backend`
// colours the rays of dispatch number `n`, or fails.
fn run_frame(
    width: u32,
    height: u32,
    capacity: usize,
    backend: impl Fn(usize, &[Ray]) -> Option<Vec<Ray>>,
) -> Run {
    let scene = scene(width, height);
    let tiles = SceneIterator::new(&scene, capacity, toward).unwrap();
    let mut producer = Producer::new(tiles);
    let mut adapter = Adapter::new();
    let mut collector = Collector::new(width, height).unwrap();

    let mut tile_queue: VecDeque<SceneChunk> = VecDeque::new();
    let mut tile_queue_closed = false;
    let mut result_queue: VecDeque<Delivery> = VecDeque::new();
    let mut result_queue_closed = false;
    let mut held: Option<SceneChunk> = None;
    let mut dispatched = Vec::new();
    let mut collector_actions = Vec::new();
    let mut longest_queue = 0;
    let mut collector_done = false;

    while !collector_done {
        // producer: waits while the queue is full
        if !tile_queue_closed {
            if held.is_none() {
                match producer.step() {
                    ProducerAction::Send(tile) => held = Some(tile),
                    ProducerAction::Close => tile_queue_closed = true,
                    ProducerAction::Ignored => {}
                }
            }
            if tile_queue.len() < QUEUE {
                if let Some(tile) = held.take() {
                    tile_queue.push_back(tile);
                }
            }
        }
        longest_queue = longest_queue.max(tile_queue.len()).max(result_queue.len());

        // compute adapter: takes a tile only when the result queue has room
        if !result_queue_closed && result_queue.len() < QUEUE {
            let event = match tile_queue.pop_front() {
                Some(tile) => Some(AdapterEvent::Tile(tile)),
                None if tile_queue_closed => Some(AdapterEvent::UpstreamClosed),
                None => None,
            };
            if let Some(event) = event {
                let mut action = adapter.on_event(event);
                loop {
                    match action {
                        AdapterAction::Dispatch { tile, shape } => {
                            let n = dispatched.len();
                            dispatched.push((tile.len(), shape));
                            action = match backend(n, tile.as_ref()) {
                                Some(coloured) => {
                                    adapter.on_event(AdapterEvent::BackendReturned(coloured))
                                }
                                None => adapter.on_event(AdapterEvent::BackendFailed),
                            };
                        }
                        AdapterAction::Forward(coloured) => {
                            result_queue.push_back(Delivery::Batch(coloured));
                            break;
                        }
                        AdapterAction::ForwardAndClose(coloured) => {
                            result_queue.push_back(Delivery::Batch(coloured));
                            result_queue_closed = true;
                            break;
                        }
                        AdapterAction::Abort(error) => {
                            result_queue.push_back(Delivery::Failed(error));
                            result_queue_closed = true;
                            break;
                        }
                        AdapterAction::Close => {
                            result_queue_closed = true;
                            break;
                        }
                        AdapterAction::Await | AdapterAction::Ignored => break,
                    }
                }
            }
        }
        longest_queue = longest_queue.max(tile_queue.len()).max(result_queue.len());

        // collector
        let event = match result_queue.pop_front() {
            Some(Delivery::Batch(coloured)) => Some(CollectorEvent::Batch(quantize(&coloured))),
            Some(Delivery::Failed(error)) => Some(CollectorEvent::Aborted(error)),
            None if result_queue_closed => Some(CollectorEvent::UpstreamClosed),
            None => None,
        };
        if let Some(event) = event {
            let closing = matches!(event, CollectorEvent::UpstreamClosed);
            collector_actions.push(collector.on_event(event));
            collector_done = closing;
        }
    }

    Run {
        picture: collector.finish(),
        dispatched,
        collector_actions,
        adapter_state: adapter.state(),
        longest_queue,
    }
}

fn white(rays: &[Ray]) -> Vec<Ray> {
    rays.iter().map(|ray| Ray { color: Vec3::new(1.0, 1.0, 1.0), ..*ray }).collect()
}

#[test]
fn white_backend_gives_white_canvas() {
    let run = run_frame(10, 10, 36, |_, rays| Some(white(rays)));
    let canvas = run.picture.unwrap();
    assert_eq!(canvas.dimensions(), (10, 10));
    for y in 0..10 {
        for x in 0..10 {
            assert_eq!(canvas.get_pixel(x, y), (255, 255, 255));
        }
    }
    assert_eq!(run.dispatched, vec![(36, (6, 6)), (36, (6, 6)), (28, (28, 1))]);
    assert_eq!(run.adapter_state, StageState::Closed);
    assert_eq!(run.collector_actions.last(), Some(&CollectorAction::Persist));
    assert_eq!(
        run.collector_actions.iter().filter(|a| **a == CollectorAction::Persist).count(),
        1
    );
    assert!(run.longest_queue <= QUEUE);
}

#[test]
fn every_pixel_gets_the_colour_computed_for_it() {
    let shade = |rays: &[Ray]| -> Vec<Ray> {
        rays.iter()
            .map(|ray| Ray {
                color: Vec3::new(ray.screen_x as f32 / 255.0, ray.screen_y as f32 / 255.0, 0.0),
                ..*ray
            })
            .collect()
    };
    let run = run_frame(7, 5, 4, |_, rays| Some(shade(rays)));
    let canvas = run.picture.unwrap();
    for y in 0..5 {
        for x in 0..7 {
            assert_eq!(canvas.get_pixel(x, y), (x as u8, y as u8, 0));
        }
    }
    assert_eq!(run.dispatched.len(), 9);
}

#[test]
fn backend_failure_on_one_tile_leaves_no_picture() {
    for failing in 0..4 {
        let run = run_frame(10, 10, 25, |n, rays| if n == failing { None } else { Some(white(rays)) });
        match run.picture {
            Ok(_) => panic!("a picture was handed over"),
            Err(error) => assert_eq!(error, FrameError::Backend),
        }
        assert_eq!(run.dispatched.len(), failing + 1);
        assert!(!run.collector_actions.contains(&CollectorAction::Persist));
        assert!(run.collector_actions.contains(&CollectorAction::Discard(FrameError::Backend)));
        assert_eq!(run.adapter_state, StageState::Closed);
    }
}

#[test]
fn frames_do_not_share_state() {
    let failed = run_frame(4, 4, 4, |_, _| None);
    assert!(failed.picture.is_err());
    let next = run_frame(4, 4, 4, |_, rays| Some(white(rays)));
    let canvas = next.picture.unwrap();
    assert_eq!(canvas.get_pixel(3, 3), (255, 255, 255));
}

#[test]
fn producer_sends_every_tile_then_closes() {
    let scene = scene(10, 10);
    let mut producer = Producer::new(SceneIterator::new(&scene, 36, toward).unwrap());
    assert_eq!(producer.state(), StageState::Running);
    let mut lengths = Vec::new();
    loop {
        match producer.step() {
            ProducerAction::Send(tile) => {
                assert_eq!(producer.state(), StageState::Running);
                lengths.push(tile.len());
            }
            ProducerAction::Close => break,
            ProducerAction::Ignored => panic!("the producer ended without closing"),
        }
    }
    assert_eq!(lengths, vec![36, 36, 28]);
    assert_eq!(producer.state(), StageState::Closed);
    assert!(matches!(producer.step(), ProducerAction::Ignored));
    assert_eq!(producer.state(), StageState::Closed);
}

#[test]
fn adapter_dispatches_forwards_and_closes() {
    let mut adapter = Adapter::new();
    assert_eq!(adapter.state(), StageState::Running);
    match adapter.on_event(AdapterEvent::Tile(SceneChunk::from_vec(rays(4), 4))) {
        AdapterAction::Dispatch { tile, shape } => {
            assert_eq!(tile.len(), 4);
            assert_eq!(shape, (2, 2));
        }
        _ => panic!("the tile was not dispatched"),
    }
    match adapter.on_event(AdapterEvent::BackendReturned(rays(4))) {
        AdapterAction::Forward(coloured) => assert_eq!(coloured.len(), 4),
        _ => panic!("the rays were not passed on"),
    }
    match adapter.on_event(AdapterEvent::Tile(SceneChunk::from_vec(rays(3), 4))) {
        AdapterAction::Dispatch { shape, .. } => assert_eq!(shape, (3, 1)),
        _ => panic!("the tile was not dispatched"),
    }
    assert!(matches!(
        adapter.on_event(AdapterEvent::BackendReturned(rays(3))),
        AdapterAction::Forward(_)
    ));
    assert!(matches!(adapter.on_event(AdapterEvent::UpstreamClosed), AdapterAction::Close));
    assert_eq!(adapter.state(), StageState::Closed);
    assert_eq!(adapter.failure(), None);
    assert!(matches!(
        adapter.on_event(AdapterEvent::Tile(SceneChunk::from_vec(rays(4), 4))),
        AdapterAction::Ignored
    ));
    assert_eq!(adapter.state(), StageState::Closed);
}

#[test]
fn adapter_drains_when_the_producer_closes_first() {
    let mut adapter = Adapter::new();
    assert!(matches!(
        adapter.on_event(AdapterEvent::Tile(SceneChunk::from_vec(rays(4), 4))),
        AdapterAction::Dispatch { .. }
    ));
    assert!(matches!(adapter.on_event(AdapterEvent::UpstreamClosed), AdapterAction::Await));
    assert_eq!(adapter.state(), StageState::Draining);
    match adapter.on_event(AdapterEvent::BackendReturned(rays(4))) {
        AdapterAction::ForwardAndClose(coloured) => assert_eq!(coloured.len(), 4),
        _ => panic!("the last rays were not passed on"),
    }
    assert_eq!(adapter.state(), StageState::Closed);
    assert_eq!(adapter.failure(), None);
}

#[test]
fn adapter_fails_the_frame_with_the_reason() {
    let busy = || {
        let mut adapter = Adapter::new();
        adapter.on_event(AdapterEvent::Tile(SceneChunk::from_vec(rays(4), 4)));
        adapter
    };

    let mut adapter = busy();
    assert!(matches!(
        adapter.on_event(AdapterEvent::BackendFailed),
        AdapterAction::Abort(FrameError::Backend)
    ));
    assert_eq!(adapter.state(), StageState::Closed);
    assert_eq!(adapter.failure(), Some(FrameError::Backend));
    assert!(matches!(
        adapter.on_event(AdapterEvent::BackendReturned(rays(4))),
        AdapterAction::Ignored
    ));
    assert_eq!(adapter.failure(), Some(FrameError::Backend));

    let mut adapter = busy();
    assert!(matches!(
        adapter.on_event(AdapterEvent::BackendReturned(rays(3))),
        AdapterAction::Abort(FrameError::ResultLength)
    ));
    assert_eq!(adapter.failure(), Some(FrameError::ResultLength));

    let mut adapter = busy();
    assert!(matches!(
        adapter.on_event(AdapterEvent::Tile(SceneChunk::from_vec(rays(4), 4))),
        AdapterAction::Abort(FrameError::Protocol)
    ));

    let mut adapter = Adapter::new();
    assert!(matches!(
        adapter.on_event(AdapterEvent::BackendReturned(rays(4))),
        AdapterAction::Abort(FrameError::Protocol)
    ));
    assert_eq!(adapter.state(), StageState::Closed);

    let mut adapter = busy();
    adapter.on_event(AdapterEvent::UpstreamClosed);
    assert!(matches!(
        adapter.on_event(AdapterEvent::BackendFailed),
        AdapterAction::Abort(FrameError::Backend)
    ));
    assert_eq!(adapter.state(), StageState::Closed);
}

#[test]
fn collector_writes_batches_and_hands_the_canvas_over() {
    let mut collector = Collector::new(3, 2).unwrap();
    assert_eq!(collector.state(), StageState::Running);
    let first = vec![
        ColoredPixel { x: 0, y: 0, rgb: (1, 2, 3) },
        ColoredPixel { x: 2, y: 1, rgb: (4, 5, 6) },
    ];
    assert_eq!(collector.on_event(CollectorEvent::Batch(first)), CollectorAction::Continue);
    let second = vec![ColoredPixel { x: 2, y: 1, rgb: (7, 8, 9) }];
    assert_eq!(collector.on_event(CollectorEvent::Batch(second)), CollectorAction::Continue);
    assert_eq!(collector.on_event(CollectorEvent::UpstreamClosed), CollectorAction::Persist);
    assert_eq!(collector.state(), StageState::Draining);
    assert_eq!(
        collector.on_event(CollectorEvent::Aborted(FrameError::Backend)),
        CollectorAction::Ignored
    );
    let canvas = collector.finish().unwrap();
    assert_eq!(canvas.get_pixel(0, 0), (1, 2, 3));
    assert_eq!(canvas.get_pixel(2, 1), (7, 8, 9));
    assert_eq!(canvas.get_pixel(1, 0), (0, 0, 0));
}

#[test]
fn collector_discards_a_failed_frame() {
    let mut collector = Collector::new(3, 2).unwrap();
    let batch = vec![ColoredPixel { x: 0, y: 0, rgb: (1, 2, 3) }];
    assert_eq!(collector.on_event(CollectorEvent::Batch(batch)), CollectorAction::Continue);
    assert_eq!(
        collector.on_event(CollectorEvent::Aborted(FrameError::Backend)),
        CollectorAction::Discard(FrameError::Backend)
    );
    assert_eq!(collector.state(), StageState::Closed);
    assert_eq!(collector.on_event(CollectorEvent::UpstreamClosed), CollectorAction::Ignored);
    assert_eq!(collector.state(), StageState::Closed);
    match collector.finish() {
        Ok(_) => panic!("a picture was handed over"),
        Err(error) => assert_eq!(error, FrameError::Backend),
    }
}

#[test]
fn collector_refuses_a_pixel_outside_the_raster() {
    for (x, y) in [(3u32, 0u32), (0, 2), (3, 2), (u32::MAX, u32::MAX)] {
        let mut collector = Collector::new(3, 2).unwrap();
        let batch = vec![
            ColoredPixel { x: 1, y: 1, rgb: (1, 2, 3) },
            ColoredPixel { x, y, rgb: (4, 5, 6) },
        ];
        assert_eq!(
            collector.on_event(CollectorEvent::Batch(batch)),
            CollectorAction::Discard(FrameError::PixelOutsideRaster)
        );
        match collector.finish() {
            Ok(_) => panic!("a picture was handed over"),
            Err(error) => assert_eq!(error, FrameError::PixelOutsideRaster),
        }
    }
}

#[test]
fn collector_that_is_still_running_has_no_picture() {
    let collector = Collector::new(3, 2).unwrap();
    match collector.finish() {
        Ok(_) => panic!("a picture was handed over"),
        Err(error) => assert_eq!(error, FrameError::Protocol),
    }
}

#[test]
fn collector_needs_a_canvas_that_fits() {
    assert!(Collector::new(u32::MAX, u32::MAX).is_none());
    assert!(Collector::new(0, 0).is_some());
}

fn rank(state: StageState) -> u32 {
    match state {
        StageState::Running => 0,
        StageState::Draining => 1,
        StageState::Closed => 2,
    }
}

#[test]
fn stages_never_go_back() {
    // every run of six events out of four kinds, at the adapter and at the
    // collector
    for code in 0..4096u32 {
        let mut adapter = Adapter::new();
        let mut collector = Collector::new(2, 2).unwrap();
        let mut adapter_rank = rank(adapter.state());
        let mut collector_rank = rank(collector.state());
        for step in 0..6 {
            let kind = (code >> (2 * step)) & 3;
            let adapter_event = match kind {
                0 => AdapterEvent::Tile(SceneChunk::from_vec(rays(4), 4)),
                1 => AdapterEvent::BackendReturned(rays(4)),
                2 => AdapterEvent::BackendFailed,
                _ => AdapterEvent::UpstreamClosed,
            };
            adapter.on_event(adapter_event);
            assert!(rank(adapter.state()) >= adapter_rank);
            adapter_rank = rank(adapter.state());

            let collector_event = match kind {
                0 => CollectorEvent::Batch(vec![ColoredPixel { x: 1, y: 1, rgb: (1, 1, 1) }]),
                1 => CollectorEvent::Batch(vec![ColoredPixel { x: 2, y: 0, rgb: (1, 1, 1) }]),
                2 => CollectorEvent::Aborted(FrameError::Backend),
                _ => CollectorEvent::UpstreamClosed,
            };
            collector.on_event(collector_event);
            assert!(rank(collector.state()) >= collector_rank);
            collector_rank = rank(collector.state());
        }
    }
}
