use qr_cam::convert::{convert, RawPlane};
use qr_cam::decode::Decoder;
use qr_cam::qr::{Point, QRCode};
use qr_cam::raster::GrayImage;
use qr_cam::worker::{
    decode_qr, start, WorkerAction, WorkerEvent, WorkerState, SAMPLING_INTERVAL_MS,
};

fn frame(level: u8) -> GrayImage {
    let bytes = [128u8, level, 128, level];
    convert(&RawPlane { stride: 4, height: 1, bytes: &bytes }, false).1
}

fn code(text: &str) -> QRCode {
    QRCode::new(text.to_string(), Point { x: 0, y: 0 }, Point { x: 1, y: 1 })
}

/// Runs the worker against a decoder as its runner would, with an engine
/// that counts its calls and reports the level of the frame it was given.
/// Stops after `cycles` sleeps, or when the worker leaves its loop.
struct Runner {
    state: WorkerState,
    action: WorkerAction,
    engine_calls: usize,
    decoded_levels: Vec<u8>,
    sleeps: usize,
}

impl Runner {
    fn new() -> Self {
        let (state, action) = start();
        Runner { state, action, engine_calls: 0, decoded_levels: Vec::new(), sleeps: 0 }
    }

    /// Performs the pending action and feeds the event back. Gives `false`
    /// once the worker has asked to leave the loop.
    fn step(&mut self, decoder: &mut Decoder, stop: bool) -> bool {
        let action = std::mem::replace(&mut self.action, WorkerAction::Wait);
        let event = match action {
            WorkerAction::Sleep(millis) => {
                assert_eq!(millis, SAMPLING_INTERVAL_MS);
                self.sleeps += 1;
                WorkerEvent::Elapsed
            }
            WorkerAction::Sample => WorkerEvent::Sampled(decoder.take_sample()),
            WorkerAction::Decode(image) => {
                self.engine_calls += 1;
                let level = image.into_raw()[0];
                self.decoded_levels.push(level);
                WorkerEvent::Decoded(vec![code(&format!("level {}", level))])
            }
            WorkerAction::Publish(batch) => {
                decoder.publish(batch);
                WorkerEvent::StopFlag(stop)
            }
            WorkerAction::CheckStop => WorkerEvent::StopFlag(stop),
            WorkerAction::Exit => {
                self.action = WorkerAction::Exit;
                return false;
            }
            WorkerAction::Wait => panic!("the runner sent an event out of turn"),
        };
        let (state, action) = decode_qr(self.state, event);
        self.state = state;
        self.action = action;
        true
    }

    /// Runs until the worker is about to sleep again, or has stopped.
    fn run_one_cycle(&mut self, decoder: &mut Decoder, stop: bool) {
        assert!(matches!(self.action, WorkerAction::Sleep(_)));
        loop {
            if !self.step(decoder, stop) {
                return;
            }
            if matches!(self.action, WorkerAction::Sleep(_) | WorkerAction::Exit) {
                return;
            }
        }
    }
}

#[test]
fn a_worker_starts_idle_and_sleeps_first() {
    let (state, action) = start();
    assert_eq!(state, WorkerState::Idle);
    assert!(matches!(action, WorkerAction::Sleep(51)));
}

#[test]
fn one_cycle_with_a_frame() {
    let (state, action) = decode_qr(WorkerState::Idle, WorkerEvent::Elapsed);
    assert_eq!(state, WorkerState::Sampling);
    assert!(matches!(action, WorkerAction::Sample));
    let (state, action) = decode_qr(state, WorkerEvent::Sampled(Some(frame(9))));
    assert_eq!(state, WorkerState::Decoding);
    let WorkerAction::Decode(image) = action else { panic!("expected a decode") };
    assert_eq!(image.into_raw(), vec![9, 9]);
    let (state, action) = decode_qr(state, WorkerEvent::Decoded(vec![code("a"), code("b")]));
    assert_eq!(state, WorkerState::Idle);
    let WorkerAction::Publish(batch) = action else { panic!("expected a publish") };
    assert_eq!(batch.len(), 2);
    assert_eq!(batch[1].text(), "b");
    let (state, action) = decode_qr(state, WorkerEvent::StopFlag(false));
    assert_eq!(state, WorkerState::Idle);
    assert!(matches!(action, WorkerAction::Sleep(51)));
}

#[test]
fn one_cycle_without_a_frame() {
    let (state, action) = decode_qr(WorkerState::Sampling, WorkerEvent::Sampled(None));
    assert_eq!(state, WorkerState::Idle);
    assert!(matches!(action, WorkerAction::CheckStop));
    let (state, action) = decode_qr(state, WorkerEvent::StopFlag(true));
    assert_eq!(state, WorkerState::Stopped);
    assert!(matches!(action, WorkerAction::Exit));
}

#[test]
fn an_empty_batch_is_published_like_any_other() {
    let (state, action) = decode_qr(WorkerState::Decoding, WorkerEvent::Decoded(Vec::new()));
    assert_eq!(state, WorkerState::Idle);
    let WorkerAction::Publish(batch) = action else { panic!("expected a publish") };
    assert!(batch.is_empty());
}

#[test]
fn a_stopped_worker_only_exits() {
    let events = vec![
        WorkerEvent::Elapsed,
        WorkerEvent::Sampled(None),
        WorkerEvent::Sampled(Some(frame(1))),
        WorkerEvent::Decoded(vec![code("late")]),
        WorkerEvent::StopFlag(false),
        WorkerEvent::StopFlag(true),
    ];
    for event in events {
        let (state, action) = decode_qr(WorkerState::Stopped, event);
        assert_eq!(state, WorkerState::Stopped);
        assert!(matches!(action, WorkerAction::Exit));
    }
}

#[test]
fn a_decode_in_flight_is_not_interrupted() {
    for event in [
        WorkerEvent::StopFlag(true),
        WorkerEvent::StopFlag(false),
        WorkerEvent::Elapsed,
        WorkerEvent::Sampled(None),
        WorkerEvent::Sampled(Some(frame(3))),
    ] {
        let (state, action) = decode_qr(WorkerState::Decoding, event);
        assert_eq!(state, WorkerState::Decoding);
        assert!(matches!(action, WorkerAction::Wait));
    }
}

#[test]
fn events_out_of_turn_are_ignored() {
    let (state, action) = decode_qr(WorkerState::Idle, WorkerEvent::Sampled(Some(frame(3))));
    assert_eq!(state, WorkerState::Idle);
    assert!(matches!(action, WorkerAction::Wait));
    let (state, action) = decode_qr(WorkerState::Idle, WorkerEvent::Decoded(Vec::new()));
    assert_eq!(state, WorkerState::Idle);
    assert!(matches!(action, WorkerAction::Wait));
    for event in [WorkerEvent::Elapsed, WorkerEvent::Decoded(Vec::new()), WorkerEvent::StopFlag(true)] {
        let (state, action) = decode_qr(WorkerState::Sampling, event);
        assert_eq!(state, WorkerState::Sampling);
        assert!(matches!(action, WorkerAction::Wait));
    }
}

#[test]
fn five_frames_in_one_interval_cost_one_decode() {
    let mut decoder = Decoder::new();
    decoder.set_mirror(false);
    let mut runner = Runner::new();
    for level in [10u8, 20, 30, 40, 50] {
        decoder.record_img(4, 1, &[128, level, 128, level]);
    }
    runner.run_one_cycle(&mut decoder, false);
    assert_eq!(runner.engine_calls, 1);
    assert_eq!(runner.decoded_levels, vec![50]);
    let batch = decoder.take_qrcodes().unwrap();
    assert_eq!(batch.len(), 1);
    assert_eq!(batch[0].text(), "level 50");
    // nothing new: the next cycle decodes nothing and publishes nothing
    runner.run_one_cycle(&mut decoder, false);
    assert_eq!(runner.engine_calls, 1);
    assert!(decoder.take_qrcodes().is_none());
    assert_eq!(runner.sleeps, 2);
}

#[test]
fn one_decode_per_interval_however_fast_frames_come() {
    let mut decoder = Decoder::new();
    decoder.set_mirror(false);
    let mut runner = Runner::new();
    for cycle in 0..4u8 {
        for burst in 0..3u8 {
            let level = cycle * 10 + burst;
            decoder.record_img(4, 1, &[128, level, 128, level]);
        }
        runner.run_one_cycle(&mut decoder, false);
    }
    assert_eq!(runner.engine_calls, 4);
    assert_eq!(runner.decoded_levels, vec![2, 12, 22, 32]);
}

#[test]
fn after_the_stop_flag_the_engine_is_not_called_again() {
    let mut decoder = Decoder::new();
    let mut runner = Runner::new();
    decoder.record_img(4, 1, &[128, 7, 128, 7]);
    runner.run_one_cycle(&mut decoder, false);
    assert_eq!(runner.engine_calls, 1);
    assert_eq!(runner.state, WorkerState::Idle);
    // the flag is set while the next frame is being decoded: that decode
    // completes and is published, then the worker stops
    decoder.record_img(4, 1, &[128, 8, 128, 8]);
    runner.run_one_cycle(&mut decoder, true);
    assert_eq!(runner.engine_calls, 2);
    assert_eq!(runner.state, WorkerState::Stopped);
    assert!(decoder.take_qrcodes().is_some());
    let calls_at_shutdown = runner.engine_calls;
    // frames keep coming, and the runner keeps asking
    for _ in 0..5 {
        decoder.record_img(4, 1, &[128, 9, 128, 9]);
        assert!(!runner.step(&mut decoder, true));
        let (state, action) = decode_qr(runner.state, WorkerEvent::Elapsed);
        assert_eq!(state, WorkerState::Stopped);
        assert!(matches!(action, WorkerAction::Exit));
    }
    assert_eq!(runner.engine_calls, calls_at_shutdown);
    assert!(decoder.take_qrcodes().is_none());
    assert!(decoder.take_sample().is_some());
}

#[test]
fn a_worker_stops_in_an_idle_cycle_too() {
    let mut decoder = Decoder::new();
    let mut runner = Runner::new();
    runner.run_one_cycle(&mut decoder, true);
    assert_eq!(runner.state, WorkerState::Stopped);
    assert_eq!(runner.engine_calls, 0);
    assert_eq!(runner.sleeps, 1);
}
