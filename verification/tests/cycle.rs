use ambient_color::cycle::{
    after_actuation, after_capture, command_for, start, CaptureOutcome, Command, Failure, Stage,
    RETRY_DELAY_MS, STARTUP_DELAY_MS,
};
use ambient_color::frame::Rgb;

fn ready(width: u32, height: u32, data: Vec<u8>) -> CaptureOutcome {
    CaptureOutcome::Ready { width, height, data }
}

#[test]
fn loop_starts_with_a_delayed_capture() {
    assert_eq!(STARTUP_DELAY_MS, 100);
    assert_eq!(start(), Stage::AcquireFrame { delay_ms: 100 });
}

#[test]
fn source_not_ready_is_asked_again_after_the_retry_delay() {
    assert_eq!(RETRY_DELAY_MS, 50);
    assert_eq!(after_capture(CaptureOutcome::NotReady), Stage::AcquireFrame { delay_ms: 50 });
}

#[test]
fn capture_failure_stops_the_loop() {
    assert_eq!(after_capture(CaptureOutcome::Failed), Stage::Halted(Failure::Capture));
}

#[test]
fn malformed_buffer_stops_the_loop() {
    assert_eq!(after_capture(ready(2, 2, vec![0; 11])), Stage::Halted(Failure::MalformedFrame));
    assert_eq!(after_capture(ready(2, 2, vec![0; 16])), Stage::Halted(Failure::MalformedFrame));
    assert_eq!(after_capture(ready(0, 0, vec![1])), Stage::Halted(Failure::MalformedFrame));
}

#[test]
fn frame_leads_to_its_command() {
    let mut data = Vec::new();
    for _ in 0..6 {
        data.extend([200, 100, 50]);
    }
    assert_eq!(
        after_capture(ready(3, 2, data)),
        Stage::Actuate {
            color: Rgb { r: 192, g: 96, b: 48 },
            command: Command { hue: 20, saturation: 75, brightness: 75 },
        }
    );
}

#[test]
fn empty_frame_leads_to_the_command_for_black() {
    assert_eq!(
        after_capture(ready(0, 0, vec![])),
        Stage::Actuate {
            color: Rgb { r: 0, g: 0, b: 0 },
            command: Command { hue: 0, saturation: 1, brightness: 1 },
        }
    );
}

#[test]
fn applied_command_leads_to_the_next_capture_at_once() {
    assert_eq!(after_actuation(true), Stage::AcquireFrame { delay_ms: 0 });
}

#[test]
fn refused_command_stops_the_loop() {
    assert_eq!(after_actuation(false), Stage::Halted(Failure::Actuator));
}

#[test]
fn command_for_known_colours() {
    assert_eq!(
        command_for(Rgb { r: 0, g: 0, b: 0 }),
        Command { hue: 0, saturation: 1, brightness: 1 }
    );
    assert_eq!(
        command_for(Rgb { r: 255, g: 255, b: 255 }),
        Command { hue: 0, saturation: 1, brightness: 100 }
    );
    assert_eq!(
        command_for(Rgb { r: 0, g: 0, b: 255 }),
        Command { hue: 240, saturation: 100, brightness: 100 }
    );
    assert_eq!(
        command_for(Rgb { r: 240, g: 0, b: 0 }),
        Command { hue: 0, saturation: 100, brightness: 94 }
    );
}

#[test]
fn scripted_run_of_the_loop() {
    let mut outcomes = vec![
        CaptureOutcome::NotReady,
        CaptureOutcome::NotReady,
        ready(1, 1, vec![0, 255, 0]),
        ready(1, 1, vec![0, 0, 255]),
        CaptureOutcome::Failed,
    ]
    .into_iter();
    let mut trace = Vec::new();
    let mut stage = start();
    loop {
        trace.push(stage);
        stage = match stage {
            Stage::AcquireFrame { .. } => after_capture(outcomes.next().unwrap()),
            Stage::Actuate { .. } => after_actuation(true),
            Stage::Halted(_) => break,
        };
    }
    let green = Stage::Actuate {
        color: Rgb { r: 0, g: 240, b: 0 },
        command: Command { hue: 120, saturation: 100, brightness: 94 },
    };
    let blue = Stage::Actuate {
        color: Rgb { r: 0, g: 0, b: 240 },
        command: Command { hue: 240, saturation: 100, brightness: 94 },
    };
    assert_eq!(
        trace,
        vec![
            Stage::AcquireFrame { delay_ms: 100 },
            Stage::AcquireFrame { delay_ms: 50 },
            Stage::AcquireFrame { delay_ms: 50 },
            green,
            Stage::AcquireFrame { delay_ms: 0 },
            blue,
            Stage::AcquireFrame { delay_ms: 0 },
            Stage::Halted(Failure::Capture),
        ]
    );
}
