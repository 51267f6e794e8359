use gamepad_relay::angle::Angle;
use gamepad_relay::command::Command;
use gamepad_relay::control::{Button, ControlLoop, FatalError, InputEvent, LoopAction, Sample};
use gamepad_relay::feedback::{FeedbackAction, FeedbackError, GamepadInfo, OwnedEffect};

const MS: u64 = 1_000_000;

fn angle(degrees: i32) -> Angle {
    Angle::new(degrees).unwrap()
}

fn sample(event: InputEvent, axis: f32, now: u64) -> Option<Sample> {
    Some(Sample { event, axis_bits: axis.to_bits(), now })
}

fn pads() -> Vec<GamepadInfo> {
    vec![GamepadInfo { id: 0, ff_supported: true }]
}

/// Carries one sent angle through a haptic update in which all goes well.
fn finish_angle(control: &mut ControlLoop, degrees: i32) {
    assert_eq!(control.on_sent(true), LoopAction::UpdateHaptics(angle(degrees)));
    let mut action = control.begin_haptics(angle(degrees), &pads());
    while action != LoopAction::NextEvent {
        assert!(matches!(action, LoopAction::Haptic(_)));
        action = control.on_haptic(true);
    }
}

#[test]
fn toggles_only_on_a_press_of_up_or_down() {
    assert!(InputEvent::ButtonPressed(Button::DPadUp).toggles());
    assert!(InputEvent::ButtonPressed(Button::DPadDown).toggles());
    assert!(!InputEvent::ButtonPressed(Button::Other).toggles());
    assert!(!InputEvent::ButtonRepeated(Button::DPadUp).toggles());
    assert!(!InputEvent::ButtonRepeated(Button::DPadDown).toggles());
    assert!(!InputEvent::ButtonReleased(Button::DPadUp).toggles());
    assert!(!InputEvent::ButtonReleased(Button::DPadDown).toggles());
    assert!(!InputEvent::Other.toggles());
}

#[test]
fn empty_queue_advances_the_source() {
    let mut control = ControlLoop::new(0);
    assert_eq!(control.on_poll(None), LoopAction::AdvanceSource);
    assert_eq!(control.on_poll(None), LoopAction::AdvanceSource);
    assert_eq!(control.debounce().last_angle(), None);
}

#[test]
fn half_deflection_goes_out_as_ninety_with_half_strength() {
    let mut control = ControlLoop::new(0);
    let action = control.on_poll(sample(InputEvent::Other, 0.5, MS));
    assert_eq!(action, LoopAction::Send(Command::SetAngle(angle(90))));
    match action {
        LoopAction::Send(command) => assert_eq!(command.encode(), "90".as_bytes().to_vec()),
        _ => unreachable!(),
    }
    assert_eq!(control.on_sent(true), LoopAction::UpdateHaptics(angle(90)));
    assert_eq!(
        control.begin_haptics(angle(90), &pads()),
        LoopAction::Haptic(FeedbackAction::Build { magnitude: 16384, play_for_ms: 100 })
    );
    assert_eq!(control.feedback().targets(), &vec![0]);
    assert_eq!(control.on_haptic(true), LoopAction::Haptic(FeedbackAction::Play));
    assert_eq!(control.on_haptic(true), LoopAction::Haptic(FeedbackAction::Adopt));
    assert_eq!(control.on_haptic(true), LoopAction::NextEvent);
    assert_eq!(
        control.feedback().owned(),
        Some(OwnedEffect { magnitude: 16384, playing: true })
    );
}

#[test]
fn rest_position_goes_out_as_zero_with_no_strength() {
    let mut control = ControlLoop::new(0);
    let action = control.on_poll(sample(InputEvent::Other, 0.0, MS));
    assert_eq!(action, LoopAction::Send(Command::SetAngle(angle(0))));
    match action {
        LoopAction::Send(command) => assert_eq!(command.encode(), "0".as_bytes().to_vec()),
        _ => unreachable!(),
    }
    assert_eq!(control.on_sent(true), LoopAction::UpdateHaptics(angle(0)));
    assert_eq!(
        control.begin_haptics(angle(0), &pads()),
        LoopAction::Haptic(FeedbackAction::Build { magnitude: 0, play_for_ms: 100 })
    );
    assert_eq!(control.on_haptic(true), LoopAction::Haptic(FeedbackAction::Play));
    assert_eq!(control.on_haptic(true), LoopAction::Haptic(FeedbackAction::Adopt));
    assert_eq!(control.feedback().owned(), Some(OwnedEffect { magnitude: 0, playing: true }));
}

#[test]
fn dpad_up_press_sends_toggle_and_no_angle() {
    let mut control = ControlLoop::new(0);
    let action = control.on_poll(sample(InputEvent::ButtonPressed(Button::DPadUp), 0.5, MS));
    assert_eq!(action, LoopAction::Send(Command::Toggle));
    match action {
        LoopAction::Send(command) => assert_eq!(command.encode(), "TOGGLE".as_bytes().to_vec()),
        _ => unreachable!(),
    }
    assert_eq!(control.on_sent(true), LoopAction::NextEvent);
    assert_eq!(control.debounce().last_angle(), None);
    assert_eq!(control.debounce().last_update(), 0);
    assert_eq!(control.feedback().owned(), None);
    assert!(control.feedback().is_idle());
}

#[test]
fn dpad_down_press_sends_toggle_too() {
    let mut control = ControlLoop::new(0);
    let action = control.on_poll(sample(InputEvent::ButtonPressed(Button::DPadDown), 0.0, MS));
    assert_eq!(action, LoopAction::Send(Command::Toggle));
    assert_eq!(control.on_sent(true), LoopAction::NextEvent);
}

#[test]
fn held_and_released_buttons_send_no_toggle() {
    let mut control = ControlLoop::new(0);
    assert_eq!(
        control.on_poll(sample(InputEvent::ButtonPressed(Button::DPadUp), 0.0, 0)),
        LoopAction::Send(Command::Toggle)
    );
    assert_eq!(control.on_sent(true), LoopAction::NextEvent);
    // The first event after the press carries the angle; after that the
    // held button brings nothing within the interval.
    assert_eq!(
        control.on_poll(sample(InputEvent::ButtonRepeated(Button::DPadUp), 0.0, 1)),
        LoopAction::Send(Command::SetAngle(angle(0)))
    );
    finish_angle(&mut control, 0);
    for now in 2..10 {
        assert_eq!(
            control.on_poll(sample(InputEvent::ButtonRepeated(Button::DPadUp), 0.0, now)),
            LoopAction::NextEvent
        );
    }
    assert_eq!(
        control.on_poll(sample(InputEvent::ButtonReleased(Button::DPadUp), 0.0, 10)),
        LoopAction::NextEvent
    );
}

#[test]
fn each_press_sends_one_toggle() {
    let mut control = ControlLoop::new(0);
    let mut toggles = 0;
    let events = [
        InputEvent::ButtonPressed(Button::DPadUp),
        InputEvent::ButtonRepeated(Button::DPadUp),
        InputEvent::ButtonReleased(Button::DPadUp),
        InputEvent::ButtonPressed(Button::DPadDown),
        InputEvent::Other,
        InputEvent::ButtonPressed(Button::Other),
        InputEvent::ButtonReleased(Button::DPadDown),
        InputEvent::ButtonPressed(Button::DPadUp),
    ];
    for (i, event) in events.iter().enumerate() {
        match control.on_poll(sample(*event, 0.3, i as u64)) {
            LoopAction::Send(Command::Toggle) => {
                toggles += 1;
                control.on_sent(true);
            }
            LoopAction::Send(Command::SetAngle(a)) => finish_angle(&mut control, a.degrees()),
            other => assert_eq!(other, LoopAction::NextEvent),
        }
    }
    assert_eq!(toggles, 3);
}

#[test]
fn failed_toggle_ends_the_loop() {
    let mut control = ControlLoop::new(0);
    control.on_poll(sample(InputEvent::ButtonPressed(Button::DPadUp), 0.0, 0));
    assert_eq!(control.on_sent(false), LoopAction::Halt(FatalError::ToggleNotSent));
}

#[test]
fn failed_angle_does_not_end_the_loop() {
    let mut control = ControlLoop::new(0);
    assert_eq!(
        control.on_poll(sample(InputEvent::Other, 0.5, 0)),
        LoopAction::Send(Command::SetAngle(angle(90)))
    );
    assert_eq!(control.on_sent(false), LoopAction::NextEvent);
    assert_eq!(control.feedback().owned(), None);
    assert!(control.feedback().is_idle());
    // The loop goes on: the next change is sent as usual.
    assert_eq!(
        control.on_poll(sample(InputEvent::Other, 0.25, 1)),
        LoopAction::Send(Command::SetAngle(angle(45)))
    );
    finish_angle(&mut control, 45);
}

#[test]
fn failed_haptic_step_does_not_end_the_loop() {
    let mut control = ControlLoop::new(0);
    control.on_poll(sample(InputEvent::Other, 0.5, 0));
    assert_eq!(control.on_sent(true), LoopAction::UpdateHaptics(angle(90)));
    control.begin_haptics(angle(90), &pads());
    assert_eq!(
        control.on_haptic(false),
        LoopAction::Haptic(FeedbackAction::Abort(FeedbackError::BuildFailed))
    );
    assert_eq!(control.on_haptic(true), LoopAction::NextEvent);
    assert_eq!(control.feedback().owned(), None);
    assert_eq!(
        control.on_poll(sample(InputEvent::Other, 1.0, 1)),
        LoopAction::Send(Command::SetAngle(angle(180)))
    );
    finish_angle(&mut control, 180);
    assert_eq!(
        control.feedback().owned(),
        Some(OwnedEffect { magnitude: 32767, playing: true })
    );
}

#[test]
fn same_reading_within_the_interval_is_sent_once() {
    let mut control = ControlLoop::new(0);
    assert_eq!(
        control.on_poll(sample(InputEvent::Other, 0.5, 0)),
        LoopAction::Send(Command::SetAngle(angle(90)))
    );
    finish_angle(&mut control, 90);
    assert_eq!(control.on_poll(sample(InputEvent::Other, 0.5, 15 * MS)), LoopAction::NextEvent);
    assert_eq!(control.on_poll(sample(InputEvent::Other, 0.5, 16 * MS - 1)), LoopAction::NextEvent);
}

#[test]
fn held_reading_is_refreshed_after_the_interval() {
    let mut control = ControlLoop::new(0);
    control.on_poll(sample(InputEvent::Other, 0.5, 0));
    finish_angle(&mut control, 90);
    assert_eq!(
        control.on_poll(sample(InputEvent::Other, 0.5, 16 * MS)),
        LoopAction::Send(Command::SetAngle(angle(90)))
    );
    finish_angle(&mut control, 90);
    assert_eq!(
        control.feedback().owned(),
        Some(OwnedEffect { magnitude: 16384, playing: true })
    );
}

#[test]
fn report_without_a_command_in_flight_changes_nothing() {
    let mut control = ControlLoop::new(0);
    assert_eq!(control.on_sent(false), LoopAction::NextEvent);
    assert_eq!(control.on_sent(true), LoopAction::NextEvent);
    assert_eq!(control.on_haptic(false), LoopAction::NextEvent);
    control.on_poll(sample(InputEvent::ButtonPressed(Button::DPadUp), 0.0, 0));
    assert_eq!(control.on_sent(true), LoopAction::NextEvent);
    assert_eq!(control.on_sent(false), LoopAction::NextEvent);
}

#[test]
fn effect_follows_the_latest_transmitted_angle() {
    let mut control = ControlLoop::new(0);
    let readings = [0.1f32, 0.9, 0.9, 0.3, 0.0, 1.0, 0.5];
    for (i, reading) in readings.iter().enumerate() {
        match control.on_poll(sample(InputEvent::Other, *reading, i as u64)) {
            LoopAction::Send(Command::SetAngle(a)) => finish_angle(&mut control, a.degrees()),
            other => assert_eq!(other, LoopAction::NextEvent),
        }
    }
    assert_eq!(control.debounce().last_angle(), Some(angle(90)));
    assert_eq!(
        control.feedback().owned(),
        Some(OwnedEffect { magnitude: 16384, playing: true })
    );
}
