//! The control loop, as the decisions it takes.
//!
//! The loop itself runs outside: it polls the input source, sends datagrams
//! and drives the haptic hardware. After each of these it reports here what
//! came of it and is told what to do next. All state of the relay lives in
//! one `ControlLoop`, owned by whoever runs the loop.

use crate::angle::Angle;
use crate::axis::{angle_from_axis, lemma_mapped_angle_bounded, mapped_angle};
use crate::command::Command;
use crate::debounce::{DebounceModel, DebounceState};
use crate::feedback::{
    intensity_for, lemma_update_order, FeedbackAction, FeedbackController, FeedbackModel,
    GamepadInfo, Phase,
};
use vstd::prelude::*;

verus! {

/// The buttons that the relay tells apart.
#[derive(Clone, Copy, Debug, PartialEq, Eq, Structural)]
pub enum Button {
    /// Up on the directional pad.
    DPadUp,
    /// Down on the directional pad.
    DPadDown,
    /// Any other button.
    Other,
}

/// An event of the input source, as far as the relay reads it.
#[derive(Clone, Copy, Debug, PartialEq, Eq, Structural)]
pub enum InputEvent {
    /// A button went down.
    ButtonPressed(Button),
    /// A button is held and the source repeats it.
    ButtonRepeated(Button),
    /// A button came up.
    ButtonReleased(Button),
    /// Anything else: an axis moved, a gamepad came or went.
    Other,
}

impl InputEvent {
    /// Whether the event asks for a toggle: up or down on the directional
    /// pad went down. A release does not, nor does a repeat.
    pub open spec fn is_toggle_press(self) -> bool {
        self == InputEvent::ButtonPressed(Button::DPadUp) || self == InputEvent::ButtonPressed(
            Button::DPadDown,
        )
    }

    /// Whether the event asks for a toggle.
    pub fn toggles(&self) -> (toggle: bool)
        ensures
            toggle == self.is_toggle_press(),
    {
        match self {
            InputEvent::ButtonPressed(Button::DPadUp) => true,
            InputEvent::ButtonPressed(Button::DPadDown) => true,
            _ => false,
        }
    }
}

/// One event together with what was read when it was taken from the queue.
#[derive(Clone, Copy, Debug, PartialEq, Eq, Structural)]
pub struct Sample {
    /// The event.
    pub event: InputEvent,
    /// The trigger axis of the gamepad that the event came from, as the bit
    /// pattern of a single-precision number.
    pub axis_bits: u32,
    /// The monotonic clock, in nanoseconds.
    pub now: u64,
}

/// Why the loop must end.
#[derive(Clone, Copy, Debug, PartialEq, Eq, Structural)]
pub enum FatalError {
    /// A toggle could not be sent.
    ToggleNotSent,
}

/// What the loop has to do next.
#[derive(Clone, Copy, Debug, PartialEq, Eq, Structural)]
pub enum LoopAction {
    /// Send the command as one datagram, then report with `on_sent`.
    Send(Command),
    /// List the attached gamepads, then report with `begin_haptics`.
    UpdateHaptics(Angle),
    /// Perform the action on the haptic side, then report with `on_haptic`.
    Haptic(FeedbackAction),
    /// Take the next event from the queue and report with `on_poll`.
    NextEvent,
    /// The queue is empty: let the input source advance its clock, then take
    /// the next event.
    AdvanceSource,
    /// End the loop with this error.
    Halt(FatalError),
}

/// The loop's state as a mathematical value.
pub ghost struct ControlModel {
    /// What was transmitted last, and when.
    pub debounce: DebounceModel,
    /// The haptic effect and the update in flight.
    pub feedback: FeedbackModel,
    /// The command handed out for sending and not reported on yet.
    pub in_flight: Option<Command>,
}

impl ControlModel {
    /// The loop as it starts at `now`.
    pub open spec fn initial(now: u64) -> ControlModel {
        ControlModel {
            debounce: DebounceModel::initial(now),
            feedback: FeedbackModel::initial(),
            in_flight: None,
        }
    }

    /// What follows a poll of the event queue.
    ///
    /// An empty queue lets the source advance. A toggle press sends a toggle
    /// and nothing else. Any other event derives the angle from the axis and
    /// sends it if it is worth sending.
    pub open spec fn poll(self, polled: Option<Sample>) -> (ControlModel, LoopAction) {
        match polled {
            None => (self, LoopAction::AdvanceSource),
            Some(sample) => if sample.event.is_toggle_press() {
                (
                    ControlModel { in_flight: Some(Command::Toggle), ..self },
                    LoopAction::Send(Command::Toggle),
                )
            } else {
                let degrees = mapped_angle(sample.axis_bits);
                if self.debounce.send_worthy(degrees, sample.now) {
                    let command = Command::SetAngle(Angle::of(degrees));
                    (
                        ControlModel {
                            debounce: self.debounce.observe(degrees, sample.now),
                            in_flight: Some(command),
                            ..self
                        },
                        LoopAction::Send(command),
                    )
                } else {
                    (self, LoopAction::NextEvent)
                }
            },
        }
    }

    /// What follows an attempt to send.
    ///
    /// A toggle that was not delivered ends the loop. An angle that was
    /// delivered is followed by the haptic update; one that was not is given
    /// up, and the loop goes on.
    pub open spec fn sent(self, delivered: bool) -> (ControlModel, LoopAction) {
        let next = ControlModel { in_flight: None, ..self };
        match self.in_flight {
            None => (next, LoopAction::NextEvent),
            Some(Command::Toggle) => if delivered {
                (next, LoopAction::NextEvent)
            } else {
                (next, LoopAction::Halt(FatalError::ToggleNotSent))
            },
            Some(Command::SetAngle(angle)) => if delivered {
                (next, LoopAction::UpdateHaptics(angle))
            } else {
                (next, LoopAction::NextEvent)
            },
        }
    }

    /// What follows the listing of the gamepads for a haptic update.
    pub open spec fn haptics_begun(self, degrees: int, pads: Seq<GamepadInfo>) -> (
        ControlModel,
        LoopAction,
    ) {
        let (feedback, action) = self.feedback.begin(degrees, pads);
        (ControlModel { feedback, ..self }, LoopAction::Haptic(action))
    }

    /// What follows an action on the haptic side. While the update goes on,
    /// its next step; once it is over, however it ended, the next event.
    pub open spec fn haptic_done(self, ok: bool) -> (ControlModel, LoopAction) {
        let (feedback, action) = self.feedback.resolve(ok);
        (
            ControlModel { feedback, ..self },
            match action {
                Some(step) => LoopAction::Haptic(step),
                None => LoopAction::NextEvent,
            },
        )
    }
}

/// Everything the relay remembers from one iteration to the next.
pub struct ControlLoop {
    debounce: DebounceState,
    feedback: FeedbackController,
    in_flight: Option<Command>,
}

impl View for ControlLoop {
    type V = ControlModel;

    closed spec fn view(&self) -> ControlModel {
        ControlModel {
            debounce: self.debounce@,
            feedback: self.feedback@,
            in_flight: self.in_flight,
        }
    }
}

impl ControlLoop {
    /// The state of a loop that starts at `now`: nothing was transmitted and
    /// no effect is owned.
    pub fn new(now: u64) -> (control: ControlLoop)
        ensures
            control@ == ControlModel::initial(now),
    {
        ControlLoop {
            debounce: DebounceState::new(now),
            feedback: FeedbackController::new(),
            in_flight: None,
        }
    }

    /// The debouncer.
    pub fn debounce(&self) -> (debounce: &DebounceState)
        ensures
            debounce@ == self@.debounce,
    {
        &self.debounce
    }

    /// The force-feedback controller.
    pub fn feedback(&self) -> (feedback: &FeedbackController)
        ensures
            feedback@ == self@.feedback,
    {
        &self.feedback
    }

    /// Takes in what the poll of the event queue gave, `None` for an empty
    /// queue, and says what to do next.
    pub fn on_poll(&mut self, polled: Option<Sample>) -> (action: LoopAction)
        ensures
            (final(self)@, action) == old(self)@.poll(polled),
    {
        match polled {
            None => LoopAction::AdvanceSource,
            Some(sample) => {
                if sample.event.toggles() {
                    self.in_flight = Some(Command::Toggle);
                    LoopAction::Send(Command::Toggle)
                } else {
                    let angle = angle_from_axis(sample.axis_bits);
                    proof {
                        Angle::lemma_view_injective(angle, angle);
                    }
                    if self.debounce.observe(angle, sample.now) {
                        let command = Command::SetAngle(angle);
                        self.in_flight = Some(command);
                        LoopAction::Send(command)
                    } else {
                        LoopAction::NextEvent
                    }
                }
            },
        }
    }

    /// Takes in whether the command handed out last was delivered and says
    /// what to do next.
    pub fn on_sent(&mut self, delivered: bool) -> (action: LoopAction)
        ensures
            (final(self)@, action) == old(self)@.sent(delivered),
    {
        let command = self.in_flight;
        self.in_flight = None;
        match command {
            None => LoopAction::NextEvent,
            Some(Command::Toggle) => {
                if delivered {
                    LoopAction::NextEvent
                } else {
                    LoopAction::Halt(FatalError::ToggleNotSent)
                }
            },
            Some(Command::SetAngle(angle)) => {
                if delivered {
                    LoopAction::UpdateHaptics(angle)
                } else {
                    LoopAction::NextEvent
                }
            },
        }
    }

    /// Starts the haptic update for `angle` with the gamepads attached now
    /// and says what to do first.
    pub fn begin_haptics(&mut self, angle: Angle, pads: &Vec<GamepadInfo>) -> (action: LoopAction)
        ensures
            (final(self)@, action) == old(self)@.haptics_begun(angle@, pads@),
    {
        LoopAction::Haptic(self.feedback.start_update(angle, pads))
    }

    /// Takes in whether the haptic action asked for last went well and says
    /// what to do next. A failed update does not end the loop.
    pub fn on_haptic(&mut self, ok: bool) -> (action: LoopAction)
        ensures
            (final(self)@, action) == old(self)@.haptic_done(ok),
    {
        match self.feedback.on_result(ok) {
            Some(step) => LoopAction::Haptic(step),
            None => LoopAction::NextEvent,
        }
    }
}

/// One turn of the loop: an event, and the gamepads attached while it is
/// handled.
pub ghost struct Round {
    /// The event and what was read with it.
    pub sample: Sample,
    /// The gamepads attached during the turn.
    pub pads: Seq<GamepadInfo>,
}

/// How many of `commands` are toggles.
pub open spec fn toggles_among(commands: Seq<Command>) -> nat
    decreases commands.len(),
{
    if commands.len() == 0 {
        0
    } else {
        toggles_among(commands.drop_last()) + if commands.last() is Toggle {
            1nat
        } else {
            0nat
        }
    }
}

/// How many of `rounds` bring a toggle press.
pub open spec fn toggle_presses_among(rounds: Seq<Round>) -> nat
    decreases rounds.len(),
{
    if rounds.len() == 0 {
        0
    } else {
        toggle_presses_among(rounds.drop_last()) + if rounds.last().sample.event.is_toggle_press() {
            1nat
        } else {
            0nat
        }
    }
}

impl ControlModel {
    /// What one event puts on the wire: one command, or nothing.
    pub open spec fn emitted(self, sample: Sample) -> Seq<Command> {
        match self.poll(Some(sample)).1 {
            LoopAction::Send(command) => seq![command],
            _ => Seq::empty(),
        }
    }

    /// The loop after one turn in which every datagram was delivered and
    /// every haptic step went well.
    pub open spec fn turn(self, round: Round) -> ControlModel {
        let (polled, action) = self.poll(Some(round.sample));
        if action is Send {
            let (reported, follow) = polled.sent(true);
            match follow {
                LoopAction::UpdateHaptics(angle) => ControlModel {
                    feedback: reported.feedback.updated(angle@, round.pads),
                    ..reported
                },
                _ => reported,
            }
        } else {
            polled
        }
    }

    /// The loop after such a turn for each of `rounds`, in order.
    pub open spec fn after_turns(self, rounds: Seq<Round>) -> ControlModel
        decreases rounds.len(),
    {
        if rounds.len() == 0 {
            self
        } else {
            self.after_turns(rounds.drop_last()).turn(rounds.last())
        }
    }

    /// Everything that those turns put on the wire, in order.
    pub open spec fn transmitted(self, rounds: Seq<Round>) -> Seq<Command>
        decreases rounds.len(),
    {
        if rounds.len() == 0 {
            Seq::empty()
        } else {
            self.transmitted(rounds.drop_last()) + self.after_turns(rounds.drop_last()).emitted(
                rounds.last().sample,
            )
        }
    }

    /// Whether the effect that plays is the one for the angle transmitted
    /// last: none before the first angle, exactly one after it.
    pub open spec fn effect_in_step(self) -> bool {
        match self.debounce.last_angle {
            Some(degrees) => self.feedback.active() == seq![intensity_for(degrees) as u16],
            None => self.feedback.active() == Seq::<u16>::empty(),
        }
    }
}

/// An event sends a toggle exactly when it is a press of up or down on the
/// directional pad. A button that is held, repeated or released sends none.
pub proof fn lemma_toggle_on_press_only(state: ControlModel, sample: Sample)
    ensures
        state.poll(Some(sample)).1 == LoopAction::Send(Command::Toggle)
            <==> sample.event.is_toggle_press(),
        sample.event matches InputEvent::ButtonRepeated(_) ==> !sample.event.is_toggle_press(),
        sample.event matches InputEvent::ButtonReleased(_) ==> !sample.event.is_toggle_press(),
        state.poll(None).1 == LoopAction::AdvanceSource,
        state.poll(None).0 == state,
{
}

/// A toggle press puts the toggle on the wire and no angle: the debouncer
/// and the haptic side stay as they were, and once the toggle is delivered
/// the loop goes on to the next event.
pub proof fn lemma_toggle_press_sends_no_angle(state: ControlModel, sample: Sample)
    requires
        sample.event.is_toggle_press(),
    ensures
        state.emitted(sample) == seq![Command::Toggle],
        state.poll(Some(sample)).0.debounce == state.debounce,
        state.poll(Some(sample)).0.feedback == state.feedback,
        state.poll(Some(sample)).0.sent(true).1 == LoopAction::NextEvent,
        state.poll(Some(sample)).0.sent(true).0 == (ControlModel { in_flight: None, ..state }),
{
}

/// Over any run of turns, as many toggles go out as there were toggle
/// presses: one for each press, none without one.
pub proof fn lemma_one_toggle_per_press(start: ControlModel, rounds: Seq<Round>)
    ensures
        toggles_among(start.transmitted(rounds)) == toggle_presses_among(rounds),
    decreases rounds.len(),
{
    if rounds.len() > 0 {
        let earlier = rounds.drop_last();
        lemma_one_toggle_per_press(start, earlier);
        let sent_before = start.transmitted(earlier);
        let now = start.after_turns(earlier).emitted(rounds.last().sample);
        if now.len() == 0 {
            assert(sent_before + now =~= sent_before);
        } else {
            assert(now =~= seq![now[0]]);
            assert((sent_before + now).drop_last() =~= sent_before);
            assert((sent_before + now).last() == now[0]);
        }
    }
}

/// A toggle that cannot be sent ends the loop. An angle that cannot be sent
/// does not: the loop goes on to the next event, and the haptic side is left
/// alone. A haptic step that fails does not end the loop either.
pub proof fn lemma_failure_policy(state: ControlModel)
    ensures
        state.in_flight == Some(Command::Toggle) ==> state.sent(false).1 == LoopAction::Halt(
            FatalError::ToggleNotSent,
        ),
        state.in_flight matches Some(Command::SetAngle(_)) ==> state.sent(false).1
            == LoopAction::NextEvent,
        state.sent(false).0.feedback == state.feedback,
        state.sent(false).0.debounce == state.debounce,
        !(state.haptic_done(false).1 is Halt),
        state.feedback.phase != Phase::Idle ==> (state.haptic_done(false).1 matches LoopAction::Haptic(
            FeedbackAction::Abort(_),
        )) && state.haptic_done(false).0.haptic_done(true).1 == LoopAction::NextEvent,
{
}

/// An angle that is delivered is followed by the haptic update for that
/// same angle.
pub proof fn lemma_delivered_angle_updates_haptics(state: ControlModel, sample: Sample)
    requires
        !sample.event.is_toggle_press(),
        state.debounce.send_worthy(mapped_angle(sample.axis_bits), sample.now),
    ensures
        ({
            let angle = Angle::of(mapped_angle(sample.axis_bits));
            let (polled, action) = state.poll(Some(sample));
            &&& angle@ == mapped_angle(sample.axis_bits)
            &&& action == LoopAction::Send(Command::SetAngle(angle))
            &&& polled.debounce.last_angle == Some(angle@)
            &&& polled.debounce.last_update == sample.now
            &&& polled.sent(true).1 == LoopAction::UpdateHaptics(angle)
        }),
{
    lemma_mapped_angle_bounded(sample.axis_bits);
    Angle::lemma_of(mapped_angle(sample.axis_bits));
}

/// The effect stays in step with the wire: if the effect that plays is the
/// one for the angle transmitted last, it still is after a turn.
pub proof fn lemma_turn_keeps_effect_in_step(state: ControlModel, round: Round)
    requires
        state.effect_in_step(),
    ensures
        state.turn(round).effect_in_step(),
{
    let degrees = mapped_angle(round.sample.axis_bits);
    lemma_mapped_angle_bounded(round.sample.axis_bits);
    Angle::lemma_of(degrees);
    if !round.sample.event.is_toggle_press() && state.debounce.send_worthy(
        degrees,
        round.sample.now,
    ) {
        lemma_update_order(state.feedback, degrees, round.pads);
    }
}

/// From the start of the loop on, after any number of turns, at most one
/// effect plays, and it is the one for the angle transmitted last.
pub proof fn lemma_effect_in_step_throughout(now: u64, rounds: Seq<Round>)
    ensures
        ControlModel::initial(now).after_turns(rounds).effect_in_step(),
        ControlModel::initial(now).after_turns(rounds).feedback.active().len() <= 1,
    decreases rounds.len(),
{
    if rounds.len() > 0 {
        lemma_effect_in_step_throughout(now, rounds.drop_last());
        lemma_turn_keeps_effect_in_step(
            ControlModel::initial(now).after_turns(rounds.drop_last()),
            rounds.last(),
        );
    }
}

} // verus!
