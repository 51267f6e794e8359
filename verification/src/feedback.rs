//! Force feedback: one haptic effect at a time, as strong as the latest angle.
//!
//! The controller never touches a device. It is told what happened and answers
//! with what has to be done next: stop the effect it owns, build a new one,
//! play it, and only then take it over.

use crate::angle::Angle;
use vstd::prelude::*;

verus! {

/// How long every effect plays, in milliseconds.
pub const EFFECT_DURATION_MS: u32 = 100;

/// The magnitude that full deflection is mapped to.
pub const FULL_MAGNITUDE: u16 = 32767;

/// The magnitude for an angle of `degrees`: `degrees / 180 * 32767`, rounded
/// to the nearest whole number, a half rounding up. Written over the common
/// denominator 360, that is `(2 * 32767 * degrees + 180) / 360`.
pub open spec fn intensity_for(degrees: int) -> int {
    (65534 * degrees + 180) / 360
}

/// The strong-motor magnitude that stands for `angle`.
pub fn intensity(angle: Angle) -> (magnitude: u16)
    ensures
        magnitude == intensity_for(angle@),
        magnitude <= FULL_MAGNITUDE,
{
    let degrees: u32 = angle.degrees() as u32;
    ((65534 * degrees + 180) / 360) as u16
}

/// The magnitude is the whole number nearest to `degrees * 32767 / 180`: it
/// lies no more than a half above that quotient and less than a half below it.
/// Neutral gives none, full deflection gives all of it.
pub proof fn lemma_intensity_nearest(degrees: int)
    requires
        0 <= degrees <= 180,
    ensures
        0 <= intensity_for(degrees) <= 32767,
        360 * intensity_for(degrees) <= 65534 * degrees + 180,
        65534 * degrees + 180 < 360 * intensity_for(degrees) + 360,
        intensity_for(0) == 0,
        intensity_for(180) == 32767,
{
}

/// A larger angle never gives a weaker effect.
pub proof fn lemma_intensity_monotone(lower: int, upper: int)
    requires
        0 <= lower <= upper <= 180,
    ensures
        intensity_for(lower) <= intensity_for(upper),
{
}

/// Distinct angles give distinct magnitudes, so the magnitude of the effect
/// that plays tells which angle it stands for.
pub proof fn lemma_intensity_injective(a: int, b: int)
    requires
        0 <= a <= 180,
        0 <= b <= 180,
        intensity_for(a) == intensity_for(b),
    ensures
        a == b,
{
}

/// What the controller reads of one attached gamepad.
#[derive(Clone, Copy, Debug, PartialEq, Eq, Structural)]
pub struct GamepadInfo {
    /// The number by which the input source knows the gamepad.
    pub id: usize,
    /// Whether the gamepad can play haptic effects.
    pub ff_supported: bool,
}

/// The id of a gamepad that can play effects, nothing for one that cannot.
pub open spec fn haptic_id(pad: GamepadInfo) -> Option<usize> {
    if pad.ff_supported {
        Some(pad.id)
    } else {
        None
    }
}

/// The ids of the gamepads that can play effects, in the order of `pads`.
pub open spec fn haptic_ids(pads: Seq<GamepadInfo>) -> Seq<usize> {
    pads.filter_map(|pad: GamepadInfo| haptic_id(pad))
}

/// Picks the gamepads that a new effect is bound to: those that support
/// force feedback, in the order in which they were listed.
pub fn select_haptic_targets(pads: &Vec<GamepadInfo>) -> (targets: Vec<usize>)
    ensures
        targets@ == haptic_ids(pads@),
{
    let mut targets: Vec<usize> = Vec::new();
    let mut i: usize = 0;
    while i < pads.len()
        invariant
            i <= pads.len(),
            targets@ == haptic_ids(pads@.take(i as int)),
        decreases pads.len() - i,
    {
        proof {
            pads@.lemma_filter_map_take_succ(|pad: GamepadInfo| haptic_id(pad), i as int);
        }
        if pads[i].ff_supported {
            targets.push(pads[i].id);
        }
        i += 1;
    }
    proof {
        assert(pads@.take(pads.len() as int) == pads@);
    }
    targets
}

/// The step of an update that failed.
#[derive(Clone, Copy, Debug, PartialEq, Eq, Structural)]
pub enum FeedbackError {
    /// The effect that was owned could not be stopped.
    StopFailed,
    /// The new effect could not be built.
    BuildFailed,
    /// The new effect was built but could not be played.
    PlayFailed,
}

/// What the caller has to do next for the controller.
#[derive(Clone, Copy, Debug, PartialEq, Eq, Structural)]
pub enum FeedbackAction {
    /// Stop the effect that the controller owns.
    Stop,
    /// Build an effect that drives the strong motor with `magnitude` for
    /// `play_for_ms` milliseconds, with the default envelope, on the gamepads
    /// that `FeedbackController::targets` lists. An empty list is no error.
    Build { magnitude: u16, play_for_ms: u32 },
    /// Play the effect that was just built.
    Play,
    /// The update is done: the effect just played is the one owned from now
    /// on, and the one owned before is released.
    Adopt,
    /// The update has failed: whatever it built is discarded, and what was
    /// owned before stays owned.
    Abort(FeedbackError),
}

/// Where an update stands.
#[derive(Clone, Copy, Debug, PartialEq, Eq, Structural)]
pub enum Phase {
    /// No update is in flight.
    Idle,
    /// Waiting to hear whether the owned effect stopped.
    Stopping,
    /// Waiting to hear whether the new effect was built.
    Building,
    /// Waiting to hear whether the new effect plays.
    Starting,
}

/// What the controller knows of the effect it owns.
#[derive(Clone, Copy, Debug, PartialEq, Eq, Structural)]
pub struct OwnedEffect {
    /// The magnitude the effect was built with.
    pub magnitude: u16,
    /// Whether it was played and has not been stopped since.
    pub playing: bool,
}

/// The controller as a mathematical value.
pub ghost struct FeedbackModel {
    /// The effect that is owned, if any: never more than one.
    pub owned: Option<OwnedEffect>,
    /// Where the update in flight stands.
    pub phase: Phase,
    /// The magnitude of the effect that the update in flight prepares.
    pub magnitude: u16,
    /// The gamepads that the update in flight binds its effect to.
    pub targets: Seq<usize>,
}

impl FeedbackModel {
    /// A controller that owns nothing and has nothing in flight.
    pub open spec fn initial() -> FeedbackModel {
        FeedbackModel { owned: None, phase: Phase::Idle, magnitude: 0, targets: Seq::empty() }
    }

    /// The magnitudes of the effects that play: one, or none.
    pub open spec fn active(self) -> Seq<u16> {
        match self.owned {
            Some(effect) => if effect.playing {
                seq![effect.magnitude]
            } else {
                Seq::empty()
            },
            None => Seq::empty(),
        }
    }

    /// Starting an update for an angle of `degrees`, with `pads` attached.
    ///
    /// An effect that is owned has to stop first; with none owned the new
    /// effect is built at once. Whatever was in flight is abandoned.
    pub open spec fn begin(self, degrees: int, pads: Seq<GamepadInfo>) -> (
        FeedbackModel,
        FeedbackAction,
    ) {
        let magnitude = intensity_for(degrees) as u16;
        let targets = haptic_ids(pads);
        if self.owned is Some {
            (
                FeedbackModel { owned: self.owned, phase: Phase::Stopping, magnitude, targets },
                FeedbackAction::Stop,
            )
        } else {
            (
                FeedbackModel { owned: self.owned, phase: Phase::Building, magnitude, targets },
                FeedbackAction::Build { magnitude, play_for_ms: EFFECT_DURATION_MS },
            )
        }
    }

    /// Hearing whether the action asked for last went well.
    ///
    /// A failure ends the update with the step that failed. A success leads
    /// to the next step: after the stop comes the build, then the play, then
    /// the takeover. With no update in flight there is nothing to do.
    pub open spec fn resolve(self, ok: bool) -> (FeedbackModel, Option<FeedbackAction>) {
        match self.phase {
            Phase::Idle => (self, None),
            Phase::Stopping => if ok {
                (
                    FeedbackModel {
                        owned: stopped(self.owned),
                        phase: Phase::Building,
                        ..self
                    },
                    Some(
                        FeedbackAction::Build {
                            magnitude: self.magnitude,
                            play_for_ms: EFFECT_DURATION_MS,
                        },
                    ),
                )
            } else {
                (
                    FeedbackModel { phase: Phase::Idle, ..self },
                    Some(FeedbackAction::Abort(FeedbackError::StopFailed)),
                )
            },
            Phase::Building => if ok {
                (FeedbackModel { phase: Phase::Starting, ..self }, Some(FeedbackAction::Play))
            } else {
                (
                    FeedbackModel { phase: Phase::Idle, ..self },
                    Some(FeedbackAction::Abort(FeedbackError::BuildFailed)),
                )
            },
            Phase::Starting => if ok {
                (
                    FeedbackModel {
                        owned: Some(OwnedEffect { magnitude: self.magnitude, playing: true }),
                        phase: Phase::Idle,
                        ..self
                    },
                    Some(FeedbackAction::Adopt),
                )
            } else {
                (
                    FeedbackModel { phase: Phase::Idle, ..self },
                    Some(FeedbackAction::Abort(FeedbackError::PlayFailed)),
                )
            },
        }
    }
}

/// The owned effect once it has stopped.
pub open spec fn stopped(owned: Option<OwnedEffect>) -> Option<OwnedEffect> {
    match owned {
        Some(effect) => Some(OwnedEffect { magnitude: effect.magnitude, playing: false }),
        None => None,
    }
}

/// Keeps one haptic effect in step with the transmitted angle.
pub struct FeedbackController {
    owned: Option<OwnedEffect>,
    phase: Phase,
    magnitude: u16,
    targets: Vec<usize>,
}

impl View for FeedbackController {
    type V = FeedbackModel;

    closed spec fn view(&self) -> FeedbackModel {
        FeedbackModel {
            owned: self.owned,
            phase: self.phase,
            magnitude: self.magnitude,
            targets: self.targets@,
        }
    }
}

impl FeedbackController {
    /// A controller that owns no effect.
    pub fn new() -> (controller: FeedbackController)
        ensures
            controller@ == FeedbackModel::initial(),
    {
        FeedbackController { owned: None, phase: Phase::Idle, magnitude: 0, targets: Vec::new() }
    }

    /// Whether no update is in flight.
    pub fn is_idle(&self) -> (idle: bool)
        ensures
            idle <==> self@.phase == Phase::Idle,
    {
        match self.phase {
            Phase::Idle => true,
            _ => false,
        }
    }

    /// The effect that is owned, if any.
    pub fn owned(&self) -> (owned: Option<OwnedEffect>)
        ensures
            owned == self@.owned,
    {
        self.owned
    }

    /// The gamepads that the effect of the update in flight is bound to.
    pub fn targets(&self) -> (targets: &Vec<usize>)
        ensures
            targets@ == self@.targets,
    {
        &self.targets
    }

    /// Starts the update that follows a transmitted angle and says what to do
    /// first. `pads` are the gamepads attached at this moment.
    pub fn start_update(&mut self, angle: Angle, pads: &Vec<GamepadInfo>) -> (action:
        FeedbackAction)
        ensures
            (final(self)@, action) == old(self)@.begin(angle@, pads@),
    {
        let magnitude = intensity(angle);
        self.magnitude = magnitude;
        self.targets = select_haptic_targets(pads);
        if self.owned.is_some() {
            self.phase = Phase::Stopping;
            FeedbackAction::Stop
        } else {
            self.phase = Phase::Building;
            FeedbackAction::Build { magnitude, play_for_ms: EFFECT_DURATION_MS }
        }
    }

    /// Takes in whether the action asked for last went well and says what to
    /// do next; `None` when no update is in flight.
    pub fn on_result(&mut self, ok: bool) -> (action: Option<FeedbackAction>)
        ensures
            (final(self)@, action) == old(self)@.resolve(ok),
    {
        match self.phase {
            Phase::Idle => None,
            Phase::Stopping => {
                if ok {
                    self.owned =
                    match self.owned {
                        Some(effect) => Some(
                            OwnedEffect { magnitude: effect.magnitude, playing: false },
                        ),
                        None => None,
                    };
                    self.phase = Phase::Building;
                    Some(
                        FeedbackAction::Build {
                            magnitude: self.magnitude,
                            play_for_ms: EFFECT_DURATION_MS,
                        },
                    )
                } else {
                    self.phase = Phase::Idle;
                    Some(FeedbackAction::Abort(FeedbackError::StopFailed))
                }
            },
            Phase::Building => {
                if ok {
                    self.phase = Phase::Starting;
                    Some(FeedbackAction::Play)
                } else {
                    self.phase = Phase::Idle;
                    Some(FeedbackAction::Abort(FeedbackError::BuildFailed))
                }
            },
            Phase::Starting => {
                if ok {
                    self.owned = Some(OwnedEffect { magnitude: self.magnitude, playing: true });
                    self.phase = Phase::Idle;
                    Some(FeedbackAction::Adopt)
                } else {
                    self.phase = Phase::Idle;
                    Some(FeedbackAction::Abort(FeedbackError::PlayFailed))
                }
            },
        }
    }
}

/// One transmitted angle, with the gamepads attached when it was sent.
pub ghost struct Dispatch {
    /// The angle, in degrees.
    pub degrees: int,
    /// The gamepads attached at that moment.
    pub pads: Seq<GamepadInfo>,
}

impl FeedbackModel {
    /// The controller after an update in which every step went well.
    pub open spec fn updated(self, degrees: int, pads: Seq<GamepadInfo>) -> FeedbackModel {
        let begun = self.begin(degrees, pads).0;
        let ready = if begun.phase == Phase::Stopping {
            begun.resolve(true).0
        } else {
            begun
        };
        ready.resolve(true).0.resolve(true).0
    }

    /// The controller after one such update for each of `dispatches`, in order.
    pub open spec fn after_updates(self, dispatches: Seq<Dispatch>) -> FeedbackModel
        decreases dispatches.len(),
    {
        if dispatches.len() == 0 {
            self
        } else {
            self.after_updates(dispatches.drop_last()).updated(
                dispatches.last().degrees,
                dispatches.last().pads,
            )
        }
    }
}

/// The steps of an update come in one order: the owned effect, if there is
/// one, is stopped first; then the new effect is built, with the magnitude of
/// the angle and the fixed duration; then it is played; then it is adopted.
/// After that exactly one effect plays, the new one.
pub proof fn lemma_update_order(before: FeedbackModel, degrees: int, pads: Seq<GamepadInfo>)
    requires
        0 <= degrees <= 180,
    ensures
        ({
            let build = FeedbackAction::Build {
                magnitude: intensity_for(degrees) as u16,
                play_for_ms: 100,
            };
            let (begun, first) = before.begin(degrees, pads);
            let ready = if before.owned is Some {
                begun.resolve(true).0
            } else {
                begun
            };
            let (built, third) = ready.resolve(true);
            let (done, last) = built.resolve(true);
            &&& before.owned is Some ==> first == FeedbackAction::Stop && begun.resolve(true).1
                == Some(build)
            &&& before.owned is None ==> first == build
            &&& ready.active() == Seq::<u16>::empty()
            &&& ready.targets == haptic_ids(pads)
            &&& third == Some(FeedbackAction::Play)
            &&& last == Some(FeedbackAction::Adopt)
            &&& done == before.updated(degrees, pads)
            &&& done.phase == Phase::Idle
            &&& done.active() == seq![intensity_for(degrees) as u16]
            &&& intensity_for(degrees) as u16 == intensity_for(degrees)
        }),
{
    lemma_intensity_nearest(degrees);
}

/// A step that fails ends the update and names itself. The controller goes
/// on owning what it owned, so a failure never leaves it with two effects, and
/// never with one that was not played.
pub proof fn lemma_failure_aborts(before: FeedbackModel)
    requires
        before.phase != Phase::Idle,
    ensures
        before.resolve(false).0.phase == Phase::Idle,
        before.resolve(false).0.owned == before.owned,
        before.resolve(false).1 == Some(
            FeedbackAction::Abort(
                match before.phase {
                    Phase::Stopping => FeedbackError::StopFailed,
                    Phase::Building => FeedbackError::BuildFailed,
                    _ => FeedbackError::PlayFailed,
                },
            ),
        ),
{
}

/// Never more than one effect plays, in whatever way actions and results
/// follow each other.
pub proof fn lemma_at_most_one_active(before: FeedbackModel, ok: bool, degrees: int, pads: Seq<GamepadInfo>)
    ensures
        before.active().len() <= 1,
        before.resolve(ok).0.active().len() <= 1,
        before.begin(degrees, pads).0.active().len() <= 1,
{
}

/// After any number of transmitted angles, each followed by an update that
/// went well, exactly one effect plays, and its magnitude is that of the
/// angle sent last, not of an earlier one.
pub proof fn lemma_single_effect_tracks_latest(start: FeedbackModel, dispatches: Seq<Dispatch>)
    requires
        dispatches.len() > 0,
        forall|i: int| 0 <= i < dispatches.len() ==> 0 <= #[trigger] dispatches[i].degrees <= 180,
    ensures
        start.after_updates(dispatches).active() == seq![
            intensity_for(dispatches.last().degrees) as u16,
        ],
        start.after_updates(dispatches).phase == Phase::Idle,
        intensity_for(dispatches.last().degrees) as u16 == intensity_for(dispatches.last().degrees),
{
    let earlier = start.after_updates(dispatches.drop_last());
    lemma_update_order(earlier, dispatches.last().degrees, dispatches.last().pads);
}

} // verus!
