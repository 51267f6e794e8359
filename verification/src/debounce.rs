//! Deciding whether an angle is worth transmitting.
//!
//! An angle is sent when it differs from the one sent last, and also when
//! the last transmission is 16 milliseconds old or older, so that the remote
//! device hears from the relay even while nothing changes.

use crate::angle::Angle;
use vstd::prelude::*;

verus! {

/// The age, in nanoseconds, at which the last transmission is refreshed:
/// 16 milliseconds.
pub const REFRESH_INTERVAL_NS: u64 = 16_000_000;

/// The time that has passed from `earlier` to `now`, both in nanoseconds of
/// one monotonic clock. A clock that seems to have gone back has not moved.
pub open spec fn elapsed_ns(earlier: u64, now: u64) -> int {
    if now >= earlier {
        now - earlier
    } else {
        0
    }
}

/// The debouncer as a mathematical value.
pub ghost struct DebounceModel {
    /// The angle transmitted last, in degrees; `None` before the first one.
    pub last_angle: Option<int>,
    /// When the last transmission was decided, or when the debouncer was
    /// made if there was none yet.
    pub last_update: u64,
}

impl DebounceModel {
    /// The debouncer made at `now`: nothing was transmitted yet.
    pub open spec fn initial(now: u64) -> DebounceModel {
        DebounceModel { last_angle: None, last_update: now }
    }

    /// Whether an angle of `degrees`, derived at `now`, is to be transmitted:
    /// it is new, or the last transmission is old.
    pub open spec fn send_worthy(self, degrees: int, now: u64) -> bool {
        self.last_angle != Some(degrees) || elapsed_ns(self.last_update, now)
            >= REFRESH_INTERVAL_NS
    }

    /// The debouncer after an angle of `degrees` was derived at `now`: a
    /// transmission is recorded with its angle and its time, both at once;
    /// anything else leaves no trace.
    pub open spec fn observe(self, degrees: int, now: u64) -> DebounceModel {
        if self.send_worthy(degrees, now) {
            DebounceModel { last_angle: Some(degrees), last_update: now }
        } else {
            self
        }
    }
}

/// Remembers the angle transmitted last and when.
pub struct DebounceState {
    last_angle: Option<Angle>,
    last_update: u64,
}

impl View for DebounceState {
    type V = DebounceModel;

    closed spec fn view(&self) -> DebounceModel {
        DebounceModel {
            last_angle: match self.last_angle {
                Some(angle) => Some(angle@),
                None => None,
            },
            last_update: self.last_update,
        }
    }
}

impl DebounceState {
    /// A debouncer made at `now`, before anything was transmitted.
    pub fn new(now: u64) -> (state: DebounceState)
        ensures
            state@ == DebounceModel::initial(now),
    {
        DebounceState { last_angle: None, last_update: now }
    }

    /// The angle transmitted last, if any.
    pub fn last_angle(&self) -> (angle: Option<Angle>)
        ensures
            angle is Some <==> self@.last_angle is Some,
            angle matches Some(a) ==> self@.last_angle == Some(a@),
    {
        self.last_angle
    }

    /// When the last transmission was decided.
    pub fn last_update(&self) -> (time: u64)
        ensures
            time == self@.last_update,
    {
        self.last_update
    }

    /// Whether `angle`, derived at `now`, is to be transmitted.
    pub fn should_send(&self, angle: Angle, now: u64) -> (send: bool)
        ensures
            send == self@.send_worthy(angle@, now),
    {
        let changed = match self.last_angle {
            Some(last) => !last.same_as(&angle),
            None => true,
        };
        let age: u64 = if now >= self.last_update {
            now - self.last_update
        } else {
            0
        };
        changed || age >= REFRESH_INTERVAL_NS
    }

    /// Decides whether `angle`, derived at `now`, is transmitted, and records
    /// the transmission if it is.
    pub fn observe(&mut self, angle: Angle, now: u64) -> (send: bool)
        ensures
            send == old(self)@.send_worthy(angle@, now),
            final(self)@ == old(self)@.observe(angle@, now),
    {
        let send = self.should_send(angle, now);
        if send {
            self.last_angle = Some(angle);
            self.last_update = now;
        }
        send
    }
}

/// The first angle is always transmitted.
pub proof fn lemma_first_angle_is_sent(made: u64, degrees: int, now: u64)
    ensures
        DebounceModel::initial(made).send_worthy(degrees, now),
{
}

/// A changed angle is transmitted at once, however little time has passed.
pub proof fn lemma_change_is_sent(state: DebounceModel, degrees: int, now: u64)
    requires
        state.last_angle != Some(degrees),
    ensures
        state.send_worthy(degrees, now),
        state.observe(degrees, now) == (DebounceModel {
            last_angle: Some(degrees),
            last_update: now,
        }),
{
}

/// The same angle derived twice within 16 milliseconds is never transmitted
/// twice. When the first of the two goes out, the second does not, and
/// leaves the debouncer as it was; and the first does go out whenever the
/// angle is new.
pub proof fn lemma_repeat_within_interval_is_dropped(
    state: DebounceModel,
    degrees: int,
    first: u64,
    second: u64,
)
    requires
        first <= second,
        second - first < REFRESH_INTERVAL_NS,
    ensures
        !(state.send_worthy(degrees, first) && state.observe(degrees, first).send_worthy(
            degrees,
            second,
        )),
        state.send_worthy(degrees, first) ==> state.observe(degrees, first).observe(
            degrees,
            second,
        ) == state.observe(degrees, first),
        state.last_angle != Some(degrees) ==> state.send_worthy(degrees, first),
{
}

/// An angle derived 16 milliseconds or more after the last transmission is
/// transmitted, changed or not.
pub proof fn lemma_stale_angle_is_refreshed(state: DebounceModel, degrees: int, now: u64)
    requires
        now >= state.last_update,
        now - state.last_update >= REFRESH_INTERVAL_NS,
    ensures
        state.send_worthy(degrees, now),
        state.observe(degrees, now).last_update == now,
{
}

/// An angle as it is derived: its degrees and the time.
pub ghost struct Observation {
    /// The angle, in degrees.
    pub degrees: int,
    /// The monotonic clock, in nanoseconds.
    pub now: u64,
}

impl DebounceModel {
    /// The debouncer after `observations`, taken in order.
    pub open spec fn after(self, observations: Seq<Observation>) -> DebounceModel
        decreases observations.len(),
    {
        if observations.len() == 0 {
            self
        } else {
            self.after(observations.drop_last()).observe(
                observations.last().degrees,
                observations.last().now,
            )
        }
    }

    /// How many of `observations`, taken in order, are transmitted.
    pub open spec fn sent_count(self, observations: Seq<Observation>) -> nat
        decreases observations.len(),
    {
        if observations.len() == 0 {
            0
        } else {
            self.sent_count(observations.drop_last()) + if self.after(
                observations.drop_last(),
            ).send_worthy(observations.last().degrees, observations.last().now) {
                1nat
            } else {
                0nat
            }
        }
    }
}

/// Whether the times of `observations` never go back.
pub open spec fn in_time_order(observations: Seq<Observation>) -> bool {
    forall|i: int, j: int|
        0 <= i <= j < observations.len() ==> observations[i].now <= observations[j].now
}

/// Observations of which none is transmitted leave the debouncer untouched.
pub proof fn lemma_silence_leaves_no_trace(state: DebounceModel, observations: Seq<Observation>)
    requires
        state.sent_count(observations) == 0,
    ensures
        state.after(observations) == state,
    decreases observations.len(),
{
    if observations.len() > 0 {
        lemma_silence_leaves_no_trace(state, observations.drop_last());
    }
}

/// After anything was transmitted, the debouncer holds the angle and the
/// time of one of the observations; the time is that of the transmission
/// that came last.
pub proof fn lemma_last_update_is_an_observation(
    state: DebounceModel,
    observations: Seq<Observation>,
)
    requires
        state.sent_count(observations) > 0,
    ensures
        exists|i: int|
            0 <= i < observations.len() && state.after(observations).last_update
                == #[trigger] observations[i].now && state.after(observations).last_angle == Some(
                observations[i].degrees,
            ),
    decreases observations.len(),
{
    let earlier = observations.drop_last();
    let last = observations.last();
    if state.after(earlier).send_worthy(last.degrees, last.now) {
        assert(state.after(observations).last_update == observations[observations.len() - 1].now);
    } else {
        lemma_last_update_is_an_observation(state, earlier);
        let i = choose|i: int|
            0 <= i < earlier.len() && state.after(earlier).last_update == #[trigger] earlier[i].now
                && state.after(earlier).last_angle == Some(earlier[i].degrees);
        assert(observations[i] == earlier[i]);
    }
}

/// One angle, derived any number of times within less than 16 milliseconds
/// from the first time on, is transmitted exactly once when it is new: the
/// first time, and never again.
pub proof fn lemma_burst_is_sent_once(state: DebounceModel, observations: Seq<Observation>)
    requires
        observations.len() > 0,
        in_time_order(observations),
        forall|i: int|
            0 <= i < observations.len() ==> #[trigger] observations[i].degrees
                == observations[0].degrees,
        observations.last().now - observations[0].now < REFRESH_INTERVAL_NS,
        state.last_angle != Some(observations[0].degrees),
    ensures
        state.sent_count(observations) == 1,
        state.after(observations) == state.observe(observations[0].degrees, observations[0].now),
    decreases observations.len(),
{
    let earlier = observations.drop_last();
    if earlier.len() == 0 {
        assert(state.after(earlier) == state);
        assert(state.sent_count(earlier) == 0);
    } else {
        assert(earlier[0] == observations[0]);
        assert(earlier.last() == observations[earlier.len() - 1]);
        assert(in_time_order(earlier)) by {
            assert forall|i: int, j: int| 0 <= i <= j < earlier.len() implies earlier[i].now
                <= earlier[j].now by {
                assert(earlier[i] == observations[i]);
                assert(earlier[j] == observations[j]);
            }
        }
        assert forall|i: int| 0 <= i < earlier.len() implies #[trigger] earlier[i].degrees
            == earlier[0].degrees by {
            assert(earlier[i] == observations[i]);
        }
        lemma_burst_is_sent_once(state, earlier);
        assert(observations[0].now <= observations.last().now);
    }
}

/// While time goes on, the remote device is never left without news for
/// long: of observations that reach 16 milliseconds or more past the last
/// transmission, at least one is transmitted, even if the angle never
/// changes.
pub proof fn lemma_held_angle_is_refreshed(state: DebounceModel, observations: Seq<Observation>)
    requires
        observations.len() > 0,
        observations.last().now >= state.last_update,
        observations.last().now - state.last_update >= REFRESH_INTERVAL_NS,
    ensures
        state.sent_count(observations) >= 1,
{
    let earlier = observations.drop_last();
    if state.sent_count(earlier) == 0 {
        lemma_silence_leaves_no_trace(state, earlier);
    }
}

} // verus!
