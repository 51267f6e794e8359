//! The steering angle: a whole number of degrees between neutral and full lock.

use vstd::prelude::*;

verus! {

/// Largest angle, in degrees, that is ever derived or transmitted.
pub const MAX_DEGREES: u8 = 180;

/// A steering angle in whole degrees, from `0` (neutral) up to `180`.
///
/// The range is a type invariant: no value of this type lies outside it.
#[derive(Clone, Copy, Debug, PartialEq, Eq, Structural)]
pub struct Angle {
    degrees: u8,
}

impl View for Angle {
    type V = int;

    /// The angle as a mathematical number of degrees.
    closed spec fn view(&self) -> int {
        self.degrees as int
    }
}

impl Angle {
    #[verifier::type_invariant]
    spec fn bounded(self) -> bool {
        self.degrees <= MAX_DEGREES
    }

    /// Whether a ghost angle is one that can exist at run time.
    pub open spec fn wf(self) -> bool {
        0 <= self@ <= 180
    }

    /// The angle of `degrees` degrees, for use in contracts and proofs.
    pub closed spec fn of(degrees: int) -> Angle {
        Angle { degrees: degrees as u8 }
    }

    /// `Angle::of` builds the angle it is asked for, on every number in range.
    pub proof fn lemma_of(degrees: int)
        requires
            0 <= degrees <= 180,
        ensures
            Angle::of(degrees)@ == degrees,
            Angle::of(degrees).wf(),
    {
    }

    /// An angle is determined by its number of degrees.
    pub proof fn lemma_view_injective(a: Angle, b: Angle)
        ensures
            a@ == b@ <==> a == b,
            Angle::of(a@) == a,
    {
    }

    /// The neutral angle, `0` degrees.
    pub fn neutral() -> (a: Angle)
        ensures
            a@ == 0,
    {
        Angle { degrees: 0 }
    }

    /// The angle of full deflection, `180` degrees.
    pub fn full() -> (a: Angle)
        ensures
            a@ == 180,
    {
        Angle { degrees: MAX_DEGREES }
    }

    /// The angle of `degrees` degrees, or `None` when that lies outside `0..=180`.
    pub fn new(degrees: i32) -> (r: Option<Angle>)
        ensures
            r is Some <==> 0 <= degrees <= 180,
            r matches Some(a) ==> a@ == degrees,
    {
        if 0 <= degrees && degrees <= 180 {
            Some(Angle { degrees: degrees as u8 })
        } else {
            None
        }
    }

    /// The angle nearest to `degrees`: what lies below the range becomes
    /// neutral, what lies above it becomes full deflection.
    pub fn clamped(degrees: i64) -> (a: Angle)
        ensures
            a@ == if degrees < 0 {
                0
            } else if degrees > 180 {
                180
            } else {
                degrees as int
            },
    {
        if degrees < 0 {
            Angle { degrees: 0 }
        } else if degrees > 180 {
            Angle { degrees: MAX_DEGREES }
        } else {
            Angle { degrees: degrees as u8 }
        }
    }

    /// The number of degrees.
    pub fn degrees(&self) -> (d: i32)
        ensures
            d == self@,
            0 <= d <= 180,
    {
        proof {
            use_type_invariant(self);
        }
        self.degrees as i32
    }

    /// Whether two angles are the same number of degrees.
    pub fn same_as(&self, other: &Angle) -> (same: bool)
        ensures
            same <==> self@ == other@,
    {
        self.degrees == other.degrees
    }
}

} // verus!
