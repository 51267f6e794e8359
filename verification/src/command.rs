//! The commands that go to the remote device, and their bytes on the wire.
//!
//! A datagram holds one command and nothing else: no header, no length, no
//! delimiter. The receiver tells the two kinds apart by their first byte.

use crate::angle::Angle;
use vstd::prelude::*;

verus! {

/// A command for the remote device.
#[derive(Clone, Copy, Debug, PartialEq, Eq, Structural)]
pub enum Command {
    /// Switch the device's discrete state over.
    Toggle,
    /// Move to the given angle.
    SetAngle(Angle),
}

/// The payload of a toggle: the ASCII letters `TOGGLE`.
pub open spec fn toggle_token() -> Seq<u8> {
    seq![0x54u8, 0x4Fu8, 0x47u8, 0x47u8, 0x4Cu8, 0x45u8]
}

/// Whether a byte is one of the ASCII digits `0` to `9`.
pub open spec fn is_digit(byte: u8) -> bool {
    0x30 <= byte <= 0x39
}

/// The ASCII digit for a number below ten.
pub open spec fn digit(value: nat) -> u8 {
    (0x30 + value) as u8
}

/// The decimal digits of `n` in ASCII, most significant first, with no sign
/// and no leading zero.
pub open spec fn decimal(n: nat) -> Seq<u8>
    decreases n,
{
    if n < 10 {
        seq![digit(n)]
    } else {
        decimal(n / 10).push(digit(n % 10))
    }
}

/// The number that a sequence of ASCII digits denotes.
pub open spec fn decimal_value(digits: Seq<u8>) -> nat
    decreases digits.len(),
{
    if digits.len() == 0 {
        0
    } else {
        (decimal_value(digits.drop_last()) * 10 + (digits.last() - 0x30)) as nat
    }
}

impl Command {
    /// The bytes that carry the command: the token for a toggle, the decimal
    /// digits of the degrees for an angle.
    pub open spec fn wire(self) -> Seq<u8> {
        match self {
            Command::Toggle => toggle_token(),
            Command::SetAngle(angle) => decimal(angle@ as nat),
        }
    }

    /// Encodes the command as the payload of one datagram.
    pub fn encode(&self) -> (bytes: Vec<u8>)
        ensures
            bytes@ == self.wire(),
    {
        let mut bytes: Vec<u8> = Vec::new();
        match self {
            Command::Toggle => {
                bytes.push(0x54);
                bytes.push(0x4F);
                bytes.push(0x47);
                bytes.push(0x47);
                bytes.push(0x4C);
                bytes.push(0x45);
                assert(bytes@ =~= toggle_token());
            },
            Command::SetAngle(angle) => {
                let degrees: u32 = angle.degrees() as u32;
                push_decimal(&mut bytes, degrees);
                assert(bytes@ =~= decimal(degrees as nat));
            },
        }
        bytes
    }
}

/// Appends the decimal digits of `n` to `out`.
pub fn push_decimal(out: &mut Vec<u8>, n: u32)
    ensures
        final(out)@ == old(out)@ + decimal(n as nat),
    decreases n,
{
    if n >= 10 {
        push_decimal(out, n / 10);
    }
    out.push(0x30 + (n % 10) as u8);
    proof {
        if n < 10 {
            assert(final(out)@ =~= old(out)@ + decimal(n as nat));
        } else {
            assert(final(out)@ =~= old(out)@ + decimal(n as nat));
        }
    }
}

/// The decimal digits of a number are ASCII digits and nothing else, at
/// least one of them, and the first is a zero for the number zero only.
pub proof fn lemma_decimal_shape(n: nat)
    ensures
        decimal(n).len() >= 1,
        forall|i: int| 0 <= i < decimal(n).len() ==> is_digit(#[trigger] decimal(n)[i]),
        decimal(n)[0] == 0x30 <==> n == 0,
        n < 10 ==> decimal(n).len() == 1,
        10 <= n < 100 ==> decimal(n).len() == 2,
        100 <= n < 1000 ==> decimal(n).len() == 3,
    decreases n,
{
    if n >= 10 {
        lemma_decimal_shape(n / 10);
    }
}

/// Reading the digits of a number gives the number back, so two numbers
/// with the same digits are the same number.
pub proof fn lemma_decimal_round_trip(n: nat)
    ensures
        decimal_value(decimal(n)) == n,
    decreases n,
{
    if n >= 10 {
        lemma_decimal_round_trip(n / 10);
        assert(decimal(n).drop_last() =~= decimal(n / 10));
        assert(decimal(n).last() == digit(n % 10));
    } else {
        assert(decimal(n).drop_last() =~= Seq::<u8>::empty());
        assert(decimal_value(Seq::<u8>::empty()) == 0);
        assert(decimal(n).last() == digit(n));
    }
}

/// A toggle and an angle never share a payload: an angle is one to three
/// digits, and the token is six letters. Two angles share a payload only if
/// they are the same angle.
pub proof fn lemma_wire_tells_commands_apart(a: Command, b: Command)
    requires
        a matches Command::SetAngle(angle) ==> angle.wf(),
        b matches Command::SetAngle(angle) ==> angle.wf(),
    ensures
        a.wire() == b.wire() <==> a == b,
        a matches Command::SetAngle(angle) ==> 1 <= a.wire().len() <= 3 && decimal_value(
            a.wire(),
        ) == angle@,
        a is Toggle ==> a.wire().len() == 6,
{
    match a {
        Command::SetAngle(angle) => {
            lemma_decimal_shape(angle@ as nat);
            lemma_decimal_round_trip(angle@ as nat);
        },
        Command::Toggle => {},
    }
    match b {
        Command::SetAngle(angle) => {
            lemma_decimal_shape(angle@ as nat);
            lemma_decimal_round_trip(angle@ as nat);
        },
        Command::Toggle => {},
    }
    match (a, b) {
        (Command::SetAngle(x), Command::SetAngle(y)) => {
            Angle::lemma_view_injective(x, y);
        },
        _ => {},
    }
}

} // verus!
