//! Player colours, held as exact fractions so that both sides of the
//! connection compute the very same value.

use vstd::prelude::*;

verus! {

/// Number of distinct red levels a derived colour can take.
pub const RED_STEPS: u8 = 23;

/// Number of distinct green levels a derived colour can take.
pub const GREEN_STEPS: u8 = 27;

/// Number of distinct blue levels a derived colour can take.
pub const BLUE_STEPS: u8 = 39;

/// One colour channel: the fraction `numerator / denominator`.
#[derive(Clone, Copy, Debug, PartialEq, Eq, Structural)]
pub struct Channel {
    pub numerator: u8,
    pub denominator: u8,
}

/// A colour of full opacity, given by its red, green and blue channels.
#[derive(Clone, Copy, Debug, PartialEq, Eq, Structural)]
pub struct Color {
    pub red: Channel,
    pub green: Channel,
    pub blue: Channel,
}

impl Channel {
    /// The fraction is at least zero and strictly below one.
    pub open spec fn wf(self) -> bool {
        self.numerator < self.denominator
    }
}

impl Color {
    /// Every channel lies in the half-open range from zero to one.
    pub open spec fn wf(self) -> bool {
        &&& self.red.wf()
        &&& self.green.wf()
        &&& self.blue.wf()
    }
}

/// The colour that belongs to a client identifier: red is `id mod 23` over
/// 23, green `id mod 27` over 27 and blue `id mod 39` over 39.
pub open spec fn derived_color(client_id: u64) -> Color {
    Color {
        red: Channel { numerator: (client_id % 23) as u8, denominator: 23 },
        green: Channel { numerator: (client_id % 27) as u8, denominator: 27 },
        blue: Channel { numerator: (client_id % 39) as u8, denominator: 39 },
    }
}

/// Derives a player's colour from its client identifier. The result depends
/// on the identifier alone, so every call with the same identifier gives the
/// same colour; identifiers that agree modulo 23, 27 and 39 share one.
pub fn client_color(client_id: u64) -> (color: Color)
    ensures
        color == derived_color(client_id),
        color.wf(),
{
    Color {
        red: Channel { numerator: (client_id % (RED_STEPS as u64)) as u8, denominator: RED_STEPS },
        green: Channel {
            numerator: (client_id % (GREEN_STEPS as u64)) as u8,
            denominator: GREEN_STEPS,
        },
        blue: Channel {
            numerator: (client_id % (BLUE_STEPS as u64)) as u8,
            denominator: BLUE_STEPS,
        },
    }
}

/// Two identifiers get the same colour exactly when they leave the same
/// remainders modulo 23, 27 and 39.
pub proof fn colors_agree_on_equal_remainders(a: u64, b: u64)
    ensures
        derived_color(a) == derived_color(b) <==> (a % 23 == b % 23 && a % 27 == b % 27 && a % 39
            == b % 39),
        derived_color(a).wf(),
{
}

} // verus!
