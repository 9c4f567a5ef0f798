//! Colours of the rain, with channels that may leave the range of a byte
//! while they are combined.

use vstd::prelude::*;
use vstd::std_specs::convert::FromSpecImpl;

verus! {

/// Red, green and blue.
#[derive(Debug)]
pub struct RColor(pub (i16, i16, i16));

/// `v`, or the bound of `i16` that it passed.
pub open spec fn saturate(v: int) -> i16 {
    if v < i16::MIN {
        i16::MIN
    } else if v > i16::MAX {
        i16::MAX
    } else {
        v as i16
    }
}

/// `v`, or the bound of a byte that it passed.
pub open spec fn channel(v: i16) -> u8 {
    if v < 0 {
        0
    } else if v > 255 {
        255
    } else {
        v as u8
    }
}

fn saturated(v: i32) -> (r: i16)
    ensures
        r == saturate(v as int),
{
    if v < -32768 {
        -32768
    } else if v > 32767 {
        32767
    } else {
        v as i16
    }
}

fn clamped(v: i16) -> (r: u8)
    ensures
        r == channel(v),
{
    if v < 0 {
        0
    } else if v > 255 {
        255
    } else {
        v as u8
    }
}

impl RColor {
    pub fn new(r: u8, g: u8, b: u8) -> (c: Self)
        ensures
            c.0 == (r as i16, g as i16, b as i16),
    {
        RColor((r as i16, g as i16, b as i16))
    }

    /// The channels as bytes, each brought into the range of a byte.
    pub fn tuple(&self) -> (t: (u8, u8, u8))
        ensures
            t == (channel(self.0.0), channel(self.0.1), channel(self.0.2)),
    {
        (clamped(self.0.0), clamped(self.0.1), clamped(self.0.2))
    }

    /// The sum, channel by channel, held within `i16`.
    pub fn add(&self, lft: &RColor) -> (c: Self)
        ensures
            c.0 == (
                saturate(self.0.0 + lft.0.0),
                saturate(self.0.1 + lft.0.1),
                saturate(self.0.2 + lft.0.2),
            ),
    {
        RColor(
            (
                saturated(self.0.0 as i32 + lft.0.0 as i32),
                saturated(self.0.1 as i32 + lft.0.1 as i32),
                saturated(self.0.2 as i32 + lft.0.2 as i32),
            ),
        )
    }

    /// The difference, channel by channel, held within `i16`.
    pub fn sub(&self, lft: &RColor) -> (c: Self)
        ensures
            c.0 == (
                saturate(self.0.0 - lft.0.0),
                saturate(self.0.1 - lft.0.1),
                saturate(self.0.2 - lft.0.2),
            ),
    {
        RColor(
            (
                saturated(self.0.0 as i32 - lft.0.0 as i32),
                saturated(self.0.1 as i32 - lft.0.1 as i32),
                saturated(self.0.2 as i32 - lft.0.2 as i32),
            ),
        )
    }
}

impl Clone for RColor {
    fn clone(&self) -> (c: Self)
        ensures
            c == *self,
    {
        RColor((self.0.0, self.0.1, self.0.2))
    }
}

impl Default for RColor {
    fn default() -> (c: Self)
        ensures
            c.0 == (0i16, 0i16, 0i16),
    {
        RColor((0, 0, 0))
    }
}

impl From<(u8, u8, u8)> for RColor {
    fn from(val: (u8, u8, u8)) -> (c: Self) {
        RColor((val.0 as i16, val.1 as i16, val.2 as i16))
    }
}

impl FromSpecImpl<(u8, u8, u8)> for RColor {
    open spec fn obeys_from_spec() -> bool {
        true
    }

    open spec fn from_spec(val: (u8, u8, u8)) -> Self {
        RColor((val.0 as i16, val.1 as i16, val.2 as i16))
    }
}

impl From<RColor> for (u8, u8, u8) {
    fn from(val: RColor) -> (t: Self) {
        val.tuple()
    }
}

impl FromSpecImpl<RColor> for (u8, u8, u8) {
    open spec fn obeys_from_spec() -> bool {
        true
    }

    open spec fn from_spec(val: RColor) -> Self {
        (channel(val.0.0), channel(val.0.1), channel(val.0.2))
    }
}

} // verus!
