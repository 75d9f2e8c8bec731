//! The find-my-earbuds buttons: a loud locator sound that never starts on an
//! earbud reported as worn.
use crate::text::push_str;
use crate::types::{DeviceCommand, EarbudSide, WearState};
use vstd::prelude::*;

verus! {

pub const WORN_WARNING: &'static str =
    "This earbud is reported as worn. Remove it before playing a loud locator sound.";

/// Whether the earbud on `side` is reported as worn.
pub open spec fn is_worn(side: EarbudSide, wear: WearState) -> bool {
    match side {
        EarbudSide::Left => wear.left,
        EarbudSide::Right => wear.right,
    }
}

/// What a press of a locator button does.
#[derive(Debug, Clone, PartialEq)]
pub enum LocatorStep {
    /// Send this command to the earbuds.
    Send(DeviceCommand),
    /// Refuse, because the earbud is worn; show `WORN_WARNING`.
    RefuseWorn,
}

/// The locator button of one earbud: whether it is playing the sound.
#[derive(Debug, Clone, Copy, PartialEq, Eq, Structural)]
pub struct Locator {
    pub side: EarbudSide,
    pub ringing: bool,
}

impl Locator {
    pub fn new(side: EarbudSide) -> (l: Locator)
        ensures
            l.side == side,
            !l.ringing,
    {
        Locator { side, ringing: false }
    }

    /// A press: stops a playing sound; otherwise starts it, unless the
    /// earbud is worn.
    pub fn press(&mut self, wear: WearState) -> (step: LocatorStep)
        ensures
            final(self).side == old(self).side,
            old(self).ringing ==> step == LocatorStep::Send(
                DeviceCommand::FindBud { side: old(self).side, ringing: false },
            ) && !final(self).ringing,
            !old(self).ringing && is_worn(old(self).side, wear) ==> step == LocatorStep::RefuseWorn
                && !final(self).ringing,
            !old(self).ringing && !is_worn(old(self).side, wear) ==> step == LocatorStep::Send(
                DeviceCommand::FindBud { side: old(self).side, ringing: true },
            ) && final(self).ringing,
            step matches LocatorStep::Send(DeviceCommand::FindBud { ringing: true, .. }) ==> !is_worn(
                old(self).side,
                wear,
            ),
    {
        if self.ringing {
            self.ringing = false;
            return LocatorStep::Send(DeviceCommand::FindBud { side: self.side, ringing: false });
        }
        let worn = match self.side {
            EarbudSide::Left => wear.left,
            EarbudSide::Right => wear.right,
        };
        if worn {
            LocatorStep::RefuseWorn
        } else {
            self.ringing = true;
            LocatorStep::Send(DeviceCommand::FindBud { side: self.side, ringing: true })
        }
    }

    /// "Left · Play", or "Right · Pause" while the sound plays.
    pub fn label(&self) -> (r: String)
        ensures
            r@ == (match self.side {
                EarbudSide::Left => "Left"@,
                EarbudSide::Right => "Right"@,
            }) + " · "@ + if self.ringing {
                "Pause"@
            } else {
                "Play"@
            },
    {
        let mut r = String::new();
        match self.side {
            EarbudSide::Left => push_str(&mut r, "Left"),
            EarbudSide::Right => push_str(&mut r, "Right"),
        }
        push_str(&mut r, " · ");
        if self.ringing {
            push_str(&mut r, "Pause");
        } else {
            push_str(&mut r, "Play");
        }
        r
    }
}

} // verus!
