//! When a popover shows and hides. Showing and hiding take a moment; what
//! happens in that moment calls them off.

use vstd::prelude::*;

verus! {

/// The wait before a popover shows, in milliseconds.
pub const HOVER_DELAY_MS: u64 = 300;

/// The wait before a popover hides, in milliseconds.
pub const HIDE_DELAY_MS: u64 = 100;

/// Whether the popover is visible, and the number of the last hover event.
#[derive(Clone, Copy, Debug, PartialEq, Eq)]
pub struct HoverState {
    pub visible: bool,
    pub token: u64,
}

/// The number after another.
pub open spec fn next_hover(token: u64) -> u64 {
    if token == u64::MAX {
        0
    } else {
        (token + 1) as u64
    }
}

impl HoverState {
    /// A hidden popover.
    pub fn new() -> (r: HoverState)
        ensures
            r == (HoverState { visible: false, token: 0 }),
    {
        HoverState { visible: false, token: 0 }
    }

    fn next(&mut self) -> (r: u64)
        ensures
            r == next_hover(old(self).token),
            *final(self) == (HoverState { token: r, ..*old(self) }),
    {
        self.token = if self.token == u64::MAX {
            0
        } else {
            self.token + 1
        };
        self.token
    }

    /// The mouse enters the trigger: unless the popover is visible it shows
    /// after [`HOVER_DELAY_MS`], under the number that is returned.
    pub fn show_popover(&mut self) -> (r: Option<u64>)
        ensures
            if old(self).visible {
                r is None && *final(self) == *old(self)
            } else {
                &&& r == Some(next_hover(old(self).token))
                &&& *final(self) == (HoverState {
                    token: next_hover(old(self).token),
                    ..*old(self)
                })
            },
    {
        if self.visible {
            return None;
        }
        Some(self.next())
    }

    /// The wait to show is over.
    pub fn finish_show(&mut self, token: u64) -> (r: bool)
        ensures
            r == (old(self).token == token),
            *final(self) == (HoverState { visible: old(self).visible || r, ..*old(self) }),
    {
        if self.token == token {
            self.visible = true;
            true
        } else {
            false
        }
    }

    /// The mouse leaves the trigger or the popover: a visible popover hides
    /// after [`HIDE_DELAY_MS`], under the number that is returned, and one that
    /// was about to show does not.
    pub fn hide_popover(&mut self) -> (r: Option<u64>)
        ensures
            *final(self) == (HoverState { token: next_hover(old(self).token), ..*old(self) }),
            r == (if old(self).visible {
                Some(next_hover(old(self).token))
            } else {
                None
            }),
    {
        let token: u64 = self.next();
        if self.visible {
            Some(token)
        } else {
            None
        }
    }

    /// The wait to hide is over.
    pub fn finish_hide(&mut self, token: u64) -> (r: bool)
        ensures
            r == (old(self).token == token && old(self).visible),
            *final(self) == (HoverState { visible: old(self).visible && !r, ..*old(self) }),
    {
        if self.token == token && self.visible {
            self.visible = false;
            true
        } else {
            false
        }
    }

    /// The mouse enters the popover itself, which keeps it from hiding.
    pub fn enter_popover(&mut self)
        ensures
            *final(self) == (HoverState { token: next_hover(old(self).token), ..*old(self) }),
    {
        self.next();
    }
}

/// Any hover event calls off what was waiting: an older number is no longer the
/// current one.
pub proof fn events_call_off_waits(state: HoverState, later: HoverState)
    requires
        later.token == next_hover(state.token),
    ensures
        later.token != state.token,
{
}

} // verus!
