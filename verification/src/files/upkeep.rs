//! What is kept up behind an open tab: looking for changes of its file, drawing
//! an SVG again when it is zoomed, and making fonts known to the system once.

use std::collections::HashSet;
use vstd::prelude::*;

verus! {

broadcast use vstd::std_specs::hash::group_hash_axioms;

// ---------------------------------------------------------------------------
// Changes of a file
// ---------------------------------------------------------------------------

/// The least time between two looks at a file, in milliseconds.
pub const CHECK_INTERVAL_MS: u64 = 1000;

/// When the active tab's file was last looked at, and whether a look is under way.
#[derive(Clone, Copy, Debug, PartialEq, Eq)]
pub struct FreshnessGate {
    pub last_check: u64,
    pub in_flight: bool,
}

impl FreshnessGate {
    /// Before the first look.
    pub fn new(now: u64) -> (r: FreshnessGate)
        ensures
            r == (FreshnessGate { last_check: now, in_flight: false }),
    {
        FreshnessGate { last_check: now, in_flight: false }
    }

    /// Says whether to look at the file of the active tab: not while a look is
    /// under way, and not sooner than a second after the last. A tab without a
    /// file puts the next look off just the same.
    pub fn check(&mut self, now: u64, is_empty: bool) -> (r: bool)
        ensures
            ({
                let due = !old(self).in_flight && now - old(self).last_check >= CHECK_INTERVAL_MS;
                &&& r == (due && !is_empty)
                &&& *final(self) == (FreshnessGate {
                    last_check: if due {
                        now
                    } else {
                        old(self).last_check
                    },
                    in_flight: old(self).in_flight || r,
                })
            }),
    {
        if self.in_flight || now < self.last_check || now - self.last_check < CHECK_INTERVAL_MS {
            return false;
        }
        self.last_check = now;
        if is_empty {
            return false;
        }
        self.in_flight = true;
        true
    }

    /// The look is over.
    pub fn finish(&mut self)
        ensures
            *final(self) == (FreshnessGate { in_flight: false, ..*old(self) }),
    {
        self.in_flight = false;
    }
}

// ---------------------------------------------------------------------------
// Drawing an SVG again
// ---------------------------------------------------------------------------

/// The picture of an SVG: which bytes it was drawn from, and how large. The scale
/// is an opaque number to this module.
#[derive(Clone, Copy, Debug, PartialEq, Eq, Structural)]
pub struct SvgPicture {
    pub source: u64,
    pub scale: u32,
}

/// What is known of a tab's picture.
#[derive(Clone, Copy, Debug, PartialEq, Eq, Structural)]
pub struct SvgState {
    pub is_svg: bool,
    pub auto_fit: bool,
    /// Whether the picture is being drawn again.
    pub in_flight: bool,
    /// `None` where the tab holds no drawn picture.
    pub picture: Option<SvgPicture>,
}

/// What becomes of a picture that was drawn again.
#[derive(Clone, Copy, Debug, PartialEq, Eq, Structural)]
pub enum RasterOutcome {
    /// It takes the place of the old one; see whether it is large enough now.
    Replace,
    /// The tab shows another SVG by now, which keeps its picture.
    Discard,
    /// There is none to show.
    Nothing,
}

impl SvgState {
    /// Whether a larger picture is worth drawing. `wanted` is the scale that the
    /// zoom asks for, where it is past the scale of the picture.
    pub open spec fn wants(self, wanted: Option<u32>) -> bool {
        self.is_svg && !self.in_flight && !self.auto_fit && self.picture is Some && wanted is Some
    }

    /// Starts to draw the picture again where that is worth it: says from which
    /// bytes and how large.
    pub fn maybe_rerender(&mut self, wanted: Option<u32>) -> (r: Option<SvgPicture>)
        ensures
            if old(self).wants(wanted) {
                &&& r == Some(SvgPicture { source: old(self).picture->0.source, scale: wanted->0 })
                &&& *final(self) == (SvgState { in_flight: true, ..*old(self) })
            } else {
                r is None && *final(self) == *old(self)
            },
    {
        if !self.is_svg || self.in_flight || self.auto_fit {
            return None;
        }
        match (self.picture, wanted) {
            (Some(picture), Some(scale)) => {
                self.in_flight = true;
                Some(SvgPicture { source: picture.source, scale })
            },
            _ => None,
        }
    }

    /// The picture was drawn, or could not be. What was drawn from other bytes
    /// than the tab shows now does not replace its picture. A scale that failed
    /// counts as reached, so that it is not tried again.
    pub fn finish_rerender(&mut self, drawn: SvgPicture, succeeded: bool) -> (r: RasterOutcome)
        ensures
            ({
                let current = old(self).picture matches Some(picture) && picture.source
                    == drawn.source;
                &&& r == (if !succeeded || old(self).picture is None {
                    RasterOutcome::Nothing
                } else if current {
                    RasterOutcome::Replace
                } else {
                    RasterOutcome::Discard
                })
                &&& *final(self) == (SvgState {
                    in_flight: false,
                    picture: if current {
                        Some(drawn)
                    } else {
                        old(self).picture
                    },
                    ..*old(self)
                })
            }),
    {
        self.in_flight = false;
        let picture: SvgPicture = match self.picture {
            Some(picture) => picture,
            None => return RasterOutcome::Nothing,
        };
        if picture.source == drawn.source {
            self.picture = Some(drawn);
            if succeeded {
                RasterOutcome::Replace
            } else {
                RasterOutcome::Nothing
            }
        } else if succeeded {
            RasterOutcome::Discard
        } else {
            RasterOutcome::Nothing
        }
    }
}

/// While a picture is being drawn again, none other is, whatever the zoom does.
pub proof fn one_drawing_at_a_time(state: SvgState, wanted: Option<u32>, again: Option<u32>)
    requires
        state.wants(wanted),
    ensures
        !(SvgState { in_flight: true, ..state }).wants(again),
{
}

// ---------------------------------------------------------------------------
// Fonts
// ---------------------------------------------------------------------------

/// The fonts that the system knows already, by the hash of their bytes.
#[derive(Debug)]
pub struct FontRegistry {
    known: HashSet<u64>,
}

impl FontRegistry {
    /// The hashes of the fonts that the system knows.
    pub closed spec fn view(&self) -> Set<u64> {
        self.known@
    }

    /// Before the first font.
    pub fn new() -> (r: FontRegistry)
        ensures
            r.view() == Set::<u64>::empty(),
    {
        FontRegistry { known: HashSet::new() }
    }

    /// Says whether a font has to be made known: only the first time.
    pub fn register(&mut self, hash: u64) -> (r: bool)
        ensures
            r == !old(self).view().contains(hash),
            final(self).view() == old(self).view().insert(hash),
    {
        self.known.insert(hash)
    }

    /// The font could not be made known after all, and may be tried again.
    pub fn roll_back(&mut self, hash: u64)
        ensures
            final(self).view() == old(self).view().remove(hash),
    {
        self.known.remove(&hash);
    }
}

} // verus!
