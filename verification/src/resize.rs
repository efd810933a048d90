//! The window's size, and when it last changed.  Both halves of a resize read it: the frame
//! is blurred while a drag is still moving the window, and the display bridge waits for the
//! size to hold still before it asks the guest for it, because the guest re-reads its EDID and
//! re-applies its mode for every size it is told.  The blur outlasts the request: the guest
//! needs a moment to re-mode, and only then does it send a frame that size.
//!
//! Times are nanoseconds on one clock that never goes back, however the caller reads it.
use vstd::prelude::*;
use crate::geometry::WindowSize;

verus! {

/// How long the size has to hold still before the guest is asked for it.
pub const RESIZE_SETTLE: u64 = 150_000_000;

/// How long the blur stays up after the size last changed.
pub const BLUR_HOLD: u64 = 500_000_000;

/// How long the blur takes to come up, and to let go.
pub const BLUR_FADE: u64 = 60_000_000;

pub struct Resize {
    pub size: Option<WindowSize>,
    pub since: Option<u64>,
    /// when the drag in flight started, which is what the blur ramps up over
    pub drag: Option<u64>,
}

impl Resize {
    /// How long the size has held, or nothing before there is one.
    pub open spec fn held_for(&self, now: u64) -> u64 {
        match self.since {
            Some(since) => if now >= since {
                (now - since) as u64
            } else {
                0
            },
            None => 0,
        }
    }

    pub open spec fn is_dragging(&self, now: u64) -> bool {
        self.drag is Some && self.held_for(now) < BLUR_HOLD
    }

    pub open spec fn has_landed(&self, now: u64) -> bool {
        self.size is Some && self.held_for(now) >= RESIZE_SETTLE
    }

    /// How far the blur has come up, out of `BLUR_FADE`: it rises from the start of the drag
    /// and falls towards the end of the hold, whichever is nearer.
    pub open spec fn blur_ramp(&self, now: u64) -> Option<u64> {
        if !self.is_dragging(now) {
            None
        } else {
            let left = BLUR_HOLD - self.held_for(now);
            let drag = self.drag->0;
            let up = if now >= drag {
                now - drag
            } else {
                0
            };
            let nearer = if up < left {
                up
            } else {
                left
            };
            Some(
                if nearer < BLUR_FADE {
                    nearer as u64
                } else {
                    BLUR_FADE
                },
            )
        }
    }

    /// The window is this size now.  A size it moves to while the blur is still up is the
    /// same drag; one that arrives after it has cleared starts a new one; and the size it
    /// opened at is no drag at all.
    pub open spec fn after_change(self, size: WindowSize, now: u64) -> Resize {
        if self.size == Some(size) {
            self
        } else {
            Resize {
                size: Some(size),
                since: Some(now),
                drag: if self.size is Some && (self.drag is None || self.held_for(now)
                    >= BLUR_HOLD) {
                    Some(now)
                } else {
                    self.drag
                },
            }
        }
    }

    pub fn new() -> (r: Self)
        ensures
            r.size is None && r.since is None && r.drag is None,
    {
        Resize { size: None, since: None, drag: None }
    }

    pub fn changed(&mut self, size: WindowSize, now: u64)
        ensures
            *final(self) == old(self).after_change(size, now),
    {
        let same = match self.size {
            Some(current) => current == size,
            None => false,
        };
        if same {
            return;
        }
        if self.size.is_some() && (self.drag.is_none() || self.unchanged_for(now) >= BLUR_HOLD) {
            self.drag = Some(now);
        }
        self.size = Some(size);
        self.since = Some(now);
    }

    pub fn size(&self) -> (r: Option<WindowSize>)
        ensures
            r == self.size,
    {
        self.size
    }

    pub fn dragging(&self, now: u64) -> (r: bool)
        ensures
            r == self.is_dragging(now),
    {
        self.drag.is_some() && self.unchanged_for(now) < BLUR_HOLD
    }

    /// How far to blur the frame, out of `BLUR_FADE`, or nothing when there is no drag to
    /// cover.
    pub fn blur(&self, now: u64) -> (r: Option<u64>)
        ensures
            r == self.blur_ramp(now),
    {
        if !self.dragging(now) {
            return None;
        }
        let left = BLUR_HOLD - self.unchanged_for(now);
        let drag = match self.drag {
            Some(drag) => drag,
            None => return None,
        };
        let up = now.saturating_sub(drag);
        let nearer = if up < left {
            up
        } else {
            left
        };
        Some(
            if nearer < BLUR_FADE {
                nearer
            } else {
                BLUR_FADE
            },
        )
    }

    pub fn landed(&self, now: u64) -> (r: bool)
        ensures
            r == self.has_landed(now),
    {
        self.size.is_some() && self.unchanged_for(now) >= RESIZE_SETTLE
    }

    pub fn unchanged_for(&self, now: u64) -> (r: u64)
        ensures
            r == self.held_for(now),
    {
        match self.since {
            Some(since) => now.saturating_sub(since),
            None => 0,
        }
    }
}

/// A size the window repeats changes nothing: the drag has not moved on.
pub proof fn a_repeated_size_holds_nothing(r: Resize, size: WindowSize, now: u64)
    requires
        r.size == Some(size),
    ensures
        r.after_change(size, now) == r,
{
}

/// The size the window opens at is where it started, not a drag: there is no blur for it.
pub proof fn the_opening_size_is_no_drag(size: WindowSize, at: u64, now: u64)
    ensures
        ({
            let opened = (Resize { size: None, since: None, drag: None }).after_change(size, at);
            &&& opened.size == Some(size)
            &&& !opened.is_dragging(now)
            &&& opened.blur_ramp(now) is None
        }),
{
}

/// The guest is asked only for a size that has held still, and the blur is gone once the
/// size has held for `BLUR_HOLD`: it clears itself.
pub proof fn the_blur_clears_itself(r: Resize, now: u64)
    ensures
        r.has_landed(now) ==> r.size is Some && r.held_for(now) >= RESIZE_SETTLE,
        r.since is Some && now >= r.since->0 + BLUR_HOLD ==> !r.is_dragging(now) && r.blur_ramp(
            now,
        ) is None,
        r.blur_ramp(now) matches Some(b) ==> b <= BLUR_FADE,
{
}

/// A size the window moves to while a drag is on starts or carries a drag, and once it has
/// held still for `RESIZE_SETTLE` the guest is asked for it while the blur is still up.
pub proof fn the_guest_is_asked_while_the_blur_is_up(r: Resize, size: WindowSize, at: u64)
    requires
        r.size is Some,
        r.size != Some(size),
        at + RESIZE_SETTLE <= u64::MAX,
    ensures
        ({
            let moved = r.after_change(size, at);
            &&& moved.is_dragging(at)
            &&& moved.has_landed((at + RESIZE_SETTLE) as u64)
            &&& moved.is_dragging((at + RESIZE_SETTLE) as u64)
            &&& !moved.has_landed(at)
        }),
{
}

/// One drag is one ramp of the blur: a new size while the blur is still up carries on the drag
/// in flight, a new size once it has cleared (or before any drag) starts a drag there and
/// then, and the first size the window has starts none.  Whatever the size, it becomes the
/// window's, held from now.
pub proof fn a_drag_keeps_its_start_while_the_blur_is_up(r: Resize, size: WindowSize, now: u64)
    ensures
        r.size != Some(size) ==> r.after_change(size, now).size == Some(size) && r.after_change(
            size,
            now,
        ).since == Some(now),
        r.size is Some && r.size != Some(size) && r.drag is Some && r.held_for(now) < BLUR_HOLD
            ==> r.after_change(size, now).drag == r.drag,
        r.size is Some && r.size != Some(size) && (r.drag is None || r.held_for(now) >= BLUR_HOLD)
            ==> r.after_change(size, now).drag == Some(now),
        r.size is None ==> r.after_change(size, now).drag == r.drag,
{
}

} // verus!
