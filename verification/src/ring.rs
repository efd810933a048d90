//! The surfaces the console reads its frames back into instead of sending them over the
//! socket.  There is more than one because the window draws one of them: the console writes
//! into the next while the window still holds the last, and the one after that is the slack
//! between them, which is what keeps a frame from being drawn as it is being written.
//!
//! The ring is only advanced when a surface has actually been handed over, so a burst of
//! frames arriving before the hand-off cannot walk it past a surface the console still
//! writes into.
//!
//! The surfaces themselves are whatever the caller makes them of; the ring decides which one
//! the console writes into and which one the window shows.
use vstd::prelude::*;

verus! {

/// How many surfaces a ring holds.
pub const RING: usize = 3;

pub struct Ring<S> {
    surfaces: Vec<S>,
    names: Vec<String>,
    width: u32,
    height: u32,
    /// the surface the console holds, or none before it has been given one
    handed: Option<usize>,
    /// the last surface a frame landed in, which is what the window draws
    ready: Option<usize>,
    /// The last frame of the ring before this one.  The console is asked for a size before
    /// it is at that size, so there is a while where no surface of the new ring has been
    /// written into: the window goes on drawing the frame it has.
    shown: Option<S>,
    /// the console is owed a surface
    wanted: bool,
}

/// A ring as the rest of the library reasons about it.
pub struct RingModel<S> {
    pub surfaces: Seq<S>,
    pub names: Seq<Seq<char>>,
    pub width: u32,
    pub height: u32,
    pub handed: Option<int>,
    pub ready: Option<int>,
    pub shown: Option<S>,
    pub wanted: bool,
}

impl<S> RingModel<S> {
    /// The ring's invariant: a surface for every name, a whole ring or none, and the console
    /// never writing into the surface the window shows once it has been handed one.
    pub open spec fn wf(self) -> bool {
        &&& self.surfaces.len() == self.names.len()
        &&& (self.surfaces.len() == 0 || self.surfaces.len() == RING)
        &&& (self.handed matches Some(i) ==> 0 <= i < self.surfaces.len())
        &&& (self.ready matches Some(i) ==> 0 <= i < self.surfaces.len())
        &&& (self.surfaces.len() == 0 ==> self.handed is None && self.ready is None)
        &&& (!self.wanted && self.surfaces.len() > 0 ==> self.handed is Some && self.ready
            != self.handed)
        &&& (self.wanted ==> self.ready == self.handed)
    }

    /// The frame the window draws: the last surface a frame landed in, or the last frame of
    /// the ring before.
    pub open spec fn showing(self) -> Option<S> {
        match self.ready {
            Some(i) => Some(self.surfaces[i]),
            None => self.shown,
        }
    }

    /// A frame landed in the surface the console holds: it is what the window shows now,
    /// and the console is owed the next one.
    pub open spec fn after_landing(self) -> Self {
        match self.handed {
            Some(h) => RingModel { ready: Some(h), shown: None, wanted: true, ..self },
            None => self,
        }
    }

    /// The surface the console is handed next.
    pub open spec fn next_handed(self) -> int {
        match self.handed {
            Some(i) => (i + 1) % (RING as int),
            None => 0,
        }
    }

    /// Whether the console is owed a surface it can be given.
    pub open spec fn owed(self) -> bool {
        self.wanted && self.surfaces.len() == RING
    }

    /// The ring once the console has been handed the surface it is owed.
    pub open spec fn after_request(self) -> Self {
        if self.owed() {
            RingModel { wanted: false, handed: Some(self.next_handed()), ..self }
        } else {
            self
        }
    }

    /// The name of the surface the console is handed, when it is owed one.
    pub open spec fn request(self) -> Option<Seq<char>> {
        if self.owed() {
            Some(self.names[self.next_handed()])
        } else {
            None
        }
    }

    /// A whole ring of this size is in place.
    pub open spec fn holds(self, width: u32, height: u32) -> bool {
        self.surfaces.len() == RING && self.width == width && self.height == height
    }

    /// The ring made anew from these surfaces, with the frame the window was drawing kept up
    /// until a surface of it has been written into.
    pub open spec fn installed(self, surfaces: Seq<S>, names: Seq<Seq<char>>, width: u32, height: u32) -> Self {
        RingModel {
            surfaces,
            names,
            width,
            height,
            handed: None,
            ready: None,
            shown: match self.ready {
                Some(i) => Some(self.surfaces[i]),
                None => None,
            },
            wanted: true,
        }
    }
}

impl<S> View for Ring<S> {
    type V = RingModel<S>;

    closed spec fn view(&self) -> RingModel<S> {
        RingModel {
            surfaces: self.surfaces@,
            names: self.names@.map_values(|s: String| s@),
            width: self.width,
            height: self.height,
            handed: match self.handed {
                Some(i) => Some(i as int),
                None => None,
            },
            ready: match self.ready {
                Some(i) => Some(i as int),
                None => None,
            },
            shown: self.shown,
            wanted: self.wanted,
        }
    }
}

impl<S> Ring<S> {
    /// An empty ring: no surfaces, and nothing owed to the console.
    pub fn new() -> (r: Self)
        ensures
            r@.wf(),
            r@.surfaces.len() == 0,
            r@.width == 0 && r@.height == 0,
            r@.shown is None,
            !r@.wanted,
    {
        let r = Ring {
            surfaces: Vec::new(),
            names: Vec::new(),
            width: 0,
            height: 0,
            handed: None,
            ready: None,
            shown: None,
            wanted: false,
        };
        assert(r@.names =~= Seq::<Seq<char>>::empty());
        r
    }

    pub fn size(&self) -> (r: (u32, u32))
        ensures
            r == (self@.width, self@.height),
    {
        (self.width, self.height)
    }

    /// The frame the window draws, if there is one.
    pub fn ready(&self) -> (r: Option<&S>)
        requires
            self@.wf(),
        ensures
            r matches Some(s) ==> self@.showing() == Some(*s),
            r is None ==> self@.showing() is None,
    {
        match self.ready {
            Some(index) => Some(&self.surfaces[index]),
            None => self.shown.as_ref(),
        }
    }

    /// The surface the console holds, if it has been given one.
    pub fn handed(&self) -> (r: Option<&S>)
        requires
            self@.wf(),
        ensures
            r matches Some(s) ==> self@.handed matches Some(i) && self@.surfaces[i] == *s,
            r is None ==> self@.handed is None,
    {
        match self.handed {
            Some(index) => Some(&self.surfaces[index]),
            None => None,
        }
    }

    /// A frame landed in the surface the console holds: it is what the window shows now.
    pub fn landed(&mut self)
        requires
            old(self)@.wf(),
        ensures
            final(self)@ == old(self)@.after_landing(),
            final(self)@.wf(),
    {
        if let Some(handed) = self.handed {
            self.ready = Some(handed);
            self.shown = None;
            self.wanted = true;
        }
    }

    /// The console is about to be this size: whether the ring has to be made that size
    /// first, so the frames it sends on its way to the new mode land in a surface of ours.
    pub fn rebuild(&self, width: u32, height: u32) -> (r: bool)
        ensures
            r == !(self@.width == width && self@.height == height),
    {
        !(self.width == width && self.height == height)
    }

    /// A frame still came over the socket, which it does whenever the console has no surface
    /// of ours or one that is not this size: whether a ring has to be made for it.
    pub fn software_frame(&self, width: u32, height: u32) -> (r: bool)
        ensures
            r == !self@.holds(width, height),
    {
        !(self.surfaces.len() == RING && self.width == width && self.height == height)
    }

    /// The name of the surface the console must be given, or nothing when it already holds
    /// the right one.
    pub fn take_request(&mut self) -> (r: Option<String>)
        requires
            old(self)@.wf(),
        ensures
            final(self)@ == old(self)@.after_request(),
            match r {
                Some(name) => old(self)@.request() == Some(name@),
                None => old(self)@.request() is None,
            },
            final(self)@.wf(),
    {
        if !self.wanted || self.surfaces.len() != RING {
            return None;
        }
        self.wanted = false;
        let next: usize = match self.handed {
            None => 0,
            Some(index) => (index + 1) % RING,
        };
        self.handed = Some(next);
        let name = self.names[next].clone();
        assert(self@.names[next as int] == self.names@[next as int]@);
        Some(name)
    }

    /// The ring made anew from these surfaces and the names the console knows them by.
    pub fn install(&mut self, surfaces: Vec<S>, names: Vec<String>, width: u32, height: u32)
        requires
            old(self)@.wf(),
            surfaces@.len() == RING,
            names@.len() == RING,
        ensures
            final(self)@ == old(self)@.installed(
                surfaces@,
                names@.map_values(|s: String| s@),
                width,
                height,
            ),
            final(self)@.wf(),
    {
        let mut previous = surfaces;
        std::mem::swap(&mut self.surfaces, &mut previous);
        let shown = match self.ready {
            Some(index) => Some(previous.swap_remove(index)),
            None => None,
        };
        self.names = names;
        self.width = width;
        self.height = height;
        self.handed = None;
        self.ready = None;
        self.shown = shown;
        self.wanted = true;
    }
}

/// Once the console has been handed a surface, the window never shows the surface it is
/// writing into: every state a ring reaches keeps its invariant, and in every one where the
/// console owes the window a frame, what the window shows is another surface.
pub proof fn the_window_never_shows_the_surface_being_written<S>(r: RingModel<S>)
    requires
        r.wf(),
    ensures
        r.after_landing().wf(),
        r.after_request().wf(),
        r.request() is Some ==> r.after_request().ready != r.after_request().handed,
        !r.wanted && r.surfaces.len() > 0 ==> r.ready != r.handed,
{
}

/// Making a ring anew keeps the invariant, owes the console a surface, and keeps the frame
/// the window was drawing up until a surface of the new ring is written into.
pub proof fn a_new_ring_keeps_the_frame_on_screen<S>(
    r: RingModel<S>,
    surfaces: Seq<S>,
    names: Seq<Seq<char>>,
    width: u32,
    height: u32,
)
    requires
        r.wf(),
        surfaces.len() == RING,
        names.len() == RING,
    ensures
        r.installed(surfaces, names, width, height).wf(),
        r.installed(surfaces, names, width, height).owed(),
        r.ready is Some ==> r.installed(surfaces, names, width, height).showing() == r.showing(),
{
}

/// Frames that land before the hand-off do not walk the ring: landing again changes nothing,
/// and the frame shown stays the one that landed first.
pub proof fn landing_twice_is_landing_once<S>(r: RingModel<S>)
    requires
        r.wf(),
    ensures
        r.after_landing().after_landing() == r.after_landing(),
{
}

/// The console is handed each surface of the ring in turn, and never the one it held.
pub proof fn the_console_is_handed_the_next_surface<S>(r: RingModel<S>)
    requires
        r.wf(),
        r.owed(),
    ensures
        r.after_request().handed == Some(r.next_handed()),
        r.handed matches Some(i) ==> r.after_request().handed != Some(i),
        0 <= r.next_handed() < RING,
{
}

/// A ring holds only the size it was made at: a ring made at `width` by `height` holds that
/// size and no other, so a frame of any other width or height asks for a new ring, and an
/// empty ring holds none.
pub proof fn a_ring_holds_only_its_own_size<S>(
    r: RingModel<S>,
    surfaces: Seq<S>,
    names: Seq<Seq<char>>,
    width: u32,
    height: u32,
    w: u32,
    h: u32,
)
    requires
        surfaces.len() == RING,
    ensures
        r.installed(surfaces, names, width, height).holds(w, h) <==> (w == width && h == height),
        r.holds(w, h) ==> r.width == w && r.height == h && r.surfaces.len() == RING,
        r.surfaces.len() == 0 ==> !r.holds(w, h),
{
}

} // verus!
