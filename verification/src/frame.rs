//! The window's own state: what it shows, what it knows of the guest, the settings it edits,
//! and what each event from the display bridge or the user does to it.
use vstd::prelude::*;
use crate::geometry::{frame_shape, shape_note, WindowSize};
use crate::input::{
    button_inputs, pointer_inputs, spec_button_inputs, settings_after_keystroke, settings_open_after, spec_key_inputs,
    wheel_inputs, Input, Keys, Keystroke, MouseButton,
};
use crate::settings::{
    cores_down, cores_up, memory_down, memory_options, memory_up, spec_memory_index, Settings,
};
use crate::text::push_str;
use image::RgbaImage;

verus! {

/// A frame made an image the window can draw: an `RgbaImage` of the image crate, a grid of
/// pixels whose type is bound by one of that crate's traits, held here as it is and handed on.
#[verifier::external_body]
pub struct FrameImage {
    pub image: RgbaImage,
}

/// The width and height of an image.
pub uninterp spec fn image_size(image: FrameImage) -> (u32, u32);

/// The bytes an image holds, four for each pixel, row by row.
pub uninterp spec fn image_bytes(image: FrameImage) -> Seq<u8>;

/// `RgbaImage::from_raw`: an image of `width` by `height` RGBA pixels made of the bytes
/// given, which it keeps as they are, and which it has exactly when there are at least four
/// bytes for every pixel.
#[verifier::external_body]
fn rgba_image(width: u32, height: u32, pixels: Vec<u8>) -> (r: Option<FrameImage>)
    ensures
        r is Some <==> 4 * width * height <= pixels@.len(),
        r matches Some(i) ==> image_size(i) == (width, height) && image_bytes(i) == pixels@,
{
    RgbaImage::from_raw(width, height, pixels).map(|image| FrameImage { image })
}

/// The note to log when a frame lands: the new one, when it is a note and not the one logged
/// last.
pub open spec fn note_to_log(last: Option<Seq<char>>, now: Option<Seq<char>>) -> Option<Seq<char>> {
    if now != last {
        now
    } else {
        None
    }
}

/// What the window draws.
#[derive(Clone, Copy, Debug, PartialEq, Eq, Structural)]
pub enum Content {
    /// The settings panel.
    Settings,
    /// A host-drawn pattern in a surface of ours, standing in for the guest.
    Demo,
    /// The guest's last frame.
    Image,
    /// Why there is no guest to show.
    Error,
    /// The guest is on its way.
    Waiting,
}

/// What a click in the settings panel does.
#[derive(Clone, Copy, Debug, PartialEq, Eq, Structural)]
pub enum SettingsAction {
    CoresDown,
    CoresUp,
    MemoryDown,
    MemoryUp,
    ToggleAudio,
    Reset,
}

pub struct FrameState {
    pub settings: Settings,
    pub settings_open: bool,
    pub keys: Keys,
    /// the size of the guest's last frame
    pub surface: (u32, u32),
    pub status: Option<String>,
    pub has_image: bool,
    pub ready: bool,
    pub error: Option<String>,
    pub surface_demo: bool,
    /// the size the window last asked the guest for
    pub wanted: Option<WindowSize>,
    /// the last note of a guest that does not fill the window
    pub shape_note: Option<String>,
}

pub open spec fn opt_view(s: Option<String>) -> Option<Seq<char>> {
    match s {
        Some(s) => Some(s@),
        None => None,
    }
}

pub open spec fn spec_content(settings_open: bool, surface_demo: bool, has_image: bool, ready: bool, has_error: bool) -> Content {
    if settings_open {
        Content::Settings
    } else if surface_demo {
        Content::Demo
    } else if has_image && ready {
        Content::Image
    } else if has_error {
        Content::Error
    } else {
        Content::Waiting
    }
}

/// The line the settings panel shows under its buttons.
pub open spec fn spec_status_line(status: Option<Seq<char>>) -> Seq<char> {
    match status {
        Some(s) => if s.len() == 0 {
            "saved, applied on restart"@
        } else {
            s
        },
        None => "saved, applied on restart"@,
    }
}

/// What a restart tells the user it is doing.
pub open spec fn restart_status(reset: bool) -> Seq<char> {
    if reset {
        "rebuilding the guest disk"@
    } else {
        "restarting the guest"@
    }
}

fn same_note(a: &Option<String>, b: &Option<String>) -> (r: bool)
    ensures
        r == (opt_view(*a) == opt_view(*b)),
{
    match (a, b) {
        (Some(x), Some(y)) => x.eq(y),
        (None, None) => true,
        _ => false,
    }
}

impl FrameState {
    /// The window as it opens: the settings read at start, the bridge's failure to start if
    /// it failed, and nothing of the guest yet.
    pub fn new(settings: Settings, error: Option<String>, surface_demo: bool) -> (r: Self)
        ensures
            r.settings == settings,
            r.error == error,
            r.surface_demo == surface_demo,
            !r.settings_open && !r.has_image && !r.ready,
            r.surface == (0u32, 0u32),
            r.status is None && r.wanted is None && r.shape_note is None,
            !r.keys.capslock,
    {
        FrameState {
            settings,
            settings_open: false,
            keys: Keys::new(),
            surface: (0, 0),
            status: None,
            has_image: false,
            ready: false,
            error,
            surface_demo,
            wanted: None,
            shape_note: None,
        }
    }

    /// What the window draws now.
    pub fn content(&self) -> (r: Content)
        ensures
            r == spec_content(
                self.settings_open,
                self.surface_demo,
                self.has_image,
                self.ready,
                self.error is Some,
            ),
    {
        if self.settings_open {
            Content::Settings
        } else if self.surface_demo {
            Content::Demo
        } else if self.has_image && self.ready {
            Content::Image
        } else if self.error.is_some() {
            Content::Error
        } else {
            Content::Waiting
        }
    }

    /// The window asks the guest for this size.
    pub fn wants(&mut self, size: WindowSize)
        ensures
            final(self).wanted == Some(size),
            final(self).surface == old(self).surface,
            final(self).shape_note == old(self).shape_note,
    {
        self.wanted = Some(size);
    }

    /// A frame of this size is on screen: the note on its shape, when it changed, is what to
    /// log.
    pub fn landed(&mut self, width: u32, height: u32) -> (r: Option<String>)
        ensures
            final(self).surface == (width, height),
            opt_view(final(self).shape_note) == shape_note((width, height), old(self).wanted),
            opt_view(r) == note_to_log(opt_view(old(self).shape_note), shape_note((width, height), old(self).wanted)),
            final(self).wanted == old(self).wanted,
            final(self).error == old(self).error,
            final(self).ready == old(self).ready,
            final(self).has_image == old(self).has_image,
    {
        self.surface = (width, height);
        let note = frame_shape(self.surface, self.wanted);
        if same_note(&note, &self.shape_note) {
            return None;
        }
        let logged = match &note {
            Some(text) => Some(text.clone()),
            None => None,
        };
        self.shape_note = note;
        logged
    }

    /// A frame came over the socket and was made an image (or could not be): it is what the
    /// window shows, and any failure is over.
    pub fn frame_arrived(&mut self, width: u32, height: u32, image: bool) -> (r: Option<String>)
        ensures
            final(self).has_image == image,
            final(self).error is None,
            final(self).surface == (width, height),
            opt_view(final(self).shape_note) == shape_note((width, height), old(self).wanted),
            opt_view(r) == note_to_log(opt_view(old(self).shape_note), shape_note((width, height), old(self).wanted)),
            final(self).ready == old(self).ready,
    {
        self.has_image = image;
        self.error = None;
        self.landed(width, height)
    }

    /// A frame came over the socket: it is made an image of its size, which is what the
    /// window shows from now on, or none when its pixels are too few for that size.
    pub fn image_arrived(&mut self, width: u32, height: u32, pixels: Vec<u8>) -> (r: (
        Option<FrameImage>,
        Option<String>,
    ))
        ensures
            r.0 is Some <==> 4 * width * height <= pixels@.len(),
            r.0 matches Some(i) ==> image_size(i) == (width, height) && image_bytes(i) == pixels@,
            final(self).has_image == r.0 is Some,
            final(self).error is None,
            final(self).surface == (width, height),
            opt_view(final(self).shape_note) == shape_note((width, height), old(self).wanted),
            opt_view(r.1) == note_to_log(opt_view(old(self).shape_note), shape_note((width, height), old(self).wanted)),
            final(self).ready == old(self).ready,
    {
        let image = rgba_image(width, height, pixels);
        let note = self.frame_arrived(width, height, image.is_some());
        (image, note)
    }

    /// A frame landed in a surface of ours of this size.
    pub fn surface_arrived(&mut self, width: u32, height: u32) -> (r: Option<String>)
        ensures
            final(self).error is None,
            final(self).surface == (width, height),
            opt_view(final(self).shape_note) == shape_note((width, height), old(self).wanted),
            opt_view(r) == note_to_log(opt_view(old(self).shape_note), shape_note((width, height), old(self).wanted)),
            final(self).ready == old(self).ready,
            final(self).has_image == old(self).has_image,
    {
        self.error = None;
        self.landed(width, height)
    }

    /// The guest's display service is up.
    pub fn ready_now(&mut self)
        ensures
            final(self).ready,
            final(self).error == old(self).error,
            final(self).has_image == old(self).has_image,
    {
        self.ready = true;
    }

    /// The bridge failed.
    pub fn failed(&mut self, error: String)
        ensures
            final(self).error == Some(error),
            final(self).ready == old(self).ready,
            final(self).has_image == old(self).has_image,
            final(self).surface == old(self).surface,
            final(self).settings_open == old(self).settings_open,
            final(self).wanted == old(self).wanted,
            final(self).shape_note == old(self).shape_note,
            final(self).status == old(self).status,
    {
        self.error = Some(error);
    }

    /// The bridge the window restarted has come up, or failed to.
    pub fn bridge_started(&mut self, failure: Option<String>)
        ensures
            final(self).status is None,
            failure is Some ==> !final(self).ready && final(self).error == failure,
            failure is None ==> final(self).ready == old(self).ready && final(self).error == old(
                self,
            ).error,
    {
        self.status = None;
        if let Some(error) = failure {
            self.ready = false;
            self.error = Some(error);
        }
    }

    /// The guest is being restarted, its disk rebuilt first with `reset`: nothing of the old
    /// one is shown, and the panel says what is going on.
    pub fn restart(&mut self, reset: bool)
        ensures
            !final(self).has_image && !final(self).ready && final(self).error is None,
            opt_view(final(self).status) == Some(restart_status(reset)),
            final(self).settings == old(self).settings,
    {
        self.has_image = false;
        self.ready = false;
        self.error = None;
        let mut status = String::new();
        if reset {
            push_str(&mut status, "rebuilding the guest disk");
        } else {
            push_str(&mut status, "restarting the guest");
        }
        assert(status@ == restart_status(reset));
        self.status = Some(status);
    }

    /// The line the settings panel shows under its buttons.
    pub fn status_line(&self) -> (r: String)
        ensures
            r@ == spec_status_line(opt_view(self.status)),
    {
        match &self.status {
            Some(s) => if s.as_str().is_empty() {
                String::from_str("saved, applied on restart")
            } else {
                s.clone()
            },
            None => String::from_str("saved, applied on restart"),
        }
    }

    /// A keystroke the window saw: the settings toggle opens and closes the panel, escape
    /// closes it.
    pub fn keystroke(&mut self, keystroke: &Keystroke)
        ensures
            final(self).settings_open == settings_open_after(old(self).settings_open, keystroke),
    {
        self.settings_open = settings_after_keystroke(self.settings_open, keystroke);
    }

    /// A key went down or up: what the guest is told of it.
    pub fn key(&mut self, keystroke: &Keystroke, down: bool) -> (r: Vec<Input>)
        ensures
            final(self).settings_open == old(self).settings_open,
            (r@, final(self).keys.held, final(self).keys.capslock) == spec_key_inputs(
                old(self).keys.held,
                old(self).keys.capslock,
                keystroke,
                down,
                old(self).settings_open,
            ),
    {
        let open = self.settings_open;
        self.keys.key(keystroke, down, open)
    }

    /// A click in the settings panel: the settings it changes, and the restart that applies
    /// them, which rebuilds the guest's disk for `Reset`.  The answer is whether it does.
    pub fn act(&mut self, action: SettingsAction, host_cores: u32) -> (reset: bool)
        requires
            action == SettingsAction::CoresUp ==> old(self).settings.cores < u32::MAX,
        ensures
            reset == (action == SettingsAction::Reset),
            final(self).settings.cores == match action {
                SettingsAction::CoresDown => if old(self).settings.cores > 1 {
                    (old(self).settings.cores - 1) as u32
                } else {
                    1
                },
                SettingsAction::CoresUp => if old(self).settings.cores + 1 < host_cores {
                    (old(self).settings.cores + 1) as u32
                } else {
                    host_cores
                },
                _ => old(self).settings.cores,
            },
            final(self).settings.mem@ == match action {
                SettingsAction::MemoryDown => memory_options()[if spec_memory_index(
                    old(self).settings.mem@,
                ) > 0 {
                    spec_memory_index(old(self).settings.mem@) - 1
                } else {
                    0
                }],
                SettingsAction::MemoryUp => memory_options()[if spec_memory_index(
                    old(self).settings.mem@,
                ) + 1 < 7 {
                    spec_memory_index(old(self).settings.mem@) + 1
                } else {
                    6
                }],
                _ => old(self).settings.mem@,
            },
            final(self).settings.audio == if action == SettingsAction::ToggleAudio {
                !old(self).settings.audio
            } else {
                old(self).settings.audio
            },
            !final(self).has_image && !final(self).ready && final(self).error is None,
            opt_view(final(self).status) == Some(restart_status(reset)),
    {
        match action {
            SettingsAction::CoresDown => self.settings.cores = cores_down(self.settings.cores),
            SettingsAction::CoresUp => self.settings.cores = cores_up(self.settings.cores, host_cores),
            SettingsAction::MemoryDown => self.settings.mem = memory_down(self.settings.mem.as_str()),
            SettingsAction::MemoryUp => self.settings.mem = memory_up(self.settings.mem.as_str()),
            SettingsAction::ToggleAudio => self.settings.audio = !self.settings.audio,
            SettingsAction::Reset => {},
        }
        let reset = match action {
            SettingsAction::Reset => true,
            _ => false,
        };
        self.restart(reset);
        reset
    }

    /// A button went down or up over the guest at this place, if the window maps it there.
    pub fn button(&self, button: MouseButton, down: bool, at: Option<(u32, u32)>) -> (r: Vec<Input>)
        ensures
            r@ == spec_button_inputs(self.settings_open, button, down, at),
    {
        button_inputs(self.settings_open, button, down, at)
    }

    /// The pointer moved over the guest to this place, if the window maps it there.
    pub fn pointer(&self, at: Option<(u32, u32)>) -> (r: Vec<Input>)
        ensures
            r@ == if !self.settings_open && at is Some {
                seq![Input::Move { x: (at->0).0, y: (at->0).1 }]
            } else {
                seq![]
            },
    {
        pointer_inputs(self.settings_open, at)
    }

    /// The wheel turned up or down, or not at all.
    pub fn wheel(&self, up: Option<bool>) -> (r: Vec<Input>)
        ensures
            r@ == if !self.settings_open && up is Some {
                seq![Input::Wheel { up: up->0 }]
            } else {
                seq![]
            },
    {
        wheel_inputs(self.settings_open, up)
    }
}

} // verus!
