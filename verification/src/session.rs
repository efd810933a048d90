//! The decisions of the loop that serves the guest's display console: when the guest's display
//! service is up, what the keys, buttons and pointer the window queued become as calls on the
//! console, and when the guest is asked for the window's size and what it is told.
use vstd::prelude::*;
use crate::geometry::{
    clamp_to_display, clamp_fits_the_display, opening_size, spec_clamp_to_display,
    spec_opening_size, WindowSize,
};
use crate::input::{Input, WHEEL_DOWN, WHEEL_UP};
use crate::text::{chars_of, find, find_in};

verus! {

/// How often the guest's log is read for its display service while it is not yet up, in
/// nanoseconds.
pub const POLL_INTERVAL: u64 = 200_000_000;

/// How soon the guest hears about a key, a click or a hand-over the window asked for, in
/// nanoseconds.
pub const INPUT_POLL: u64 = 8_000_000;

/// A call on the console's keyboard or mouse.
#[derive(Clone, Copy, Debug, PartialEq, Eq, Structural)]
pub enum Call {
    KeyPress { code: u32 },
    KeyRelease { code: u32 },
    MousePress { button: u32 },
    MouseRelease { button: u32 },
    MoveTo { x: u32, y: u32 },
}

pub open spec fn key_call(code: u32, down: bool) -> Call {
    if down {
        Call::KeyPress { code }
    } else {
        Call::KeyRelease { code }
    }
}

pub open spec fn button_call(button: u32, down: bool) -> Call {
    if down {
        Call::MousePress { button }
    } else {
        Call::MouseRelease { button }
    }
}

/// What is left to send once the queue is drained: the last place the pointer moved to,
/// then one notch of the last way the wheel turned, pressed and released.
pub open spec fn plan_tail(pointer: Option<(u32, u32)>, wheel: Option<bool>) -> Seq<Call> {
    (match pointer {
        Some(p) => seq![Call::MoveTo { x: p.0, y: p.1 }],
        None => seq![],
    }) + (match wheel {
        Some(up) => {
            let b = if up {
                WHEEL_UP
            } else {
                WHEEL_DOWN
            };
            seq![Call::MousePress { button: b }, Call::MouseRelease { button: b }]
        },
        None => seq![],
    })
}

/// The calls a queue of input comes to.  Keys go out as they come; moves of the pointer are
/// folded into the last one, sent just before the next button or at the end; turns of the
/// wheel are folded into one notch, sent at the end.
pub open spec fn plan_from(events: Seq<Input>, pointer: Option<(u32, u32)>, wheel: Option<bool>) -> Seq<Call>
    decreases events.len(),
{
    if events.len() == 0 {
        plan_tail(pointer, wheel)
    } else {
        let rest = events.drop_first();
        match events[0] {
            Input::Key { code, down } => seq![key_call(code, down)] + plan_from(rest, pointer, wheel),
            Input::Button { button, down } => (match pointer {
                Some(p) => seq![Call::MoveTo { x: p.0, y: p.1 }],
                None => seq![],
            }) + seq![button_call(button, down)] + plan_from(rest, None, wheel),
            Input::Move { x, y } => plan_from(rest, Some((x, y)), wheel),
            Input::Wheel { up } => plan_from(rest, pointer, Some(up)),
        }
    }
}

pub open spec fn plan(events: Seq<Input>) -> Seq<Call> {
    plan_from(events, None, None)
}

/// The calls a queue of input comes to, in the order they go out.
pub fn plan_input(events: &[Input]) -> (r: Vec<Call>)
    ensures
        r@ == plan(events@),
{
    let mut calls: Vec<Call> = Vec::new();
    let mut pointer: Option<(u32, u32)> = None;
    let mut wheel: Option<bool> = None;
    let mut i: usize = 0;
    assert(events@.skip(0) == events@);
    while i < events.len()
        invariant
            i <= events@.len(),
            calls@ + plan_from(events@.skip(i as int), pointer, wheel) == plan(events@),
        decreases events@.len() - i,
    {
        let ghost before = calls@;
        let ghost rest = events@.skip(i as int);
        assert(rest.drop_first() == events@.skip(i + 1));
        assert(rest[0] == events@[i as int]);
        match events[i] {
            Input::Key { code, down } => {
                if down {
                    calls.push(Call::KeyPress { code });
                } else {
                    calls.push(Call::KeyRelease { code });
                }
                assert(calls@ == before + seq![key_call(code, down)]);
            },
            Input::Button { button, down } => {
                if let Some((x, y)) = pointer {
                    calls.push(Call::MoveTo { x, y });
                }
                pointer = None;
                if down {
                    calls.push(Call::MousePress { button });
                } else {
                    calls.push(Call::MouseRelease { button });
                }
            },
            Input::Move { x, y } => {
                pointer = Some((x, y));
            },
            Input::Wheel { up } => {
                wheel = Some(up);
            },
        }
        i = i + 1;
    }
    let ghost before = calls@;
    if let Some((x, y)) = pointer {
        calls.push(Call::MoveTo { x, y });
    }
    if let Some(up) = wheel {
        let b = if up {
            WHEEL_UP
        } else {
            WHEEL_DOWN
        };
        calls.push(Call::MousePress { button: b });
        calls.push(Call::MouseRelease { button: b });
    }
    assert(calls@ =~= before + plan_tail(pointer, wheel));
    calls
}

/// A button goes out where the pointer was last moved to before it, pressed or released:
/// the pending move is sent first, then the button, and after it nothing of that move is left.
pub proof fn a_button_goes_out_where_the_pointer_was_moved(
    x: u32,
    y: u32,
    button: u32,
    down: bool,
    rest: Seq<Input>,
    pointer: (u32, u32),
    wheel: Option<bool>,
)
    ensures
        plan(seq![Input::Move { x, y }, Input::Button { button, down }]) == seq![
            Call::MoveTo { x, y },
            if down {
                Call::MousePress { button }
            } else {
                Call::MouseRelease { button }
            },
        ],
        plan_from(seq![Input::Button { button, down }] + rest, Some(pointer), wheel) == seq![
            Call::MoveTo { x: pointer.0, y: pointer.1 },
            if down {
                Call::MousePress { button }
            } else {
                Call::MouseRelease { button }
            },
        ] + plan_from(rest, None, wheel),
{
    let two = seq![Input::Move { x, y }, Input::Button { button, down }];
    let one = seq![Input::Button { button, down }];
    let none = Seq::<Input>::empty();
    assert(two.drop_first() =~= one);
    assert(one.drop_first() =~= none);
    assert(two[0] == Input::Move { x, y });
    assert(one[0] == Input::Button { button, down });
    assert(plan_from(none, None, None) =~= Seq::<Call>::empty());
    assert(plan_from(one, Some((x, y)), None) =~= seq![Call::MoveTo { x, y }] + seq![
        button_call(button, down),
    ] + plan_from(none, None, None));
    assert(plan_from(two, None, None) == plan_from(one, Some((x, y)), None));
    let s = seq![Input::Button { button, down }] + rest;
    assert(s[0] == Input::Button { button, down });
    assert(s.drop_first() =~= rest);
}

/// What the console is told of the window: its physical size, its size in pixels (at the
/// corner of the display, so no offset), and the rate the panel refreshes at, in millihertz,
/// when it is known.
#[derive(Clone, Copy, Debug, PartialEq, Eq, Structural)]
pub struct UiRequest {
    pub width_mm: u16,
    pub height_mm: u16,
    pub width: u32,
    pub height: u32,
    pub refresh_rate: Option<u32>,
}

/// Whether the guest is asked for the window's size, and what it is told: the window follows
/// only once its size holds still and differs from the last one asked for, the guest opens at
/// the device's size until its display service is up, and the size in pixels is the window's
/// shape scaled into the display the device advertises.
pub open spec fn spec_ui_request(
    wanted: Option<WindowSize>,
    landed: bool,
    ready: bool,
    display: (u32, u32),
    requested: Option<WindowSize>,
    panel: u32,
) -> Option<(UiRequest, WindowSize)> {
    match wanted {
        Some(w) => {
            let size = spec_opening_size(w, display, ready);
            if landed && requested != Some(size) {
                let px = spec_clamp_to_display((size.width, size.height), display);
                Some(
                    (
                        UiRequest {
                            width_mm: size.width_mm,
                            height_mm: size.height_mm,
                            width: px.0,
                            height: px.1,
                            refresh_rate: if panel != 0 {
                                Some(panel)
                            } else {
                                None
                            },
                        },
                        size,
                    ),
                )
            } else {
                None
            }
        },
        None => None,
    }
}

/// The request to send, if any, and the size it stands for, which is what was last asked for
/// once it has gone out.
pub fn ui_request(
    wanted: Option<WindowSize>,
    landed: bool,
    ready: bool,
    display: (u32, u32),
    requested: Option<WindowSize>,
    panel: u32,
) -> (r: Option<(UiRequest, WindowSize)>)
    ensures
        r == spec_ui_request(wanted, landed, ready, display, requested, panel),
{
    let w = match wanted {
        Some(w) => w,
        None => return None,
    };
    let size = opening_size(w, display, ready);
    let again = match requested {
        Some(last) => last == size,
        None => false,
    };
    if !landed || again {
        return None;
    }
    let (width, height) = clamp_to_display((size.width, size.height), display);
    Some(
        (
            UiRequest {
                width_mm: size.width_mm,
                height_mm: size.height_mm,
                width,
                height,
                refresh_rate: if panel != 0 {
                    Some(panel)
                } else {
                    None
                },
            },
            size,
        ),
    )
}

/// The guest is never told the same thing twice: once a request has gone out for a size, the
/// same window asks for nothing more until it changes.
pub proof fn identical_info_is_never_sent_twice(
    wanted: Option<WindowSize>,
    landed: bool,
    ready: bool,
    display: (u32, u32),
    requested: Option<WindowSize>,
    panel: u32,
)
    ensures
        spec_ui_request(wanted, landed, ready, display, requested, panel) matches Some((_, size))
            ==> spec_ui_request(wanted, landed, ready, display, Some(size), panel) is None,
{
}

/// What the guest is asked for stays inside the display the device advertises: past it, the
/// guest would drop the mode and settle on another shape.
pub proof fn the_request_stays_inside_the_device(
    wanted: Option<WindowSize>,
    landed: bool,
    ready: bool,
    display: (u32, u32),
    requested: Option<WindowSize>,
    panel: u32,
)
    requires
        display.0 >= 1,
        display.1 >= 1,
        wanted matches Some(w) && w.width >= 1 && w.height >= 1,
    ensures
        spec_ui_request(wanted, landed, ready, display, requested, panel) matches Some((r, _))
            ==> 1 <= r.width <= display.0 && 1 <= r.height <= display.1,
{
    let w = wanted->0;
    let size = spec_opening_size(w, display, ready);
    clamp_fits_the_display((size.width, size.height), display);
}

/// The line the guest's display service writes to the serial log once it is up.
pub open spec fn ready_marker() -> Seq<char> {
    seq!['T', 'R', 'Y', '_', 'D', 'I', 'S', 'P', 'L', 'A', 'Y', '_', 'R', 'E', 'A', 'D', 'Y', '=', '1']
}

/// Whether the guest's serial log says its display service is up.
pub fn log_says_ready(log: &str) -> (r: bool)
    ensures
        r == (find(log@, ready_marker()) is Some),
{
    let marker = ['T', 'R', 'Y', '_', 'D', 'I', 'S', 'P', 'L', 'A', 'Y', '_', 'R', 'E', 'A', 'D', 'Y', '=', '1'];
    assert(marker@ == ready_marker());
    let text = chars_of(log);
    find_in(text.as_slice(), &marker).is_some()
}

/// Whether it is time to read the guest's log again: only until the service is up, and no
/// more often than `POLL_INTERVAL`.
pub fn poll_due(ready: bool, since_poll: u64) -> (r: bool)
    ensures
        r == (!ready && since_poll >= POLL_INTERVAL),
{
    !ready && since_poll >= POLL_INTERVAL
}

} // verus!
