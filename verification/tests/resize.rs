use try_ui::geometry::{describe_window, WindowSize};
use try_ui::resize::{Resize, BLUR_FADE, BLUR_HOLD, RESIZE_SETTLE};

const MS: u64 = 1_000_000;

/// The window as the app describes it, from its size in points and its scale factor.
fn window_size(width: f64, height: f64, factor: f64) -> WindowSize {
    let divisor = if factor > 1.75 {
        2
    } else if factor > 1.25 {
        3
    } else {
        1
    };
    let cm = |value: f64| (value * 2.54 / 110.0).round().clamp(1.0, 255.0) as u16;
    describe_window(cm(width), cm(height), (width * factor) as u32, (height * factor) as u32, divisor)
}

fn ask(resize: &mut Resize, asked: &mut Option<WindowSize>, size: WindowSize, now: u64) -> bool {
    resize.changed(size, now);
    if resize.landed(now) && *asked != Some(size) {
        *asked = Some(size);
        return true;
    }
    false
}

#[test]
fn a_drag_asks_for_one_resize_at_the_size_it_lands_on() {
    let mut resize = Resize::new();
    let mut asked = None;
    let start = 1_000 * MS;
    for step in 0..39u32 {
        let size = window_size(800.0 + step as f64 * 4.0, 600.0, 2.0);
        let at = start + u64::from(step) * 10 * MS;
        assert!(
            !ask(&mut resize, &mut asked, size, at),
            "a drag asked for a resize mid-flight"
        );
    }
    let landed = window_size(956.0, 600.0, 2.0);
    let at = start + 400 * MS;
    assert!(!ask(&mut resize, &mut asked, landed, at));
    assert!(ask(&mut resize, &mut asked, landed, at + RESIZE_SETTLE));
    assert!(!ask(&mut resize, &mut asked, landed, at + RESIZE_SETTLE * 2));
    assert_eq!(asked, Some(landed));
}

#[test]
fn a_resize_blurs_and_then_clears_itself() {
    let size = |width: f64| window_size(width, 600.0, 1.0);
    let start = 1_000 * MS;
    let mut resize = Resize::new();

    /* the size the window opens at is where it started, not a drag */
    let mut asked = None;
    assert!(!ask(&mut resize, &mut asked, size(800.0), start));
    assert!(!resize.dragging(start));

    resize.changed(size(804.0), start);
    assert!(resize.dragging(start));
    assert!(
        resize.landed(start + RESIZE_SETTLE),
        "the guest has to be asked while the blur is still up"
    );

    /* a size the window repeats holds nothing: the drag has not moved on */
    resize.changed(size(804.0), start + BLUR_HOLD / 2);
    assert!(resize.dragging(start + BLUR_HOLD - MS));
    assert!(!resize.dragging(start + BLUR_HOLD));

    /* a size it moves on to holds it from the moment it moved */
    resize.changed(size(900.0), start + BLUR_HOLD / 2);
    assert!(resize.dragging(start + BLUR_HOLD));
    assert!(!resize.dragging(start + BLUR_HOLD + BLUR_HOLD / 2));
}

#[test]
fn the_blur_comes_up_and_lets_go_over_a_few_frames() {
    let size = |width: f64| window_size(width, 600.0, 1.0);
    let start = 1_000 * MS;
    let mut resize = Resize::new();

    let mut asked = None;
    ask(&mut resize, &mut asked, size(800.0), start);
    assert_eq!(resize.blur(start), None, "the size the window opened at is no drag");

    resize.changed(size(804.0), start);
    assert_eq!(resize.blur(start), Some(0));
    let coming_up = resize.blur(start + BLUR_FADE / 2).unwrap();
    assert!(coming_up > 0 && coming_up < BLUR_FADE);
    assert_eq!(resize.blur(start + BLUR_FADE), Some(BLUR_FADE));

    /* the ramp is only at the ends: a drag still moving is blurred the whole way */
    resize.changed(size(900.0), start + BLUR_HOLD / 2);
    assert_eq!(resize.blur(start + BLUR_HOLD / 2 + BLUR_FADE), Some(BLUR_FADE));

    let going_away = resize.blur(start + BLUR_HOLD / 2 + BLUR_HOLD - BLUR_FADE / 2).unwrap();
    assert!(going_away > 0 && going_away < BLUR_FADE);
    assert_eq!(resize.blur(start + BLUR_HOLD / 2 + BLUR_HOLD), None);
}

#[test]
fn the_size_holds_for_as_long_as_it_has_not_changed() {
    let mut resize = Resize::new();
    assert_eq!(resize.unchanged_for(5 * MS), 0);
    assert!(!resize.landed(5 * MS));
    let size = window_size(800.0, 600.0, 1.0);
    resize.changed(size, 10 * MS);
    assert_eq!(resize.size(), Some(size));
    assert_eq!(resize.unchanged_for(25 * MS), 15 * MS);
    /* a clock read before the change counts as no time at all */
    assert_eq!(resize.unchanged_for(5 * MS), 0);
    assert!(!resize.landed(10 * MS + RESIZE_SETTLE - 1));
    assert!(resize.landed(10 * MS + RESIZE_SETTLE));
}
