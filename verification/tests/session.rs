use try_ui::geometry::WindowSize;
use try_ui::input::Input;
use try_ui::session::{log_says_ready, plan_input, poll_due, ui_request, Call, UiRequest, POLL_INTERVAL};

fn size(width: u32, height: u32) -> WindowSize {
    WindowSize { width_mm: 340, height_mm: 220, width, height }
}

#[test]
fn moves_fold_into_the_last_one_before_a_button() {
    let calls = plan_input(&[
        Input::Move { x: 1, y: 1 },
        Input::Key { code: 0x1e, down: true },
        Input::Move { x: 2, y: 2 },
        Input::Button { button: 0, down: true },
        Input::Button { button: 0, down: false },
        Input::Wheel { up: true },
        Input::Move { x: 3, y: 3 },
        Input::Wheel { up: false },
        Input::Key { code: 0x1e, down: false },
    ]);
    assert_eq!(
        calls,
        vec![
            Call::KeyPress { code: 0x1e },
            Call::MoveTo { x: 2, y: 2 },
            Call::MousePress { button: 0 },
            Call::MouseRelease { button: 0 },
            Call::KeyRelease { code: 0x1e },
            Call::MoveTo { x: 3, y: 3 },
            Call::MousePress { button: 4 },
            Call::MouseRelease { button: 4 },
        ]
    );
    assert!(plan_input(&[]).is_empty());
}

#[test]
fn the_guest_opens_at_the_device_size_and_is_asked_once() {
    let window = size(1512, 1004);
    let display = (2560, 1440);
    assert_eq!(ui_request(None, true, true, display, None, 120_000), None);
    assert_eq!(ui_request(Some(window), false, true, display, None, 120_000), None);
    let (opening, asked) = ui_request(Some(window), true, false, display, None, 0).unwrap();
    assert_eq!(
        opening,
        UiRequest { width_mm: 340, height_mm: 220, width: 2560, height: 1440, refresh_rate: None }
    );
    assert_eq!(ui_request(Some(window), true, false, display, Some(asked), 0), None);
    let (follow, asked) = ui_request(Some(window), true, true, display, Some(asked), 120_000).unwrap();
    assert_eq!(
        follow,
        UiRequest { width_mm: 340, height_mm: 220, width: 1512, height: 1004, refresh_rate: Some(120_000) }
    );
    assert_eq!(asked, window);
    assert_eq!(ui_request(Some(window), true, true, display, Some(asked), 120_000), None);
    /* a window larger than the device is asked for in its shape, inside the device */
    let (large, _) = ui_request(Some(size(3024, 1964)), true, true, display, None, 0).unwrap();
    assert_eq!((large.width, large.height), (2217, 1440));
}

#[test]
fn the_guest_log_says_when_its_display_is_up() {
    assert!(log_says_ready("boot\n[  OK  ] TRY_DISPLAY_READY=1\n"));
    assert!(!log_says_ready("TRY_DISPLAY_READY=0"));
    assert!(!log_says_ready(""));
    assert!(poll_due(false, POLL_INTERVAL));
    assert!(!poll_due(false, POLL_INTERVAL - 1));
    assert!(!poll_due(true, POLL_INTERVAL));
}
