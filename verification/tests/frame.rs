use try_ui::frame::{Content, FrameState, SettingsAction};
use try_ui::geometry::WindowSize;
use try_ui::input::{Input, Keystroke, Modifiers, MouseButton};
use try_ui::settings::default_settings;

fn state() -> FrameState {
    FrameState::new(default_settings(8, 16, true), None, false)
}

#[test]
fn the_window_shows_the_guest_only_once_it_is_up() {
    let mut frame = state();
    assert_eq!(frame.content(), Content::Waiting);
    frame.frame_arrived(64, 48, true);
    assert_eq!(frame.content(), Content::Waiting);
    frame.ready_now();
    assert_eq!(frame.content(), Content::Image);
    frame.failed("QEMU exited".into());
    assert_eq!(frame.content(), Content::Image);
    frame.restart(false);
    assert_eq!(frame.content(), Content::Waiting);
    assert_eq!(frame.status_line(), "restarting the guest");
    frame.failed("QEMU exited".into());
    assert_eq!(frame.content(), Content::Error);
    frame.bridge_started(Some("could not start QEMU".into()));
    assert_eq!(frame.error.as_deref(), Some("could not start QEMU"));
    assert_eq!(frame.status_line(), "saved, applied on restart");
    assert_eq!(FrameState::new(default_settings(8, 16, true), None, true).content(), Content::Demo);
}

#[test]
fn a_shape_note_is_logged_once_per_change() {
    let mut frame = state();
    frame.wants(WindowSize { width_mm: 170, height_mm: 120, width: 1512, height: 1004 });
    assert_eq!(
        frame.surface_arrived(2560, 1440).as_deref(),
        Some("guest sent 2560x1440 for a 1512x1004 window")
    );
    assert_eq!(frame.surface_arrived(2560, 1440), None);
    assert_eq!(frame.surface_arrived(1512, 1004), None);
    assert_eq!(frame.shape_note, None);
    assert_eq!(frame.surface, (1512, 1004));
}

#[test]
fn the_settings_panel_changes_and_restarts() {
    let mut frame = state();
    let toggle = Keystroke {
        modifiers: Modifiers { control: false, alt: false, shift: false, platform: true },
        key: ",".into(),
    };
    frame.keystroke(&toggle);
    assert_eq!(frame.content(), Content::Settings);
    assert!(frame.key(&toggle, true).is_empty());
    assert!(frame.button(MouseButton::Left, true, Some((1, 1))).is_empty());
    assert!(!frame.act(SettingsAction::CoresUp, 10));
    assert_eq!(frame.settings.cores, 9);
    assert!(!frame.act(SettingsAction::MemoryUp, 10));
    assert_eq!(frame.settings.mem, "12G");
    assert!(!frame.act(SettingsAction::ToggleAudio, 10));
    assert!(!frame.settings.audio);
    assert!(frame.act(SettingsAction::Reset, 10));
    assert_eq!(frame.status_line(), "rebuilding the guest disk");
    frame.keystroke(&Keystroke { modifiers: toggle.modifiers, key: "escape".into() });
    assert!(!frame.settings_open);
    assert_eq!(frame.pointer(Some((3, 4))), vec![Input::Move { x: 3, y: 4 }]);
    assert_eq!(frame.wheel(Some(false)), vec![Input::Wheel { up: false }]);
}

#[test]
fn a_frame_is_an_image_only_with_a_pixel_for_every_place() {
    let mut frame = state();
    frame.ready_now();
    let (image, note) = frame.image_arrived(4, 2, vec![7; 4 * 2 * 4]);
    let image = image.expect("a whole frame is an image");
    assert_eq!((image.image.width(), image.image.height()), (4, 2));
    assert_eq!(image.image.as_raw(), &vec![7u8; 32]);
    assert_eq!(note, None);
    assert_eq!(frame.content(), Content::Image);
    assert_eq!(frame.surface, (4, 2));
    let (short, _) = frame.image_arrived(4, 2, vec![7; 31]);
    assert!(short.is_none());
    assert!(!frame.has_image);
    assert_eq!(frame.content(), Content::Waiting);
}
