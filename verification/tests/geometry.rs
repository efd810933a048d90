use try_ui::geometry::{
    clamp_to_display, describe_window, display_max, frame_shape, opening_size, snap, WindowSize,
    GUEST_MAX_DISPLAY,
};

/// The window as the app describes it, from its size in points and its scale factor.
fn window(width: f64, height: f64, factor: f64) -> WindowSize {
    let divisor = if factor > 1.75 {
        2
    } else if factor > 1.25 {
        3
    } else {
        1
    };
    let cm = |value: f64| (value * 2.54 / 110.0).round().clamp(1.0, 255.0) as u16;
    describe_window(
        cm(width),
        cm(height),
        (width * factor) as u32,
        (height * factor) as u32,
        divisor,
    )
}

#[test]
fn the_request_keeps_the_window_shape_within_the_device_max() {
    assert_eq!(clamp_to_display((2000, 1200), (2560, 1440)), (2000, 1200));
    assert_eq!(clamp_to_display((3024, 1964), (2560, 1440)), (2217, 1440));
    assert_eq!(clamp_to_display((1512, 1514), (2560, 1440)), (1438, 1440));
    assert_eq!(
        display_max(&[
            "-device".into(),
            "virtio-gpu-gl-pci,xres=2560,yres=1440".into()
        ]),
        (2560, 1440)
    );
}

#[test]
fn the_guest_opens_at_the_device_size_and_then_follows_the_window() {
    let wanted = window(1000.0, 600.0, 2.0);
    let opened = opening_size(wanted, (2560, 1440), false);
    assert_eq!((opened.width, opened.height), (2560, 1440));
    assert_eq!(
        (opened.width_mm, opened.height_mm),
        (wanted.width_mm, wanted.height_mm)
    );
    assert_eq!(opening_size(wanted, (2560, 1440), true), wanted);
}

#[test]
fn the_window_reaches_the_guest_in_its_pixels_and_in_its_own_scale() {
    assert_eq!(
        window(756.0, 502.0, 2.0),
        WindowSize {
            width_mm: 170,
            height_mm: 120,
            width: 1512,
            height: 1004,
        }
    );
    assert_eq!(
        window(756.0, 502.0, 1.0),
        WindowSize {
            width_mm: 170,
            height_mm: 120,
            width: 756,
            height: 502,
        }
    );
}

#[test]
fn a_display_is_read_from_the_device_argument_that_names_one() {
    assert_eq!(display_max(&[]), GUEST_MAX_DISPLAY);
    assert_eq!(
        display_max(&["-m".into(), "8G".into(), "virtio-gpu-pci,xres=3024,yres=1964,edid=on".into()]),
        (3024, 1964)
    );
    /* a width without a height, or a number that is not one, names no display */
    assert_eq!(display_max(&["virtio-gpu-pci,xres=3024".into()]), GUEST_MAX_DISPLAY);
    assert_eq!(display_max(&["xres=12a,yres=10".into()]), GUEST_MAX_DISPLAY);
    assert_eq!(
        display_max(&["xres=1,yres=x".into(), "xres=+800,yres=600".into()]),
        (800, 600)
    );
    /* a second xres= ends the piece the height is read from */
    assert_eq!(display_max(&["xres=800,xres=900,yres=600".into()]), GUEST_MAX_DISPLAY);
}

#[test]
fn a_size_that_fits_is_kept_and_one_that_does_not_is_scaled_into_the_display() {
    assert_eq!(clamp_to_display((1, 1), (2560, 1440)), (1, 1));
    assert_eq!(clamp_to_display((5120, 2880), (2560, 1440)), (2560, 1440));
    assert_eq!(clamp_to_display((0, 0), (2560, 1440)), (1, 1));
    assert_eq!(clamp_to_display((4000, 100), (2560, 1440)), (2560, 64));
    assert_eq!(clamp_to_display((100, 100), (0, 1440)), (1, 1));
}

#[test]
fn a_screen_of_another_size_than_the_window_is_noted() {
    let want = window(756.0, 502.0, 2.0);
    assert_eq!(frame_shape((1512, 1004), Some(want)), None);
    assert_eq!(frame_shape((1512, 1004), None), None);
    assert_eq!(
        frame_shape((2560, 1440), Some(want)).as_deref(),
        Some("guest sent 2560x1440 for a 1512x1004 window")
    );
}

#[test]
fn pixels_are_rounded_down_to_whole_logical_pixels() {
    assert_eq!(snap(1513, 2), 1512);
    assert_eq!(snap(1000, 3), 999);
    assert_eq!(snap(1, 3), 3);
    assert_eq!(snap(0, 2), 2);
    assert_eq!(window(1000.0, 600.0, 1.5).width, 1500);
}

#[test]
fn the_request_is_scaled_in_doubles_as_the_window_does() {
    assert_eq!(clamp_to_display((22, 22), (15, 15)), (14, 14));
    for (size, max, expected) in [
        ((2653, 1236), (1618, 2667), (1618, 753)),
        ((396, 594), (2195, 386), (257, 386)),
        ((2996, 4775), (238, 2079), (237, 379)),
        ((1759, 308), (353, 1777), (353, 61)),
        ((3426, 573), (986, 372), (986, 164)),
        ((4515, 3478), (243, 2317), (243, 187)),
        ((1015, 1829), (2584, 2570), (1015, 1829)),
        ((4776, 507), (2364, 2399), (2364, 250)),
        ((3250, 407), (906, 191), (906, 113)),
        ((4561, 1091), (1187, 1717), (1186, 283)),
        ((1182, 4430), (483, 2339), (483, 1810)),
        ((2528, 4590), (2794, 741), (408, 741)),
        ((845, 4765), (2340, 2617), (464, 2617)),
        ((1540, 3051), (400, 2244), (399, 792)),
        ((515, 4624), (245, 2536), (245, 2199)),
        ((1688, 4067), (2787, 2178), (903, 2178)),
        ((3503, 2574), (1908, 2399), (1908, 1401)),
        ((3713, 2963), (1228, 1018), (1228, 979)),
        ((1473, 2000), (336, 2353), (336, 456)),
        ((2460, 4303), (2028, 1407), (804, 1407)),
        ((3677, 2359), (2495, 300), (467, 300)),
        ((968, 4194), (1713, 676), (156, 676)),
        ((2803, 1246), (2003, 1728), (2003, 890)),
        ((322, 636), (2286, 2348), (322, 636)),
        ((2571, 2787), (2848, 1435), (1323, 1435)),
        ((4870, 4069), (2376, 1869), (2236, 1869)),
        ((564, 767), (1106, 1942), (564, 767)),
        ((533, 498), (2995, 2874), (533, 498)),
        ((2537, 4735), (2791, 1826), (978, 1826)),
        ((2332, 3161), (2739, 1422), (1049, 1422)),
        ((185, 3783), (1456, 689), (33, 689)),
        ((960, 4045), (242, 894), (212, 894)),
        ((2355, 1060), (1015, 1630), (1015, 456)),
        ((3203, 4068), (331, 682), (331, 420)),
        ((3680, 3291), (2251, 1139), (1273, 1139)),
        ((1122, 3527), (2254, 1141), (362, 1141)),
        ((3403, 2940), (2797, 1559), (1804, 1558)),
        ((1891, 1237), (340, 722), (340, 222)),
        ((1240, 1901), (2698, 956), (623, 956)),
        ((99, 3973), (2414, 747), (18, 747)),
        ((22, 22), (15, 15), (14, 14)),
        ((23, 23), (13, 13), (12, 12)),
        ((26, 26), (15, 15), (14, 14)),
        ((39, 39), (31, 31), (30, 30)),
        ((43, 43), (23, 23), (22, 22)),
        ((43, 43), (31, 31), (30, 30)),
        ((44, 44), (15, 15), (14, 14)),
        ((44, 44), (30, 30), (29, 29)),
        ((45, 45), (13, 13), (12, 12)),
        ((45, 45), (26, 26), (25, 25)),
        ((46, 46), (13, 13), (12, 12)),
        ((46, 46), (26, 26), (25, 25)),
        ((47, 47), (3, 3), (2, 2)),
        ((47, 47), (6, 6), (5, 5)),
        ((47, 47), (12, 12), (11, 11)),
        ((47, 47), (24, 24), (23, 23)),
        ((47, 47), (31, 31), (30, 30)),
        ((49, 49), (2, 2), (1, 1)),
        ((49, 49), (4, 4), (3, 3)),
        ((49, 49), (8, 8), (7, 7)),
        ((49, 49), (16, 16), (15, 15)),
        ((49, 49), (27, 27), (26, 26)),
        ((49, 49), (32, 32), (31, 31)),
        ((50, 50), (29, 29), (28, 28)),
        ((51, 51), (31, 31), (30, 30)),
        ((52, 52), (15, 15), (14, 14)),
        ((52, 52), (30, 30), (29, 29)),
        ((55, 55), (7, 7), (6, 6)),
        ((55, 55), (14, 14), (13, 13)),
        ((55, 55), (15, 15), (14, 14)),
        ((55, 55), (28, 28), (27, 27)),
        ((55, 55), (29, 29), (28, 28)),
        ((55, 55), (30, 30), (29, 29)),
        ((55, 55), (31, 31), (30, 30)),
        ((58, 58), (31, 31), (30, 30)),
    ] {
        assert_eq!(clamp_to_display(size, max), expected, "{size:?} into {max:?}");
    }
}

#[test]
fn a_clamped_size_is_clamped_to_itself() {
    for (size, max) in [((22, 22), (15, 15)), ((3024, 1964), (2560, 1440)), ((0, 7), (5, 5)), ((9, 1), (3, 1))] {
        let once = clamp_to_display(size, max);
        assert_eq!(clamp_to_display(once, max), once);
    }
}
