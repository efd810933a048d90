use try_ui::grab::{
    grab_size, grab_step_path, parse_sizes, ppm_bytes, seconds_or, step_extension, GrabOutcome,
    GrabRun,
};

#[test]
fn the_grab_harness_takes_a_list_of_sizes() {
    assert_eq!(parse_sizes("1200x800"), vec![(1200, 800)]);
    assert_eq!(
        parse_sizes("1200x800, 1000x700 ,900x600"),
        vec![(1200, 800), (1000, 700), (900, 600)]
    );
}

#[test]
fn pieces_that_are_not_sizes_are_left_out() {
    assert_eq!(parse_sizes(""), vec![]);
    assert_eq!(parse_sizes("800,x600,1x2x3,640x480"), vec![(640, 480)]);
    assert_eq!(grab_size(Some("1000x700,900x600")), Some((1000, 700)));
    assert_eq!(grab_size(Some("none")), None);
    assert_eq!(grab_size(None), None);
    assert_eq!(seconds_or(Some("30"), 20), 30);
    assert_eq!(seconds_or(Some(" 30"), 20), 20);
    assert_eq!(seconds_or(None, 20), 20);
}

#[test]
fn each_stage_is_written_next_to_the_path() {
    assert_eq!(grab_step_path("/tmp/frame.png", 2), "/tmp/frame.2.png");
    assert_eq!(grab_step_path("/tmp/frame.ppm", 0), "/tmp/frame.0.ppm");
    assert_eq!(grab_step_path("/tmp/frame", 7), "/tmp/frame.7.png");
    assert_eq!(step_extension(12, None), "12.png");
}

#[test]
fn a_frame_dumps_as_a_raw_ppm() {
    let pixels = [1, 2, 3, 4, 5, 6, 7, 8, 9];
    let mut expected = b"P6\n2 1\n255\n".to_vec();
    expected.extend_from_slice(&[1, 2, 3, 5, 6, 7]);
    assert_eq!(ppm_bytes(2, 1, &pixels), expected);
}

#[test]
fn a_stage_is_written_only_once_the_guest_caught_up() {
    let mut run = GrabRun::new(vec![(1000, 700)], Some((2400, 1600)), 10);
    assert!(!run.write_due(20), "no frame has arrived");
    run.frame(2560, 1440);
    assert!(!run.write_due(20), "a frame of the boot mode passed for the one asked for");
    run.frame(2400, 1600);
    assert!(!run.write_due(5));
    assert!(run.write_due(20));
    assert!(!run.finished());
    assert_eq!(run.ask_due(5), None);
    assert_eq!(run.ask_due(20), Some((1000, 700)));
    run.asked((2000, 1400), 40);
    assert!(run.finished());
    assert!(!run.write_due(50));
    assert_eq!(
        run.outcome(),
        GrabOutcome::Mismatch { asked: (2000, 1400), sent: (2400, 1600) }
    );
    run.frame(2000, 1400);
    assert!(run.write_due(50));
    assert_eq!(run.outcome(), GrabOutcome::Done { size: (2000, 1400) });
    assert_eq!(GrabRun::new(vec![], None, 0).outcome(), GrabOutcome::NoFrame);
}
