use try_ui::ring::{Ring, RING};

/// A surface as the tests make it: an id, as the window's surfaces have one, and a size.
type Surface = (u32, (u32, u32));

struct Maker {
    next: u32,
}

impl Maker {
    /// What the window does when the ring says a new one has to be made.
    fn make(&mut self, ring: &mut Ring<Surface>, width: u32, height: u32) {
        let mut surfaces = Vec::new();
        let mut names = Vec::new();
        for _ in 0..RING {
            self.next += 1;
            surfaces.push((self.next, (width, height)));
            names.push(format!("try.surface.test.{}", self.next));
        }
        ring.install(surfaces, names, width, height);
    }

    fn software_frame(&mut self, ring: &mut Ring<Surface>, width: u32, height: u32) {
        if ring.software_frame(width, height) {
            self.make(ring, width, height);
        }
    }

    fn rebuild(&mut self, ring: &mut Ring<Surface>, width: u32, height: u32) {
        if ring.rebuild(width, height) {
            self.make(ring, width, height);
        }
    }
}

fn ring(maker: &mut Maker, width: u32, height: u32) -> Ring<Surface> {
    let mut ring = Ring::new();

    maker.software_frame(&mut ring, width, height);
    assert_eq!(ring.size(), (width, height), "the ring was not made");
    ring
}

fn shown(ring: &Ring<Surface>) -> u32 {
    ring.ready().expect("no frame to show").0
}

fn handed_id(ring: &Ring<Surface>) -> u32 {
    ring.handed().map(|surface| surface.0).unwrap_or(0)
}

#[test]
fn the_console_is_given_a_surface_and_then_the_one_after_it() {
    let mut maker = Maker { next: 0 };
    let mut ring = ring(&mut maker, 64, 48);
    let first = ring.take_request().expect("the console was given nothing");

    ring.landed();
    let second = ring.take_request().expect("the console was owed the next one");
    assert_ne!(first, second, "the console was given the same surface twice");

    ring.landed();
    let third = ring.take_request().expect("the console was owed the next one");
    assert_ne!(third, first);
    assert_ne!(third, second);
}

#[test]
fn the_window_never_shows_the_surface_the_console_writes_into() {
    let mut maker = Maker { next: 0 };
    let mut ring = ring(&mut maker, 64, 48);
    ring.take_request();

    for _ in 0..6 {
        ring.landed();
        assert!(
            ring.take_request().is_some(),
            "the console was not given the next surface"
        );
        assert_ne!(
            shown(&ring),
            handed_id(&ring),
            "the frame on screen is the surface being written into"
        );
    }
}

#[test]
fn frames_that_land_before_the_hand_over_do_not_walk_the_ring_past_it() {
    let mut maker = Maker { next: 0 };
    let mut ring = ring(&mut maker, 64, 48);
    ring.take_request();
    ring.landed();

    let frame = shown(&ring);
    ring.landed();
    assert_eq!(
        shown(&ring),
        frame,
        "the ring moved on while the console still wrote into one surface"
    );

    /* the hand-off is what moves it on, and the frame it holds stays up until the next one */
    ring.take_request();
    assert_eq!(shown(&ring), frame);
    ring.landed();
    assert_ne!(shown(&ring), frame, "the frame after the hand-off never landed");
}

#[test]
fn a_frame_at_another_size_is_what_makes_a_new_ring() {
    let mut maker = Maker { next: 0 };
    let mut ring = ring(&mut maker, 64, 48);
    ring.take_request();
    ring.landed();
    ring.take_request();

    maker.software_frame(&mut ring, 64, 48);
    assert!(
        ring.take_request().is_none(),
        "a frame the ring is already the size of made a new one"
    );

    maker.software_frame(&mut ring, 96, 32);
    assert_eq!(ring.size(), (96, 32));
    assert!(
        ring.take_request().is_some(),
        "the new ring was never handed over"
    );
}

#[test]
fn a_console_at_another_size_is_written_into_a_ring_of_that_size() {
    let mut maker = Maker { next: 0 };
    let mut ring = ring(&mut maker, 64, 48);
    let first = ring.take_request().expect("the console was given nothing");
    ring.landed();
    let frame = shown(&ring);

    maker.rebuild(&mut ring, 96, 32);
    assert_eq!(ring.size(), (96, 32), "the ask did not make a new ring");
    assert_ne!(
        ring.take_request().expect("the new ring was never handed over"),
        first,
        "the console was handed a surface of the ring it is not being asked to leave"
    );
    assert_eq!(
        ring.ready().expect("no frame to show").1,
        (64, 48),
        "the window went blank while the guest was on its way to the new mode"
    );

    assert_eq!(shown(&ring), frame);
    ring.landed();
    assert_eq!(
        ring.ready().expect("no frame to show").1,
        (96, 32),
        "the frame of the new ring is not the one being shown"
    );
}

#[test]
fn an_empty_ring_owes_the_console_nothing() {
    let mut ring: Ring<Surface> = Ring::new();
    assert_eq!(ring.size(), (0, 0));
    assert!(ring.take_request().is_none());
    ring.landed();
    assert!(ring.ready().is_none());
    assert!(ring.handed().is_none());
    assert!(ring.software_frame(0, 0));
    assert!(!ring.rebuild(0, 0));
}

#[test]
fn the_console_is_handed_the_surfaces_in_turn() {
    let mut maker = Maker { next: 0 };
    let mut ring = ring(&mut maker, 64, 48);
    let mut handed = Vec::new();
    for _ in 0..4 {
        handed.push(ring.take_request().unwrap());
        ring.landed();
    }
    assert_eq!(
        handed,
        vec![
            "try.surface.test.1".to_string(),
            "try.surface.test.2".to_string(),
            "try.surface.test.3".to_string(),
            "try.surface.test.1".to_string(),
        ]
    );
}
