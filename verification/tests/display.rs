use try_ui::display::{pixels_to_rgba, Listener, Outcome, Scanout, Update, BGRX};
use try_ui::ring::{Ring, RING};

type Surface = (u32, (u32, u32));

/// What the window's side of the socket does with a frame's outcome: a whole frame makes the
/// ring its size, a landed one moves the ring on, and every frame shown counts.
struct Window {
    ring: Ring<Surface>,
    next: u32,
    frames: usize,
}

impl Window {
    fn new() -> Self {
        Window { ring: Ring::new(), next: 0, frames: 0 }
    }

    fn take(&mut self, outcome: Outcome) {
        match outcome {
            Outcome::Dropped => {}
            Outcome::Landed => {
                self.ring.landed();
                self.frames += 1;
            }
            Outcome::Frame { width, height, scanout, .. } => {
                if scanout && self.ring.software_frame(width, height) {
                    let mut surfaces = Vec::new();
                    let mut names = Vec::new();
                    for _ in 0..RING {
                        self.next += 1;
                        surfaces.push((self.next, (width, height)));
                        names.push(format!("try.surface.test.{}", self.next));
                    }
                    self.ring.install(surfaces, names, width, height);
                }
                self.frames += 1;
            }
        }
    }
}

fn frame(width: u32, height: u32, value: u8) -> Vec<u8> {
    vec![value; width as usize * height as usize * 4]
}

#[test]
fn a_whole_frame_at_another_size_is_the_console_resizing() {
    let mut listener = Listener::new();
    let mut window = Window::new();
    window.take(listener.replace_surface(Scanout {
        width: 64,
        height: 48,
        stride: 64 * 4,
        format: BGRX,
        data: frame(64, 48, 0x20),
    }));
    assert_eq!(window.ring.size(), (64, 48));

    /* the shape the console sends when it could not write into a surface of ours */
    window.take(listener.update_surface(Update {
        x: 0,
        y: 0,
        w: 96,
        h: 64,
        stride: 96 * 4,
        format: BGRX,
        data: frame(96, 64, 0x40),
    }));
    assert_eq!(
        window.ring.size(),
        (96, 64),
        "the frame went on being the size the console had stopped using"
    );
    assert!(window.frames > 0);
}

#[test]
fn a_patch_of_this_frame_leaves_it_alone() {
    let mut listener = Listener::new();
    let mut window = Window::new();
    window.take(listener.replace_surface(Scanout {
        width: 64,
        height: 48,
        stride: 64 * 4,
        format: BGRX,
        data: frame(64, 48, 0x20),
    }));

    /* a patch that does not fit is not the console resizing: it is a frame to drop */
    window.take(listener.update_surface(Update {
        x: 32,
        y: 16,
        w: 64,
        h: 48,
        stride: 64 * 4,
        format: BGRX,
        data: frame(64, 48, 0x40),
    }));
    assert_eq!(window.ring.size(), (64, 48));
}

#[test]
fn the_console_colours_come_out_as_red_green_blue() {
    let bgrx = [0x10, 0x20, 0x30, 0x00, 0x11, 0x21, 0x31, 0x00];
    assert_eq!(
        pixels_to_rgba(2, 1, 8, BGRX, &bgrx),
        vec![0x30, 0x20, 0x10, 255, 0x31, 0x21, 0x11, 255]
    );
    assert_eq!(
        pixels_to_rgba(2, 1, 8, 0x20028888, &bgrx),
        vec![0x10, 0x20, 0x30, 255, 0x11, 0x21, 0x31, 255]
    );
    /* rows longer than the frame are read by their stride, and what was not sent is black */
    let data = [1, 2, 3, 0, 9, 9, 9, 9, 4, 5, 6, 0];
    assert_eq!(
        pixels_to_rgba(1, 3, 8, 0, &data),
        vec![1, 2, 3, 255, 4, 5, 6, 255, 0, 0, 0, 0]
    );
}

#[test]
fn a_patch_lands_where_it_says_and_leaves_the_rest() {
    let mut listener = Listener::new();
    listener.replace_surface(Scanout {
        width: 4,
        height: 2,
        stride: 16,
        format: 0,
        data: frame(4, 2, 0x20),
    });
    let outcome = listener.update_surface(Update {
        x: 1,
        y: 1,
        w: 2,
        h: 1,
        stride: 8,
        format: 0,
        data: frame(2, 1, 0x40),
    });
    let Outcome::Frame { width, height, pixels, scanout } = outcome else {
        panic!("a patch that fits was not shown");
    };
    assert_eq!((width, height, scanout), (4, 2, false));
    let lit: Vec<usize> = (0..8).filter(|pixel| pixels[pixel * 4] == 0x40).collect();
    assert_eq!(lit, vec![5, 6]);
    assert!(pixels.chunks(4).all(|pixel| pixel[3] == 255));
    /* another format, a patch off the frame, and no frame at all are all dropped */
    assert!(matches!(
        listener.update_surface(Update { x: 0, y: 0, w: 1, h: 1, stride: 4, format: BGRX, data: frame(1, 1, 1) }),
        Outcome::Dropped
    ));
    assert!(matches!(
        listener.update_surface(Update { x: -1, y: 0, w: 1, h: 1, stride: 4, format: 0, data: frame(1, 1, 1) }),
        Outcome::Dropped
    ));
    assert!(matches!(
        Listener::new().update_surface(Update { x: 0, y: 0, w: 1, h: 1, stride: 4, format: 0, data: frame(1, 1, 1) }),
        Outcome::Dropped
    ));
    /* no pixels at all is the console having written into a surface of ours */
    assert!(matches!(
        listener.update_surface(Update { x: 0, y: 0, w: 1, h: 1, stride: 4, format: 0, data: Vec::new() }),
        Outcome::Landed
    ));
}

#[test]
fn a_frame_read_back_blue_first_comes_out_red_first() {
    let data = [0x20u8, 0x40, 0xc0, 0xff].repeat(128 * 128);
    let pixels = pixels_to_rgba(128, 128, 512, 0x20020888, &data);
    assert_eq!(pixels.len(), 65536);
    let at = (64 * 128 + 64) * 4;
    assert_eq!(&pixels[at..at + 4], &[0xc0, 0x40, 0x20, 0xff]);
    let alpha = pixels_to_rgba(1, 1, 4, 0x20028888, &[1, 2, 3, 4]);
    assert_eq!(alpha, vec![1, 2, 3, 255]);
    let other = pixels_to_rgba(1, 1, 4, 0x20840888, &[1, 2, 3, 4]);
    assert_eq!(other, vec![1, 2, 3, 255]);
}
