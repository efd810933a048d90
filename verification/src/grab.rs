//! The harness that checks the frame path without a window: it asks the guest for sizes, one
//! after the other, and writes the frame that comes back at each stage next to a path.
use vstd::prelude::*;
use crate::text::{
    chars_of, decimal, decimal_bytes, is_digit, lemma_decimal_reads_back, find, find_in, parse_u32, parse_u64, parse_unsigned,
    push_decimal, push_str, split_once, split_once_in, trim, trimmed,
};

verus! {

/// The scale the harness asks for sizes at.
pub const GRAB_SCALE: u32 = 2;

/// How long the harness waits for the guest, in seconds.
pub const GRAB_TIMEOUT: u64 = 240;

/// The text cut at every `c`, every piece kept, empty ones too: `str::split` with a
/// character.
pub open spec fn split_pieces(s: Seq<char>, c: char) -> Seq<Seq<char>>
    decreases s.len(),
{
    match find(s, seq![c]) {
        Some(k) => if 0 <= k < s.len() {
            seq![s.take(k)] + split_pieces(s.skip(k + 1), c)
        } else {
            seq![s]
        },
        None => seq![s],
    }
}

/// A size written `<width>x<height>`, each side trimmed and read as a number.
pub open spec fn size_of(piece: Seq<char>) -> Option<(u32, u32)> {
    match split_once(piece, seq!['x']) {
        Some((w, h)) => match (
            parse_unsigned(trim(w), u32::MAX as int),
            parse_unsigned(trim(h), u32::MAX as int),
        ) {
            (Some(w), Some(h)) => Some((w as u32, h as u32)),
            _ => None,
        },
        None => None,
    }
}

/// The sizes of a comma-separated list, the pieces that are not sizes left out.
pub open spec fn sizes_of(pieces: Seq<Seq<char>>) -> Seq<(u32, u32)>
    decreases pieces.len(),
{
    if pieces.len() == 0 {
        seq![]
    } else {
        (match size_of(pieces[0]) {
            Some(size) => seq![size],
            None => seq![],
        }) + sizes_of(pieces.drop_first())
    }
}

proof fn lemma_sizes_of_push(pieces: Seq<Seq<char>>, piece: Seq<char>)
    ensures
        sizes_of(pieces.push(piece)) == sizes_of(pieces) + match size_of(piece) {
            Some(size) => seq![size],
            None => seq![],
        },
    decreases pieces.len(),
{
    if pieces.len() == 0 {
        assert(pieces.push(piece).drop_first() =~= Seq::<Seq<char>>::empty());
        let tail: Seq<(u32, u32)> = match size_of(piece) {
            Some(size) => seq![size],
            None => seq![],
        };
        let one = pieces.push(piece);
        assert(one.len() == 1 && one[0] == piece);
        assert(sizes_of(one.drop_first()) == Seq::<(u32, u32)>::empty());
        assert(sizes_of(one) == tail + sizes_of(one.drop_first()));
        assert(sizes_of(pieces) == Seq::<(u32, u32)>::empty());
        assert(sizes_of(one) =~= sizes_of(pieces) + tail);
    } else {
        assert(pieces.push(piece).drop_first() =~= pieces.drop_first().push(piece));
        lemma_sizes_of_push(pieces.drop_first(), piece);
        let head: Seq<(u32, u32)> = match size_of(pieces[0]) {
            Some(size) => seq![size],
            None => seq![],
        };
        let tail: Seq<(u32, u32)> = match size_of(piece) {
            Some(size) => seq![size],
            None => seq![],
        };
        assert(head + (sizes_of(pieces.drop_first()) + tail) =~= (head + sizes_of(
            pieces.drop_first(),
        )) + tail);
    }
}

fn size_in(piece: &[char]) -> (r: Option<(u32, u32)>)
    ensures
        r == size_of(piece@),
{
    let x = ['x'];
    assert(x@ == seq!['x']);
    match split_once_in(piece, &x) {
        Some((w, h)) => {
            let width = parse_u32(trimmed(w.as_slice()).as_slice());
            let height = parse_u32(trimmed(h.as_slice()).as_slice());
            match (width, height) {
                (Some(w), Some(h)) => Some((w, h)),
                _ => None,
            }
        },
        None => None,
    }
}

/// The sizes of a list like `1200x800, 1000x700`.
pub fn parse_sizes(sizes: &str) -> (r: Vec<(u32, u32)>)
    ensures
        r@ == sizes_of(split_pieces(sizes@, ',')),
{
    let mut rest = chars_of(sizes);
    let comma = [','];
    assert(comma@ == seq![',']);
    let mut out: Vec<(u32, u32)> = Vec::new();
    let ghost mut done: Seq<Seq<char>> = seq![];
    loop
        invariant
            comma@ == seq![','],
            split_pieces(sizes@, ',') == done + split_pieces(rest@, ','),
            out@ == sizes_of(done),
        decreases rest@.len(),
    {
        proof {
            crate::text::lemma_find_from_bounds(rest@, seq![','], 0);
        }
        match find_in(rest.as_slice(), &comma) {
            Some(k) => {
                let piece = crate::text::before_first_in(rest.as_slice(), &comma);
                let next = crate::text::after_first_in(rest.as_slice(), &comma).unwrap();
                proof {
                    assert(piece@ == rest@.take(k as int));
                    assert(next@ == rest@.skip(k + 1));
                    assert(split_pieces(rest@, ',') == seq![piece@] + split_pieces(next@, ','));
                    lemma_sizes_of_push(done, piece@);
                    assert(done + split_pieces(rest@, ',') =~= done.push(piece@) + split_pieces(
                        next@,
                        ',',
                    ));
                    done = done.push(piece@);
                }
                match size_in(piece.as_slice()) {
                    Some(size) => out.push(size),
                    None => {},
                }
                assert(out@ =~= sizes_of(done));
                rest = next;
            },
            None => {
                proof {
                    assert(split_pieces(rest@, ',') == seq![rest@]);
                    lemma_sizes_of_push(done, rest@);
                    done = done.push(rest@);
                }
                match size_in(rest.as_slice()) {
                    Some(size) => out.push(size),
                    None => {},
                }
                assert(out@ =~= sizes_of(done));
                assert(split_pieces(sizes@, ',') == done);
                return out;
            },
        }
    }
}

/// The first size of a list, when the list is given and has one.
pub fn grab_size(sizes: Option<&str>) -> (r: Option<(u32, u32)>)
    ensures
        r == match sizes {
            Some(text) => if sizes_of(split_pieces(text@, ',')).len() > 0 {
                Some(sizes_of(split_pieces(text@, ','))[0])
            } else {
                None
            },
            None => None,
        },
{
    match sizes {
        Some(text) => {
            let all = parse_sizes(text);
            if all.len() > 0 {
                Some(all[0])
            } else {
                None
            }
        },
        None => None,
    }
}

/// A number of seconds as given, or the default when none is given or it does not read as a
/// number.
pub fn seconds_or(text: Option<&str>, default: u64) -> (r: u64)
    ensures
        r == match text {
            Some(t) => match parse_unsigned(t@, u64::MAX as int) {
                Some(n) => n as u64,
                None => default,
            },
            None => default,
        },
{
    match text {
        Some(t) => match parse_u64(chars_of(t).as_slice()) {
            Some(n) => n,
            None => default,
        },
        None => default,
    }
}

/// The extension of a path as std's paths read it: the part of the file name after its last
/// `.`, for a file name that has one past its first character.
pub uninterp spec fn path_extension(path: Seq<char>) -> Option<Seq<char>>;

/// A path with its extension replaced, as std's paths write it.
pub uninterp spec fn path_with_extension(path: Seq<char>, extension: Seq<char>) -> Seq<char>;

/// A text holds no `/`, the separator of the paths of the Unix systems this runs on.
pub open spec fn no_separator(s: Seq<char>) -> bool {
    forall|i: int| 0 <= i < s.len() ==> s[i] != '/'
}

/// `Path::extension`, for a path that is text: its extension, which is text too, and, being
/// part of the path's last component, holds no separator.
#[verifier::external_body]
fn extension_of(path: &str) -> (r: Option<String>)
    ensures
        match r {
            Some(e) => path_extension(path@) == Some(e@) && no_separator(e@),
            None => path_extension(path@) is None,
        },
{
    std::path::Path::new(path).extension().map(|e| e.to_string_lossy().into_owned())
}

/// `Path::with_extension`, for a path and an extension that are text: the path it gives,
/// which is text too.  It panics on an extension that holds a separator, so none is given.
#[verifier::external_body]
fn with_extension(path: &str, extension: &str) -> (r: String)
    requires
        no_separator(extension@),
    ensures
        r@ == path_with_extension(path@, extension@),
{
    std::path::Path::new(path).with_extension(extension).to_string_lossy().into_owned()
}

/// The extension a stage's frame is written with: the stage's number, then the path's own
/// extension or `png`.
pub open spec fn spec_step_extension(step: usize, extension: Option<Seq<char>>) -> Seq<char> {
    decimal(step as nat) + seq!['.'] + match extension {
        Some(e) => e,
        None => "png"@,
    }
}

pub fn step_extension(step: usize, extension: Option<&str>) -> (r: String)
    ensures
        r@ == spec_step_extension(
            step,
            match extension {
                Some(e) => Some(e@),
                None => None,
            },
        ),
{
    let mut text = String::new();
    push_decimal(&mut text, step as u64);
    push_str(&mut text, ".");
    proof {
        reveal_strlit(".");
    }
    match extension {
        Some(e) => push_str(&mut text, e),
        None => push_str(&mut text, "png"),
    }
    text
}

/// Where the frame of a stage is written: next to the path, named `<stem>.<step><ext>`, so a
/// frame leaking over from the stage before cannot pass for the one that was asked for.
pub fn grab_step_path(path: &str, step: usize) -> (r: String)
    ensures
        r@ == path_with_extension(path@, spec_step_extension(step, path_extension(path@))),
{
    let extension = extension_of(path);
    let named = match &extension {
        Some(e) => step_extension(step, Some(e.as_str())),
        None => step_extension(step, None),
    };
    proof {
        reveal_strlit("png");
        lemma_decimal_reads_back(step as nat);
        let d = decimal(step as nat);
        let tail: Seq<char> = match path_extension(path@) {
            Some(e) => e,
            None => "png"@,
        };
        assert forall|i: int| 0 <= i < named@.len() implies named@[i] != '/' by {
            if i < d.len() {
                assert(is_digit(d[i]));
            } else if i > d.len() {
                assert(named@[i] == tail[i - d.len() - 1]);
            }
        }
    }
    with_extension(path, named.as_str())
}

/// The header of a raw PPM image of this size.
pub open spec fn ppm_header(width: u32, height: u32) -> Seq<char> {
    seq!['P', '6', '\n'] + decimal(width as nat) + seq![' '] + decimal(height as nat) + seq![
        '\n',
        '2',
        '5',
        '5',
        '\n',
    ]
}

/// The bytes of a raw PPM image of an RGBA frame: the header, then the red, green and blue of
/// each whole pixel, the alpha dropped.
pub open spec fn is_ppm_of(out: Seq<u8>, width: u32, height: u32, pixels: Seq<u8>) -> bool {
    let header = ppm_header(width, height);
    let n = pixels.len() / 4;
    &&& out.len() == header.len() + n * 3
    &&& forall|i: int| 0 <= i < header.len() ==> out[i] == #[trigger] header[i] as u8
    &&& forall|p: int, c: int|
        0 <= p < n && 0 <= c < 3 ==> #[trigger] out[header.len() + p * 3 + c] == pixels[p * 4 + c]
}

fn push_chars(out: &mut Vec<u8>, chars: &[char])
    requires
        forall|i: int| 0 <= i < chars@.len() ==> (chars@[i] as u32) < 128,
    ensures
        final(out)@.len() == old(out)@.len() + chars@.len(),
        forall|i: int| 0 <= i < old(out)@.len() ==> final(out)@[i] == old(out)@[i],
        forall|i: int|
            0 <= i < chars@.len() ==> final(out)@[old(out)@.len() + i] == chars@[i] as u8,
{
    let ghost start = out@;
    let mut i: usize = 0;
    while i < chars.len()
        invariant
            i <= chars@.len(),
            out@.len() == start.len() + i,
            forall|k: int| 0 <= k < start.len() ==> out@[k] == start[k],
            forall|k: int| 0 <= k < i ==> out@[start.len() + k] == chars@[k] as u8,
            forall|k: int| 0 <= k < chars@.len() ==> (chars@[k] as u32) < 128,
        decreases chars@.len() - i,
    {
        let c = chars[i];
        out.push(c as u8);
        i = i + 1;
    }
}

fn push_bytes(out: &mut Vec<u8>, bytes: &[u8])
    ensures
        final(out)@ == old(out)@ + bytes@,
{
    let ghost start = out@;
    let mut i: usize = 0;
    while i < bytes.len()
        invariant
            i <= bytes@.len(),
            out@ == start + bytes@.take(i as int),
        decreases bytes@.len() - i,
    {
        out.push(bytes[i]);
        assert(bytes@.take(i + 1) == bytes@.take(i as int).push(bytes@[i as int]));
        i = i + 1;
    }
    assert(bytes@.take(i as int) == bytes@);
}

/// A raw dump of an RGBA frame, so it can be compared against another one without a decoder.
pub fn ppm_bytes(width: u32, height: u32, pixels: &[u8]) -> (r: Vec<u8>)
    ensures
        is_ppm_of(r@, width, height, pixels@),
{
    let mut out: Vec<u8> = Vec::new();
    let ghost header = ppm_header(width, height);
    push_chars(&mut out, &['P', '6', '\n']);
    let w = decimal_bytes(width as u64);
    push_bytes(&mut out, w.as_slice());
    out.push(32);
    let h = decimal_bytes(height as u64);
    push_bytes(&mut out, h.as_slice());
    push_chars(&mut out, &['\n', '2', '5', '5', '\n']);
    assert(out@.len() == header.len());
    assert forall|i: int| 0 <= i < header.len() implies out@[i] == #[trigger] header[i] as u8 by {
        let dw = decimal(width as nat);
        let dh = decimal(height as nat);
        if i < 3 {
        } else if i < 3 + dw.len() {
            assert(header[i] == dw[i - 3]);
        } else if i == 3 + dw.len() {
        } else if i < 4 + dw.len() + dh.len() {
            assert(header[i] == dh[i - 4 - dw.len()]);
        } else {
        }
    }
    let n = pixels.len() / 4;
    let mut p: usize = 0;
    while p < n
        invariant
            p <= n,
            n == pixels@.len() / 4,
            pixels@.len() == pixels.len(),
            out@.len() == header.len() + p * 3,
            forall|i: int| 0 <= i < header.len() ==> out@[i] == #[trigger] header[i] as u8,
            forall|q: int, c: int|
                0 <= q < p && 0 <= c < 3 ==> #[trigger] out@[header.len() + q * 3 + c]
                    == pixels@[q * 4 + c],
        decreases n - p,
    {
        out.push(pixels[p * 4]);
        out.push(pixels[p * 4 + 1]);
        out.push(pixels[p * 4 + 2]);
        p = p + 1;
    }
    out
}

/// How a run of the harness ended.
#[derive(Clone, Copy, Debug, PartialEq, Eq)]
pub enum GrabOutcome {
    /// No frame arrived at all.
    NoFrame,
    /// The guest sent a frame of another size than the one it was asked for.
    Mismatch { asked: (u32, u32), sent: (u32, u32) },
    /// The last frame, the size asked for if any was.
    Done { size: (u32, u32) },
}

/// The harness's state: the sizes still to ask for, the stage it is at, when the stage's
/// frame is due, the size the guest was last asked for, and the size of the last frame.
pub struct GrabRun {
    pub resizes: Vec<(u32, u32)>,
    pub step: usize,
    pub due: u64,
    pub wanted: Option<(u32, u32)>,
    pub last: Option<(u32, u32)>,
}

impl GrabRun {
    /// The frame has caught up with the ask: it is the size asked for, or any frame at all
    /// when nothing was asked.
    pub open spec fn is_caught_up(&self) -> bool {
        match self.wanted {
            Some(want) => self.last == Some(want),
            None => self.last is Some,
        }
    }

    pub fn new(resizes: Vec<(u32, u32)>, wanted: Option<(u32, u32)>, due: u64) -> (r: Self)
        ensures
            r.resizes@ == resizes@,
            r.step == 0,
            r.due == due,
            r.wanted == wanted,
            r.last is None,
    {
        GrabRun { resizes, step: 0, due, wanted, last: None }
    }

    /// The next size to ask for, in points, once the stage before is due; the stage moves
    /// on.
    pub fn ask_due(&mut self, now: u64) -> (r: Option<(u32, u32)>)
        ensures
            old(self).step < old(self).resizes@.len() && now >= old(self).due ==> r == Some(
                old(self).resizes@[old(self).step as int],
            ) && final(self).step == old(self).step + 1,
            !(old(self).step < old(self).resizes@.len() && now >= old(self).due) ==> r is None
                && final(self).step == old(self).step,
            final(self).resizes@ == old(self).resizes@,
            final(self).due == old(self).due,
            final(self).wanted == old(self).wanted,
            final(self).last == old(self).last,
    {
        if self.step < self.resizes.len() && now >= self.due {
            let size = self.resizes[self.step];
            self.step = self.step + 1;
            Some(size)
        } else {
            None
        }
    }

    /// The guest was asked for `wanted` pixels; the stage's frame is due at `due`.
    pub fn asked(&mut self, wanted: (u32, u32), due: u64)
        ensures
            final(self).wanted == Some(wanted),
            final(self).due == due,
            final(self).resizes@ == old(self).resizes@,
            final(self).step == old(self).step,
            final(self).last == old(self).last,
    {
        self.wanted = Some(wanted);
        self.due = due;
    }

    /// A frame of this size arrived.
    pub fn frame(&mut self, width: u32, height: u32)
        ensures
            final(self).last == Some((width, height)),
            final(self).resizes@ == old(self).resizes@,
            final(self).step == old(self).step,
            final(self).due == old(self).due,
            final(self).wanted == old(self).wanted,
    {
        self.last = Some((width, height));
    }

    pub fn caught_up(&self) -> (r: bool)
        ensures
            r == self.is_caught_up(),
    {
        match self.wanted {
            Some(want) => match self.last {
                Some(last) => last.0 == want.0 && last.1 == want.1,
                None => false,
            },
            None => self.last.is_some(),
        }
    }

    /// Whether the stage's frame is written now: it is due, and the frame has caught up with
    /// the ask, so a frame of the stage before never passes for this one.
    pub fn write_due(&self, now: u64) -> (r: bool)
        ensures
            r == (now >= self.due && self.is_caught_up()),
            r && self.wanted is Some ==> self.last == self.wanted,
    {
        now >= self.due && self.caught_up()
    }

    /// Every size has been asked for.
    pub fn finished(&self) -> (r: bool)
        ensures
            r == (self.step >= self.resizes@.len()),
    {
        self.step >= self.resizes.len()
    }

    /// How the run ended: the last frame, which has to be the size last asked for.
    pub fn outcome(&self) -> (r: GrabOutcome)
        ensures
            r == match self.last {
                None => GrabOutcome::NoFrame,
                Some(sent) => match self.wanted {
                    Some(asked) => if asked == sent {
                        GrabOutcome::Done { size: sent }
                    } else {
                        GrabOutcome::Mismatch { asked, sent }
                    },
                    None => GrabOutcome::Done { size: sent },
                },
            },
    {
        match self.last {
            None => GrabOutcome::NoFrame,
            Some(sent) => match self.wanted {
                Some(asked) => if asked.0 == sent.0 && asked.1 == sent.1 {
                    GrabOutcome::Done { size: sent }
                } else {
                    GrabOutcome::Mismatch { asked, sent }
                },
                None => GrabOutcome::Done { size: sent },
            },
        }
    }
}

} // verus!
