//! What the window's keys, buttons, pointer and wheel become for the guest: XT set 1 scan
//! codes for the keyboard, button numbers for the mouse.
use vstd::prelude::*;
use crate::text::chars_of;

verus! {

/// One thing the guest is told.
#[derive(Clone, Copy, Debug, PartialEq, Eq, Structural)]
pub enum Input {
    Key { code: u32, down: bool },
    Button { button: u32, down: bool },
    Move { x: u32, y: u32 },
    Wheel { up: bool },
}

pub const SHIFT: u32 = 0x2a;

pub const CONTROL: u32 = 0x1d;

pub const ALT: u32 = 0x38;

pub const SUPER: u32 = 0xdb;

pub const CAPS_LOCK: u32 = 0x3a;

pub const WHEEL_UP: u32 = 3;

pub const WHEEL_DOWN: u32 = 4;

/// The bit an extended key's scan code carries.
pub const EXTENDED: u32 = 0x80;

/// The modifier keys the window reports as held.
#[derive(Clone, Copy, Debug, PartialEq, Eq, Structural)]
pub struct Modifiers {
    pub control: bool,
    pub alt: bool,
    pub shift: bool,
    pub platform: bool,
}

/// A key the window reports, by the name the window gives it, with the modifiers held.
pub struct Keystroke {
    pub modifiers: Modifiers,
    pub key: String,
}

/// The mouse buttons the window reports.
#[derive(Clone, Copy, Debug, PartialEq, Eq, Structural)]
pub enum MouseButton {
    Left,
    Middle,
    Right,
    Other,
}

/// The scan code of a key whose name is one character.
pub open spec fn single_key(c: char) -> Option<u32> {
    if c == '1' { Some(0x02) }
    else if c == '2' { Some(0x03) }
    else if c == '3' { Some(0x04) }
    else if c == '4' { Some(0x05) }
    else if c == '5' { Some(0x06) }
    else if c == '6' { Some(0x07) }
    else if c == '7' { Some(0x08) }
    else if c == '8' { Some(0x09) }
    else if c == '9' { Some(0x0a) }
    else if c == '0' { Some(0x0b) }
    else if c == '-' { Some(0x0c) }
    else if c == '=' { Some(0x0d) }
    else if c == 'q' { Some(0x10) }
    else if c == 'w' { Some(0x11) }
    else if c == 'e' { Some(0x12) }
    else if c == 'r' { Some(0x13) }
    else if c == 't' { Some(0x14) }
    else if c == 'y' { Some(0x15) }
    else if c == 'u' { Some(0x16) }
    else if c == 'i' { Some(0x17) }
    else if c == 'o' { Some(0x18) }
    else if c == 'p' { Some(0x19) }
    else if c == '[' { Some(0x1a) }
    else if c == ']' { Some(0x1b) }
    else if c == 'a' { Some(0x1e) }
    else if c == 's' { Some(0x1f) }
    else if c == 'd' { Some(0x20) }
    else if c == 'f' { Some(0x21) }
    else if c == 'g' { Some(0x22) }
    else if c == 'h' { Some(0x23) }
    else if c == 'j' { Some(0x24) }
    else if c == 'k' { Some(0x25) }
    else if c == 'l' { Some(0x26) }
    else if c == ';' { Some(0x27) }
    else if c == '\'' { Some(0x28) }
    else if c == '`' { Some(0x29) }
    else if c == '\\' { Some(0x2b) }
    else if c == 'z' { Some(0x2c) }
    else if c == 'x' { Some(0x2d) }
    else if c == 'c' { Some(0x2e) }
    else if c == 'v' { Some(0x2f) }
    else if c == 'b' { Some(0x30) }
    else if c == 'n' { Some(0x31) }
    else if c == 'm' { Some(0x32) }
    else if c == ',' { Some(0x33) }
    else if c == '.' { Some(0x34) }
    else if c == '/' { Some(0x35) }
    else { None }
}

/// The scan code of a key with a longer name; the cursor and editing keys are extended ones.
pub open spec fn named_key(k: Seq<char>) -> Option<u32> {
    if k == seq!['e', 's', 'c', 'a', 'p', 'e'] { Some(0x01) }
    else if k == seq!['b', 'a', 'c', 'k', 's', 'p', 'a', 'c', 'e'] { Some(0x0e) }
    else if k == seq!['t', 'a', 'b'] { Some(0x0f) }
    else if k == seq!['e', 'n', 't', 'e', 'r'] { Some(0x1c) }
    else if k == seq!['s', 'p', 'a', 'c', 'e'] { Some(0x39) }
    else if k == seq!['c', 'a', 'p', 's', 'l', 'o', 'c', 'k'] { Some(CAPS_LOCK) }
    else if k == seq!['f', '1'] { Some(0x3b) }
    else if k == seq!['f', '2'] { Some(0x3c) }
    else if k == seq!['f', '3'] { Some(0x3d) }
    else if k == seq!['f', '4'] { Some(0x3e) }
    else if k == seq!['f', '5'] { Some(0x3f) }
    else if k == seq!['f', '6'] { Some(0x40) }
    else if k == seq!['f', '7'] { Some(0x41) }
    else if k == seq!['f', '8'] { Some(0x42) }
    else if k == seq!['f', '9'] { Some(0x43) }
    else if k == seq!['f', '1', '0'] { Some(0x44) }
    else if k == seq!['f', '1', '1'] { Some(0x57) }
    else if k == seq!['f', '1', '2'] { Some(0x58) }
    else if k == seq!['h', 'o', 'm', 'e'] { Some((EXTENDED + 0x47) as u32) }
    else if k == seq!['u', 'p'] { Some((EXTENDED + 0x48) as u32) }
    else if k == seq!['p', 'a', 'g', 'e', 'u', 'p'] { Some((EXTENDED + 0x49) as u32) }
    else if k == seq!['l', 'e', 'f', 't'] { Some((EXTENDED + 0x4b) as u32) }
    else if k == seq!['r', 'i', 'g', 'h', 't'] { Some((EXTENDED + 0x4d) as u32) }
    else if k == seq!['e', 'n', 'd'] { Some((EXTENDED + 0x4f) as u32) }
    else if k == seq!['d', 'o', 'w', 'n'] { Some((EXTENDED + 0x50) as u32) }
    else if k == seq!['p', 'a', 'g', 'e', 'd', 'o', 'w', 'n'] { Some((EXTENDED + 0x51) as u32) }
    else if k == seq!['i', 'n', 's', 'e', 'r', 't'] { Some((EXTENDED + 0x52) as u32) }
    else if k == seq!['d', 'e', 'l', 'e', 't', 'e'] { Some((EXTENDED + 0x53) as u32) }
    else { None }
}

/// The XT set 1 scan code of a key by the name the window gives it.
pub open spec fn key_code(k: Seq<char>) -> Option<u32> {
    if k.len() == 1 {
        single_key(k[0])
    } else {
        named_key(k)
    }
}

/// The name of the key a scan code is sent for, the one `key_code` gives it.
pub open spec fn key_name(code: u32) -> Seq<char> {
    if code == 0x02 { seq!['1'] }
    else if code == 0x03 { seq!['2'] }
    else if code == 0x04 { seq!['3'] }
    else if code == 0x05 { seq!['4'] }
    else if code == 0x06 { seq!['5'] }
    else if code == 0x07 { seq!['6'] }
    else if code == 0x08 { seq!['7'] }
    else if code == 0x09 { seq!['8'] }
    else if code == 0x0a { seq!['9'] }
    else if code == 0x0b { seq!['0'] }
    else if code == 0x0c { seq!['-'] }
    else if code == 0x0d { seq!['='] }
    else if code == 0x10 { seq!['q'] }
    else if code == 0x11 { seq!['w'] }
    else if code == 0x12 { seq!['e'] }
    else if code == 0x13 { seq!['r'] }
    else if code == 0x14 { seq!['t'] }
    else if code == 0x15 { seq!['y'] }
    else if code == 0x16 { seq!['u'] }
    else if code == 0x17 { seq!['i'] }
    else if code == 0x18 { seq!['o'] }
    else if code == 0x19 { seq!['p'] }
    else if code == 0x1a { seq!['['] }
    else if code == 0x1b { seq![']'] }
    else if code == 0x1e { seq!['a'] }
    else if code == 0x1f { seq!['s'] }
    else if code == 0x20 { seq!['d'] }
    else if code == 0x21 { seq!['f'] }
    else if code == 0x22 { seq!['g'] }
    else if code == 0x23 { seq!['h'] }
    else if code == 0x24 { seq!['j'] }
    else if code == 0x25 { seq!['k'] }
    else if code == 0x26 { seq!['l'] }
    else if code == 0x27 { seq![';'] }
    else if code == 0x28 { seq!['\''] }
    else if code == 0x29 { seq!['`'] }
    else if code == 0x2b { seq!['\\'] }
    else if code == 0x2c { seq!['z'] }
    else if code == 0x2d { seq!['x'] }
    else if code == 0x2e { seq!['c'] }
    else if code == 0x2f { seq!['v'] }
    else if code == 0x30 { seq!['b'] }
    else if code == 0x31 { seq!['n'] }
    else if code == 0x32 { seq!['m'] }
    else if code == 0x33 { seq![','] }
    else if code == 0x34 { seq!['.'] }
    else if code == 0x35 { seq!['/'] }
    else if code == 0x01 { seq!['e', 's', 'c', 'a', 'p', 'e'] }
    else if code == 0x0e { seq!['b', 'a', 'c', 'k', 's', 'p', 'a', 'c', 'e'] }
    else if code == 0x0f { seq!['t', 'a', 'b'] }
    else if code == 0x1c { seq!['e', 'n', 't', 'e', 'r'] }
    else if code == 0x39 { seq!['s', 'p', 'a', 'c', 'e'] }
    else if code == CAPS_LOCK { seq!['c', 'a', 'p', 's', 'l', 'o', 'c', 'k'] }
    else if code == 0x3b { seq!['f', '1'] }
    else if code == 0x3c { seq!['f', '2'] }
    else if code == 0x3d { seq!['f', '3'] }
    else if code == 0x3e { seq!['f', '4'] }
    else if code == 0x3f { seq!['f', '5'] }
    else if code == 0x40 { seq!['f', '6'] }
    else if code == 0x41 { seq!['f', '7'] }
    else if code == 0x42 { seq!['f', '8'] }
    else if code == 0x43 { seq!['f', '9'] }
    else if code == 0x44 { seq!['f', '1', '0'] }
    else if code == 0x57 { seq!['f', '1', '1'] }
    else if code == 0x58 { seq!['f', '1', '2'] }
    else if code == EXTENDED + 0x47 { seq!['h', 'o', 'm', 'e'] }
    else if code == EXTENDED + 0x48 { seq!['u', 'p'] }
    else if code == EXTENDED + 0x49 { seq!['p', 'a', 'g', 'e', 'u', 'p'] }
    else if code == EXTENDED + 0x4b { seq!['l', 'e', 'f', 't'] }
    else if code == EXTENDED + 0x4d { seq!['r', 'i', 'g', 'h', 't'] }
    else if code == EXTENDED + 0x4f { seq!['e', 'n', 'd'] }
    else if code == EXTENDED + 0x50 { seq!['d', 'o', 'w', 'n'] }
    else if code == EXTENDED + 0x51 { seq!['p', 'a', 'g', 'e', 'd', 'o', 'w', 'n'] }
    else if code == EXTENDED + 0x52 { seq!['i', 'n', 's', 'e', 'r', 't'] }
    else if code == EXTENDED + 0x53 { seq!['d', 'e', 'l', 'e', 't', 'e'] }
    else { seq![] }
}

/// Whether a key's name is one of the cursor and editing keys, which are sent as extended ones.
pub open spec fn extended_name(k: Seq<char>) -> bool {
    ||| k == seq!['h', 'o', 'm', 'e']
    ||| k == seq!['u', 'p']
    ||| k == seq!['p', 'a', 'g', 'e', 'u', 'p']
    ||| k == seq!['l', 'e', 'f', 't']
    ||| k == seq!['r', 'i', 'g', 'h', 't']
    ||| k == seq!['e', 'n', 'd']
    ||| k == seq!['d', 'o', 'w', 'n']
    ||| k == seq!['p', 'a', 'g', 'e', 'd', 'o', 'w', 'n']
    ||| k == seq!['i', 'n', 's', 'e', 'r', 't']
    ||| k == seq!['d', 'e', 'l', 'e', 't', 'e']
}

proof fn lemma_key_name(k: Seq<char>)
    ensures
        key_code(k) matches Some(c) ==> key_name(c) == k && 0x01 <= c <= 0xd3 && (c >= EXTENDED
            <==> extended_name(k)),
{
    if k.len() == 1 {
        assert(k =~= seq![k[0]]);
    }
}

proof fn lemma_single_keys()
    ensures
        key_code(seq!['1']) == Some(0x02u32),
        key_code(seq!['2']) == Some(0x03u32),
        key_code(seq!['3']) == Some(0x04u32),
        key_code(seq!['4']) == Some(0x05u32),
        key_code(seq!['5']) == Some(0x06u32),
        key_code(seq!['6']) == Some(0x07u32),
        key_code(seq!['7']) == Some(0x08u32),
        key_code(seq!['8']) == Some(0x09u32),
        key_code(seq!['9']) == Some(0x0au32),
        key_code(seq!['0']) == Some(0x0bu32),
        key_code(seq!['-']) == Some(0x0cu32),
        key_code(seq!['=']) == Some(0x0du32),
        key_code(seq!['q']) == Some(0x10u32),
        key_code(seq!['w']) == Some(0x11u32),
        key_code(seq!['e']) == Some(0x12u32),
        key_code(seq!['r']) == Some(0x13u32),
        key_code(seq!['t']) == Some(0x14u32),
        key_code(seq!['y']) == Some(0x15u32),
        key_code(seq!['u']) == Some(0x16u32),
        key_code(seq!['i']) == Some(0x17u32),
        key_code(seq!['o']) == Some(0x18u32),
        key_code(seq!['p']) == Some(0x19u32),
        key_code(seq!['[']) == Some(0x1au32),
        key_code(seq![']']) == Some(0x1bu32),
        key_code(seq!['a']) == Some(0x1eu32),
        key_code(seq!['s']) == Some(0x1fu32),
        key_code(seq!['d']) == Some(0x20u32),
        key_code(seq!['f']) == Some(0x21u32),
        key_code(seq!['g']) == Some(0x22u32),
        key_code(seq!['h']) == Some(0x23u32),
        key_code(seq!['j']) == Some(0x24u32),
        key_code(seq!['k']) == Some(0x25u32),
        key_code(seq!['l']) == Some(0x26u32),
        key_code(seq![';']) == Some(0x27u32),
        key_code(seq!['\'']) == Some(0x28u32),
        key_code(seq!['`']) == Some(0x29u32),
        key_code(seq!['\\']) == Some(0x2bu32),
        key_code(seq!['z']) == Some(0x2cu32),
        key_code(seq!['x']) == Some(0x2du32),
        key_code(seq!['c']) == Some(0x2eu32),
        key_code(seq!['v']) == Some(0x2fu32),
        key_code(seq!['b']) == Some(0x30u32),
        key_code(seq!['n']) == Some(0x31u32),
        key_code(seq!['m']) == Some(0x32u32),
        key_code(seq![',']) == Some(0x33u32),
        key_code(seq!['.']) == Some(0x34u32),
        key_code(seq!['/']) == Some(0x35u32),
{
}

#[verifier::rlimit(50)]
proof fn lemma_named_keys()
    ensures
        key_code(seq!['e', 's', 'c', 'a', 'p', 'e']) == Some(0x01u32),
        key_code(seq!['b', 'a', 'c', 'k', 's', 'p', 'a', 'c', 'e']) == Some(0x0eu32),
        key_code(seq!['t', 'a', 'b']) == Some(0x0fu32),
        key_code(seq!['e', 'n', 't', 'e', 'r']) == Some(0x1cu32),
        key_code(seq!['s', 'p', 'a', 'c', 'e']) == Some(0x39u32),
        key_code(seq!['c', 'a', 'p', 's', 'l', 'o', 'c', 'k']) == Some(0x3au32),
        key_code(seq!['f', '1']) == Some(0x3bu32),
        key_code(seq!['f', '2']) == Some(0x3cu32),
        key_code(seq!['f', '3']) == Some(0x3du32),
        key_code(seq!['f', '4']) == Some(0x3eu32),
        key_code(seq!['f', '5']) == Some(0x3fu32),
        key_code(seq!['f', '6']) == Some(0x40u32),
        key_code(seq!['f', '7']) == Some(0x41u32),
        key_code(seq!['f', '8']) == Some(0x42u32),
        key_code(seq!['f', '9']) == Some(0x43u32),
        key_code(seq!['f', '1', '0']) == Some(0x44u32),
        key_code(seq!['f', '1', '1']) == Some(0x57u32),
        key_code(seq!['f', '1', '2']) == Some(0x58u32),
        key_code(seq!['h', 'o', 'm', 'e']) == Some(0xc7u32),
        key_code(seq!['u', 'p']) == Some(0xc8u32),
        key_code(seq!['p', 'a', 'g', 'e', 'u', 'p']) == Some(0xc9u32),
        key_code(seq!['l', 'e', 'f', 't']) == Some(0xcbu32),
        key_code(seq!['r', 'i', 'g', 'h', 't']) == Some(0xcdu32),
        key_code(seq!['e', 'n', 'd']) == Some(0xcfu32),
        key_code(seq!['d', 'o', 'w', 'n']) == Some(0xd0u32),
        key_code(seq!['p', 'a', 'g', 'e', 'd', 'o', 'w', 'n']) == Some(0xd1u32),
        key_code(seq!['i', 'n', 's', 'e', 'r', 't']) == Some(0xd2u32),
        key_code(seq!['d', 'e', 'l', 'e', 't', 'e']) == Some(0xd3u32),
{
    assert(key_code(seq!['e', 's', 'c', 'a', 'p', 'e']) == Some(0x01u32));
    assert(key_code(seq!['b', 'a', 'c', 'k', 's', 'p', 'a', 'c', 'e']) == Some(0x0eu32));
    assert(key_code(seq!['t', 'a', 'b']) == Some(0x0fu32));
    assert(key_code(seq!['e', 'n', 't', 'e', 'r']) == Some(0x1cu32));
    assert(key_code(seq!['s', 'p', 'a', 'c', 'e']) == Some(0x39u32));
    assert(key_code(seq!['c', 'a', 'p', 's', 'l', 'o', 'c', 'k']) == Some(0x3au32));
    assert(key_code(seq!['f', '1']) == Some(0x3bu32));
    assert(key_code(seq!['f', '2']) == Some(0x3cu32));
    assert(key_code(seq!['f', '3']) == Some(0x3du32));
    assert(key_code(seq!['f', '4']) == Some(0x3eu32));
    assert(key_code(seq!['f', '5']) == Some(0x3fu32));
    assert(key_code(seq!['f', '6']) == Some(0x40u32));
    assert(key_code(seq!['f', '7']) == Some(0x41u32));
    assert(key_code(seq!['f', '8']) == Some(0x42u32));
    assert(key_code(seq!['f', '9']) == Some(0x43u32));
    assert(key_code(seq!['f', '1', '0']) == Some(0x44u32));
    assert(key_code(seq!['f', '1', '1']) == Some(0x57u32));
    assert(key_code(seq!['f', '1', '2']) == Some(0x58u32));
    assert(key_code(seq!['h', 'o', 'm', 'e']) == Some(0xc7u32));
    assert(key_code(seq!['u', 'p']) == Some(0xc8u32));
    assert(key_code(seq!['p', 'a', 'g', 'e', 'u', 'p']) == Some(0xc9u32));
    assert(key_code(seq!['l', 'e', 'f', 't']) == Some(0xcbu32));
    assert(key_code(seq!['r', 'i', 'g', 'h', 't']) == Some(0xcdu32));
    assert(key_code(seq!['e', 'n', 'd']) == Some(0xcfu32));
    assert(key_code(seq!['d', 'o', 'w', 'n']) == Some(0xd0u32));
    assert(key_code(seq!['p', 'a', 'g', 'e', 'd', 'o', 'w', 'n']) == Some(0xd1u32));
    assert(key_code(seq!['i', 'n', 's', 'e', 'r', 't']) == Some(0xd2u32));
    assert(key_code(seq!['d', 'e', 'l', 'e', 't', 'e']) == Some(0xd3u32));
}

/// Every key of the table is sent as its XT set 1 make code, the cursor and editing keys with
/// the extended bit.
pub proof fn every_key_has_its_scan_code()
    ensures
        key_code(seq!['1']) == Some(0x02u32),
        key_code(seq!['2']) == Some(0x03u32),
        key_code(seq!['3']) == Some(0x04u32),
        key_code(seq!['4']) == Some(0x05u32),
        key_code(seq!['5']) == Some(0x06u32),
        key_code(seq!['6']) == Some(0x07u32),
        key_code(seq!['7']) == Some(0x08u32),
        key_code(seq!['8']) == Some(0x09u32),
        key_code(seq!['9']) == Some(0x0au32),
        key_code(seq!['0']) == Some(0x0bu32),
        key_code(seq!['-']) == Some(0x0cu32),
        key_code(seq!['=']) == Some(0x0du32),
        key_code(seq!['q']) == Some(0x10u32),
        key_code(seq!['w']) == Some(0x11u32),
        key_code(seq!['e']) == Some(0x12u32),
        key_code(seq!['r']) == Some(0x13u32),
        key_code(seq!['t']) == Some(0x14u32),
        key_code(seq!['y']) == Some(0x15u32),
        key_code(seq!['u']) == Some(0x16u32),
        key_code(seq!['i']) == Some(0x17u32),
        key_code(seq!['o']) == Some(0x18u32),
        key_code(seq!['p']) == Some(0x19u32),
        key_code(seq!['[']) == Some(0x1au32),
        key_code(seq![']']) == Some(0x1bu32),
        key_code(seq!['a']) == Some(0x1eu32),
        key_code(seq!['s']) == Some(0x1fu32),
        key_code(seq!['d']) == Some(0x20u32),
        key_code(seq!['f']) == Some(0x21u32),
        key_code(seq!['g']) == Some(0x22u32),
        key_code(seq!['h']) == Some(0x23u32),
        key_code(seq!['j']) == Some(0x24u32),
        key_code(seq!['k']) == Some(0x25u32),
        key_code(seq!['l']) == Some(0x26u32),
        key_code(seq![';']) == Some(0x27u32),
        key_code(seq!['\'']) == Some(0x28u32),
        key_code(seq!['`']) == Some(0x29u32),
        key_code(seq!['\\']) == Some(0x2bu32),
        key_code(seq!['z']) == Some(0x2cu32),
        key_code(seq!['x']) == Some(0x2du32),
        key_code(seq!['c']) == Some(0x2eu32),
        key_code(seq!['v']) == Some(0x2fu32),
        key_code(seq!['b']) == Some(0x30u32),
        key_code(seq!['n']) == Some(0x31u32),
        key_code(seq!['m']) == Some(0x32u32),
        key_code(seq![',']) == Some(0x33u32),
        key_code(seq!['.']) == Some(0x34u32),
        key_code(seq!['/']) == Some(0x35u32),
        key_code(seq!['e', 's', 'c', 'a', 'p', 'e']) == Some(0x01u32),
        key_code(seq!['b', 'a', 'c', 'k', 's', 'p', 'a', 'c', 'e']) == Some(0x0eu32),
        key_code(seq!['t', 'a', 'b']) == Some(0x0fu32),
        key_code(seq!['e', 'n', 't', 'e', 'r']) == Some(0x1cu32),
        key_code(seq!['s', 'p', 'a', 'c', 'e']) == Some(0x39u32),
        key_code(seq!['c', 'a', 'p', 's', 'l', 'o', 'c', 'k']) == Some(0x3au32),
        key_code(seq!['f', '1']) == Some(0x3bu32),
        key_code(seq!['f', '2']) == Some(0x3cu32),
        key_code(seq!['f', '3']) == Some(0x3du32),
        key_code(seq!['f', '4']) == Some(0x3eu32),
        key_code(seq!['f', '5']) == Some(0x3fu32),
        key_code(seq!['f', '6']) == Some(0x40u32),
        key_code(seq!['f', '7']) == Some(0x41u32),
        key_code(seq!['f', '8']) == Some(0x42u32),
        key_code(seq!['f', '9']) == Some(0x43u32),
        key_code(seq!['f', '1', '0']) == Some(0x44u32),
        key_code(seq!['f', '1', '1']) == Some(0x57u32),
        key_code(seq!['f', '1', '2']) == Some(0x58u32),
        key_code(seq!['h', 'o', 'm', 'e']) == Some(0xc7u32),
        key_code(seq!['u', 'p']) == Some(0xc8u32),
        key_code(seq!['p', 'a', 'g', 'e', 'u', 'p']) == Some(0xc9u32),
        key_code(seq!['l', 'e', 'f', 't']) == Some(0xcbu32),
        key_code(seq!['r', 'i', 'g', 'h', 't']) == Some(0xcdu32),
        key_code(seq!['e', 'n', 'd']) == Some(0xcfu32),
        key_code(seq!['d', 'o', 'w', 'n']) == Some(0xd0u32),
        key_code(seq!['p', 'a', 'g', 'e', 'd', 'o', 'w', 'n']) == Some(0xd1u32),
        key_code(seq!['i', 'n', 's', 'e', 'r', 't']) == Some(0xd2u32),
        key_code(seq!['d', 'e', 'l', 'e', 't', 'e']) == Some(0xd3u32),
{
    lemma_single_keys();
    lemma_named_keys();
}

/// Only the keys of the table are sent: any other name, such as `A`, `Escape` or nothing at
/// all, has no scan code.
#[verifier::rlimit(50)]
pub proof fn only_the_table_is_sent(k: Seq<char>)
    ensures
        key_code(k) is Some ==> {
            ||| k == seq!['1']
            ||| k == seq!['2']
            ||| k == seq!['3']
            ||| k == seq!['4']
            ||| k == seq!['5']
            ||| k == seq!['6']
            ||| k == seq!['7']
            ||| k == seq!['8']
            ||| k == seq!['9']
            ||| k == seq!['0']
            ||| k == seq!['-']
            ||| k == seq!['=']
            ||| k == seq!['q']
            ||| k == seq!['w']
            ||| k == seq!['e']
            ||| k == seq!['r']
            ||| k == seq!['t']
            ||| k == seq!['y']
            ||| k == seq!['u']
            ||| k == seq!['i']
            ||| k == seq!['o']
            ||| k == seq!['p']
            ||| k == seq!['[']
            ||| k == seq![']']
            ||| k == seq!['a']
            ||| k == seq!['s']
            ||| k == seq!['d']
            ||| k == seq!['f']
            ||| k == seq!['g']
            ||| k == seq!['h']
            ||| k == seq!['j']
            ||| k == seq!['k']
            ||| k == seq!['l']
            ||| k == seq![';']
            ||| k == seq!['\'']
            ||| k == seq!['`']
            ||| k == seq!['\\']
            ||| k == seq!['z']
            ||| k == seq!['x']
            ||| k == seq!['c']
            ||| k == seq!['v']
            ||| k == seq!['b']
            ||| k == seq!['n']
            ||| k == seq!['m']
            ||| k == seq![',']
            ||| k == seq!['.']
            ||| k == seq!['/']
            ||| k == seq!['e', 's', 'c', 'a', 'p', 'e']
            ||| k == seq!['b', 'a', 'c', 'k', 's', 'p', 'a', 'c', 'e']
            ||| k == seq!['t', 'a', 'b']
            ||| k == seq!['e', 'n', 't', 'e', 'r']
            ||| k == seq!['s', 'p', 'a', 'c', 'e']
            ||| k == seq!['c', 'a', 'p', 's', 'l', 'o', 'c', 'k']
            ||| k == seq!['f', '1']
            ||| k == seq!['f', '2']
            ||| k == seq!['f', '3']
            ||| k == seq!['f', '4']
            ||| k == seq!['f', '5']
            ||| k == seq!['f', '6']
            ||| k == seq!['f', '7']
            ||| k == seq!['f', '8']
            ||| k == seq!['f', '9']
            ||| k == seq!['f', '1', '0']
            ||| k == seq!['f', '1', '1']
            ||| k == seq!['f', '1', '2']
            ||| k == seq!['h', 'o', 'm', 'e']
            ||| k == seq!['u', 'p']
            ||| k == seq!['p', 'a', 'g', 'e', 'u', 'p']
            ||| k == seq!['l', 'e', 'f', 't']
            ||| k == seq!['r', 'i', 'g', 'h', 't']
            ||| k == seq!['e', 'n', 'd']
            ||| k == seq!['d', 'o', 'w', 'n']
            ||| k == seq!['p', 'a', 'g', 'e', 'd', 'o', 'w', 'n']
            ||| k == seq!['i', 'n', 's', 'e', 'r', 't']
            ||| k == seq!['d', 'e', 'l', 'e', 't', 'e']
        },
{
    if k.len() == 1 {
        assert(k =~= seq![k[0]]);
    }
}

/// No two keys are sent as the same scan code.
pub proof fn no_two_keys_share_a_code(k1: Seq<char>, k2: Seq<char>)
    ensures
        key_code(k1) is Some && key_code(k1) == key_code(k2) ==> k1 == k2,
{
    lemma_key_name(k1);
    lemma_key_name(k2);
}

/// Every code is a set 1 make code, and the extended bit is on exactly the cursor and editing
/// keys.
pub proof fn the_extended_bit_marks_the_cursor_and_editing_keys(k: Seq<char>)
    ensures
        key_code(k) matches Some(c) ==> 0x01 <= c <= 0xd3 && ((c & EXTENDED) != 0
            <==> extended_name(k)),
{
    lemma_key_name(k);
    if let Some(c) = key_code(k) {
        assert(c <= 0xd3 ==> ((c & 0x80u32) != 0 <==> c >= 0x80u32)) by (bit_vector);
    }
}

fn single_key_exec(c: char) -> (r: Option<u32>)
    ensures
        r == single_key(c),
{
    match c {
        '1' => Some(0x02),
        '2' => Some(0x03),
        '3' => Some(0x04),
        '4' => Some(0x05),
        '5' => Some(0x06),
        '6' => Some(0x07),
        '7' => Some(0x08),
        '8' => Some(0x09),
        '9' => Some(0x0a),
        '0' => Some(0x0b),
        '-' => Some(0x0c),
        '=' => Some(0x0d),
        'q' => Some(0x10),
        'w' => Some(0x11),
        'e' => Some(0x12),
        'r' => Some(0x13),
        't' => Some(0x14),
        'y' => Some(0x15),
        'u' => Some(0x16),
        'i' => Some(0x17),
        'o' => Some(0x18),
        'p' => Some(0x19),
        '[' => Some(0x1a),
        ']' => Some(0x1b),
        'a' => Some(0x1e),
        's' => Some(0x1f),
        'd' => Some(0x20),
        'f' => Some(0x21),
        'g' => Some(0x22),
        'h' => Some(0x23),
        'j' => Some(0x24),
        'k' => Some(0x25),
        'l' => Some(0x26),
        ';' => Some(0x27),
        '\'' => Some(0x28),
        '`' => Some(0x29),
        '\\' => Some(0x2b),
        'z' => Some(0x2c),
        'x' => Some(0x2d),
        'c' => Some(0x2e),
        'v' => Some(0x2f),
        'b' => Some(0x30),
        'n' => Some(0x31),
        'm' => Some(0x32),
        ',' => Some(0x33),
        '.' => Some(0x34),
        '/' => Some(0x35),
        _ => None,
    }
}

/// Whether two runs of characters are the same.
pub fn same_chars(a: &[char], b: &[char]) -> (r: bool)
    ensures
        r == (a@ == b@),
{
    if a.len() != b.len() {
        return false;
    }
    let mut i: usize = 0;
    while i < a.len()
        invariant
            a@.len() == b@.len(),
            i <= a@.len(),
            forall|k: int| 0 <= k < i ==> a@[k] == b@[k],
        decreases a@.len() - i,
    {
        if a[i] != b[i] {
            return false;
        }
        i = i + 1;
    }
    assert(a@ =~= b@);
    true
}

fn named_key_exec(k: &[char]) -> (r: Option<u32>)
    ensures
        r == named_key(k@),
{
    if same_chars(k, &['e', 's', 'c', 'a', 'p', 'e']) { Some(0x01) }
    else if same_chars(k, &['b', 'a', 'c', 'k', 's', 'p', 'a', 'c', 'e']) { Some(0x0e) }
    else if same_chars(k, &['t', 'a', 'b']) { Some(0x0f) }
    else if same_chars(k, &['e', 'n', 't', 'e', 'r']) { Some(0x1c) }
    else if same_chars(k, &['s', 'p', 'a', 'c', 'e']) { Some(0x39) }
    else if same_chars(k, &['c', 'a', 'p', 's', 'l', 'o', 'c', 'k']) { Some(CAPS_LOCK) }
    else if same_chars(k, &['f', '1']) { Some(0x3b) }
    else if same_chars(k, &['f', '2']) { Some(0x3c) }
    else if same_chars(k, &['f', '3']) { Some(0x3d) }
    else if same_chars(k, &['f', '4']) { Some(0x3e) }
    else if same_chars(k, &['f', '5']) { Some(0x3f) }
    else if same_chars(k, &['f', '6']) { Some(0x40) }
    else if same_chars(k, &['f', '7']) { Some(0x41) }
    else if same_chars(k, &['f', '8']) { Some(0x42) }
    else if same_chars(k, &['f', '9']) { Some(0x43) }
    else if same_chars(k, &['f', '1', '0']) { Some(0x44) }
    else if same_chars(k, &['f', '1', '1']) { Some(0x57) }
    else if same_chars(k, &['f', '1', '2']) { Some(0x58) }
    else if same_chars(k, &['h', 'o', 'm', 'e']) { Some(EXTENDED + 0x47) }
    else if same_chars(k, &['u', 'p']) { Some(EXTENDED + 0x48) }
    else if same_chars(k, &['p', 'a', 'g', 'e', 'u', 'p']) { Some(EXTENDED + 0x49) }
    else if same_chars(k, &['l', 'e', 'f', 't']) { Some(EXTENDED + 0x4b) }
    else if same_chars(k, &['r', 'i', 'g', 'h', 't']) { Some(EXTENDED + 0x4d) }
    else if same_chars(k, &['e', 'n', 'd']) { Some(EXTENDED + 0x4f) }
    else if same_chars(k, &['d', 'o', 'w', 'n']) { Some(EXTENDED + 0x50) }
    else if same_chars(k, &['p', 'a', 'g', 'e', 'd', 'o', 'w', 'n']) { Some(EXTENDED + 0x51) }
    else if same_chars(k, &['i', 'n', 's', 'e', 'r', 't']) { Some(EXTENDED + 0x52) }
    else if same_chars(k, &['d', 'e', 'l', 'e', 't', 'e']) { Some(EXTENDED + 0x53) }
    else { None }
}

/// The XT set 1 scan code of a key by the name the window gives it, with the extended bit
/// on the cursor and editing keys, or nothing for a key the guest is not sent.
pub fn keycode(key: &str) -> (r: Option<u32>)
    ensures
        r == key_code(key@),
{
    let k = chars_of(key);
    if k.len() == 1 {
        single_key_exec(k[0])
    } else {
        named_key_exec(k.as_slice())
    }
}

/// Command-comma or control-comma opens and closes the settings.
pub open spec fn settings_toggle(keystroke: &Keystroke) -> bool {
    (keystroke.modifiers.platform || keystroke.modifiers.control) && keystroke.key@ == seq![',']
}

pub fn is_settings_toggle(keystroke: &Keystroke) -> (r: bool)
    ensures
        r == settings_toggle(keystroke),
{
    let key = chars_of(keystroke.key.as_str());
    let comma = [','];
    assert(comma@ == seq![',']);
    (keystroke.modifiers.platform || keystroke.modifiers.control) && same_chars(key.as_slice(), &comma)
}

/// Whether the settings are open after a keystroke: the toggle flips them, and escape
/// closes them.
pub open spec fn settings_open_after(open: bool, keystroke: &Keystroke) -> bool {
    if settings_toggle(keystroke) {
        !open
    } else if open && keystroke.key@ == seq!['e', 's', 'c', 'a', 'p', 'e'] {
        false
    } else {
        open
    }
}

pub fn settings_after_keystroke(open: bool, keystroke: &Keystroke) -> (r: bool)
    ensures
        r == settings_open_after(open, keystroke),
{
    if is_settings_toggle(keystroke) {
        return !open;
    }
    let key = chars_of(keystroke.key.as_str());
    if open && same_chars(key.as_slice(), &['e', 's', 'c', 'a', 'p', 'e']) {
        return false;
    }
    open
}

/// The key events that take the guest's modifiers from `before` to `after`: shift, control,
/// alt and the platform key, in that order, each that changed pressed or released.
pub open spec fn modifier_changes(before: Modifiers, after: Modifiers) -> Seq<Input> {
    (if after.shift != before.shift {
        seq![Input::Key { code: SHIFT, down: after.shift }]
    } else {
        seq![]
    }) + (if after.control != before.control {
        seq![Input::Key { code: CONTROL, down: after.control }]
    } else {
        seq![]
    }) + (if after.alt != before.alt {
        seq![Input::Key { code: ALT, down: after.alt }]
    } else {
        seq![]
    }) + (if after.platform != before.platform {
        seq![Input::Key { code: SUPER, down: after.platform }]
    } else {
        seq![]
    })
}

/// What a key going down or up is sent as, and the modifiers and caps lock the guest then
/// knows of.  Nothing reaches the guest while the settings are open or for the key that
/// opens them; a key going down first brings the modifiers up to date, then the key itself
/// is sent if the guest has a scan code for it.
pub open spec fn spec_key_inputs(
    held: Modifiers,
    capslock: bool,
    keystroke: &Keystroke,
    down: bool,
    settings_open: bool,
) -> (Seq<Input>, Modifiers, bool) {
    if settings_open || (down && settings_toggle(keystroke)) {
        (seq![], held, capslock)
    } else {
        let changes = if down {
            modifier_changes(held, keystroke.modifiers)
        } else {
            seq![]
        };
        let sent = match key_code(keystroke.key@) {
            Some(code) => seq![Input::Key { code, down }],
            None => seq![],
        };
        (changes + sent, if down { keystroke.modifiers } else { held }, capslock)
    }
}

/// The keyboard as the guest knows it: which modifiers it holds and whether caps lock is on.
pub struct Keys {
    pub held: Modifiers,
    pub capslock: bool,
}

fn push_change(out: &mut Vec<Input>, before: bool, after: bool, code: u32)
    ensures
        final(out)@ == old(out)@ + (if after != before {
            seq![Input::Key { code, down: after }]
        } else {
            seq![]
        }),
{
    if after != before {
        out.push(Input::Key { code, down: after });
    } else {
        assert(out@ + Seq::<Input>::empty() =~= out@);
    }
}

impl Keys {
    pub fn new() -> (r: Self)
        ensures
            r.held == (Modifiers { control: false, alt: false, shift: false, platform: false }),
            !r.capslock,
    {
        Keys {
            held: Modifiers { control: false, alt: false, shift: false, platform: false },
            capslock: false,
        }
    }

    /// Tells the guest about each modifier that is not held the way it was.
    pub fn sync_modifiers(&mut self, modifiers: Modifiers) -> (r: Vec<Input>)
        ensures
            r@ == modifier_changes(old(self).held, modifiers),
            final(self).held == modifiers,
            final(self).capslock == old(self).capslock,
    {
        let mut out: Vec<Input> = Vec::new();
        let before = self.held;
        push_change(&mut out, before.shift, modifiers.shift, SHIFT);
        push_change(&mut out, before.control, modifiers.control, CONTROL);
        push_change(&mut out, before.alt, modifiers.alt, ALT);
        push_change(&mut out, before.platform, modifiers.platform, SUPER);
        assert(out@ =~= modifier_changes(before, modifiers));
        self.held = modifiers;
        out
    }

    /// A key went down or up: what the guest is told of it (see `spec_key_inputs`).
    pub fn key(&mut self, keystroke: &Keystroke, down: bool, settings_open: bool) -> (r: Vec<Input>)
        ensures
            (r@, final(self).held, final(self).capslock) == spec_key_inputs(
                old(self).held,
                old(self).capslock,
                keystroke,
                down,
                settings_open,
            ),
    {
        if settings_open || (down && is_settings_toggle(keystroke)) {
            return Vec::new();
        }
        let mut out: Vec<Input> = if down {
            self.sync_modifiers(keystroke.modifiers)
        } else {
            Vec::new()
        };
        match keycode(keystroke.key.as_str()) {
            Some(code) => out.push(Input::Key { code, down }),
            None => {},
        }
        proof {
            let changes = if down {
                modifier_changes(old(self).held, keystroke.modifiers)
            } else {
                seq![]
            };
            match key_code(keystroke.key@) {
                Some(code) => assert(out@ =~= changes + seq![Input::Key { code, down }]),
                None => assert(out@ =~= changes + Seq::<Input>::empty()),
            }
        }
        out
    }

    /// The modifiers changed: the guest is told which, and caps lock, which the window
    /// reports as a state rather than a key, is pressed and released when it flipped.
    pub fn modifiers_changed(&mut self, modifiers: Modifiers, capslock: bool) -> (r: Vec<Input>)
        ensures
            r@ == modifier_changes(old(self).held, modifiers) + if capslock != old(
                self,
            ).capslock {
                seq![
                    Input::Key { code: CAPS_LOCK, down: true },
                    Input::Key { code: CAPS_LOCK, down: false },
                ]
            } else {
                seq![]
            },
            final(self).held == modifiers,
            final(self).capslock == capslock,
    {
        let mut out = self.sync_modifiers(modifiers);
        let ghost changes = out@;
        if capslock != self.capslock {
            self.capslock = capslock;
            out.push(Input::Key { code: CAPS_LOCK, down: true });
            out.push(Input::Key { code: CAPS_LOCK, down: false });
            assert(out@ =~= changes + seq![
                Input::Key { code: CAPS_LOCK, down: true },
                Input::Key { code: CAPS_LOCK, down: false },
            ]);
        } else {
            assert(out@ =~= changes + Seq::<Input>::empty());
        }
        out
    }
}

/// The number the guest knows a mouse button by.
pub open spec fn button_number(button: MouseButton) -> Option<u32> {
    match button {
        MouseButton::Left => Some(0),
        MouseButton::Middle => Some(1),
        MouseButton::Right => Some(2),
        MouseButton::Other => None,
    }
}

/// What a button going down or up at a place in the guest (if the window is over the guest)
/// is sent as.
pub open spec fn spec_button_inputs(settings_open: bool, button: MouseButton, down: bool, at: Option<(u32, u32)>) -> Seq<Input> {
    if settings_open || button_number(button) is None {
        seq![]
    } else if down && at is Some {
        seq![
            Input::Move { x: (at->0).0, y: (at->0).1 },
            Input::Button { button: button_number(button)->0, down },
        ]
    } else {
        seq![Input::Button { button: button_number(button)->0, down }]
    }
}

/// A button went down or up at a place in the guest (if the window is over the guest): a
/// press first moves the guest's pointer there.  Nothing is sent while the settings are open
/// or for a button the guest has no number for.
pub fn button_inputs(settings_open: bool, button: MouseButton, down: bool, at: Option<(u32, u32)>) -> (r: Vec<Input>)
    ensures
        r@ == spec_button_inputs(settings_open, button, down, at),
{
    let mut out: Vec<Input> = Vec::new();
    if settings_open {
        return out;
    }
    let number: u32 = match button {
        MouseButton::Left => 0,
        MouseButton::Middle => 1,
        MouseButton::Right => 2,
        MouseButton::Other => return out,
    };
    if down {
        if let Some((x, y)) = at {
            out.push(Input::Move { x, y });
        }
    }
    out.push(Input::Button { button: number, down });
    out
}

/// The pointer moved to a place in the guest (if the window is over the guest).
pub fn pointer_inputs(settings_open: bool, at: Option<(u32, u32)>) -> (r: Vec<Input>)
    ensures
        r@ == if !settings_open && at is Some {
            seq![Input::Move { x: (at->0).0, y: (at->0).1 }]
        } else {
            seq![]
        },
{
    let mut out: Vec<Input> = Vec::new();
    if !settings_open {
        if let Some((x, y)) = at {
            out.push(Input::Move { x, y });
        }
    }
    out
}

/// The wheel turned up or down, or not at all.
pub fn wheel_inputs(settings_open: bool, up: Option<bool>) -> (r: Vec<Input>)
    ensures
        r@ == if !settings_open && up is Some {
            seq![Input::Wheel { up: up->0 }]
        } else {
            seq![]
        },
{
    let mut out: Vec<Input> = Vec::new();
    if !settings_open {
        if let Some(up) = up {
            out.push(Input::Wheel { up });
        }
    }
    out
}

} // verus!
