//! The guest's resources as the settings file holds them: `key=value` lines, the same file the
//! build tasks read their defaults from.
use vstd::prelude::*;
use crate::text::{
    chars_of, decimal, is_digit, lemma_decimal_reads_back, lemma_lines_cons, lemma_split_at_char,
    lemma_trimmed_ends, line_body, lines, lines_of, parse_u32, parse_unsigned, push_decimal,
    push_str, split_once, split_once_in, string_of, trim, trimmed,
};
use crate::input::same_chars;

verus! {

pub struct Settings {
    pub cores: u32,
    pub mem: String,
    pub audio: bool,
}

/// The memory sizes the settings step through, smallest first.
pub open spec fn memory_options() -> Seq<Seq<char>> {
    seq![
        seq!['2', 'G'],
        seq!['4', 'G'],
        seq!['6', 'G'],
        seq!['8', 'G'],
        seq!['1', '2', 'G'],
        seq!['1', '6', 'G'],
        seq!['2', '4', 'G'],
    ]
}

/// How many memory sizes the settings step through.
pub const MEMORY_OPTIONS: usize = 7;

/// Where a memory size stands among the options, from `from` on.
pub open spec fn memory_position_from(mem: Seq<char>, from: int) -> Option<int>
    decreases 7 - from,
{
    if from < 0 || from >= 7 {
        None
    } else if memory_options()[from] == mem {
        Some(from)
    } else {
        memory_position_from(mem, from + 1)
    }
}

/// Where a memory size stands among the options, or where 8G does when it is none of them.
pub open spec fn spec_memory_index(mem: Seq<char>) -> int {
    match memory_position_from(mem, 0) {
        Some(i) => i,
        None => 3,
    }
}

/// The memory option at `index`.
pub fn memory_option(index: usize) -> (r: &'static str)
    requires
        index < MEMORY_OPTIONS,
    ensures
        r@ == memory_options()[index as int],
{
    proof {
        reveal_strlit("2G");
        reveal_strlit("4G");
        reveal_strlit("6G");
        reveal_strlit("8G");
        reveal_strlit("12G");
        reveal_strlit("16G");
        reveal_strlit("24G");
    }
    if index == 0 {
        "2G"
    } else if index == 1 {
        "4G"
    } else if index == 2 {
        "6G"
    } else if index == 3 {
        "8G"
    } else if index == 4 {
        "12G"
    } else if index == 5 {
        "16G"
    } else {
        "24G"
    }
}

fn option_chars(index: usize) -> (r: Vec<char>)
    requires
        index < MEMORY_OPTIONS,
    ensures
        r@ == memory_options()[index as int],
{
    chars_of(memory_option(index))
}

/// Where a memory size stands among the options, or where 8G does when it is none of them.
pub fn memory_index(mem: &str) -> (r: usize)
    ensures
        r == spec_memory_index(mem@),
        r < MEMORY_OPTIONS,
{
    let wanted = chars_of(mem);
    let mut i: usize = 0;
    while i < MEMORY_OPTIONS
        invariant
            i <= MEMORY_OPTIONS,
            wanted@ == mem@,
            memory_position_from(mem@, 0) == memory_position_from(mem@, i as int),
        decreases MEMORY_OPTIONS - i,
    {
        let option = option_chars(i);
        if same_chars(option.as_slice(), wanted.as_slice()) {
            return i;
        }
        i = i + 1;
    }
    3
}

/// The memory size one step down from this one, no lower than the smallest.
pub fn memory_down(mem: &str) -> (r: String)
    ensures
        r@ == memory_options()[if spec_memory_index(mem@) > 0 {
            spec_memory_index(mem@) - 1
        } else {
            0
        }],
{
    let index = memory_index(mem);
    let lower = if index > 0 {
        index - 1
    } else {
        0
    };
    String::from_str(memory_option(lower))
}

/// The memory size one step up from this one, no higher than the largest.
pub fn memory_up(mem: &str) -> (r: String)
    ensures
        r@ == memory_options()[if spec_memory_index(mem@) + 1 < 7 {
            spec_memory_index(mem@) + 1
        } else {
            6
        }],
{
    let index = memory_index(mem);
    let higher = if index + 1 < MEMORY_OPTIONS {
        index + 1
    } else {
        MEMORY_OPTIONS - 1
    };
    String::from_str(memory_option(higher))
}

/// One core fewer, and never none.
pub fn cores_down(cores: u32) -> (r: u32)
    ensures
        r == if cores > 1 {
            cores - 1
        } else {
            1
        },
{
    let fewer = cores.saturating_sub(1);
    if fewer < 1 {
        1
    } else {
        fewer
    }
}

/// One core more, and never more than the host has.
pub fn cores_up(cores: u32, host: u32) -> (r: u32)
    requires
        cores < u32::MAX,
    ensures
        r == if cores + 1 < host {
            cores + 1
        } else {
            host as int
        },
{
    if cores + 1 < host {
        cores + 1
    } else {
        host
    }
}

/// The settings when the file says nothing: up to eight of the host's cores, half the memory
/// of a host of 16 GB or more and 4G below that, and audio where the host is a Mac.
pub fn default_settings(host_cores: u32, host_memory_gb: u32, macos: bool) -> (r: Settings)
    ensures
        r.cores == if host_cores < 8 {
            host_cores
        } else {
            8
        },
        r.mem@ == if host_memory_gb >= 16 {
            memory_options()[3]
        } else {
            memory_options()[1]
        },
        r.audio == macos,
{
    Settings {
        cores: if host_cores < 8 {
            host_cores
        } else {
            8
        },
        mem: String::from_str(memory_option(if host_memory_gb >= 16 {
            3
        } else {
            1
        })),
        audio: macos,
    }
}

pub open spec fn cores_key() -> Seq<char> {
    seq!['c', 'o', 'r', 'e', 's']
}

pub open spec fn mem_key() -> Seq<char> {
    seq!['m', 'e', 'm']
}

pub open spec fn audio_key() -> Seq<char> {
    seq!['a', 'u', 'd', 'i', 'o']
}

/// What one line of the file does to the settings: `key=value`, both trimmed; cores that do
/// not read as a number leave the count as it was, and audio is on only for `on`; any other
/// line is left alone.
pub open spec fn apply_line(s: (u32, Seq<char>, bool), line: Seq<char>) -> (u32, Seq<char>, bool) {
    match split_once(line, seq!['=']) {
        Some((key, value)) => {
            let k = trim(key);
            let v = trim(value);
            if k == cores_key() {
                (
                    match parse_unsigned(v, u32::MAX as int) {
                        Some(n) => n as u32,
                        None => s.0,
                    },
                    s.1,
                    s.2,
                )
            } else if k == mem_key() {
                (s.0, v, s.2)
            } else if k == audio_key() {
                (s.0, s.1, v == seq!['o', 'n'])
            } else {
                s
            }
        },
        None => s,
    }
}

/// The settings after every line of the file, in order.
pub open spec fn apply_lines(s: (u32, Seq<char>, bool), ls: Seq<Seq<char>>) -> (u32, Seq<char>, bool)
    decreases ls.len(),
{
    if ls.len() == 0 {
        s
    } else {
        apply_lines(apply_line(s, ls[0]), ls.drop_first())
    }
}

/// The settings the file's text gives, starting from the defaults.
pub fn parse_settings(defaults: Settings, text: &str) -> (r: Settings)
    ensures
        (r.cores, r.mem@, r.audio) == apply_lines(
            (defaults.cores, defaults.mem@, defaults.audio),
            lines(text@),
        ),
{
    let chars = chars_of(text);
    let ls = lines_of(chars.as_slice());
    let ghost all = lines(text@);
    let mut settings = defaults;
    let ghost start = (settings.cores, settings.mem@, settings.audio);
    let equals = ['='];
    let cores = ['c', 'o', 'r', 'e', 's'];
    let mem = ['m', 'e', 'm'];
    let audio = ['a', 'u', 'd', 'i', 'o'];
    let on = ['o', 'n'];
    assert(equals@ == seq!['=']);
    assert(cores@ == cores_key());
    assert(mem@ == mem_key());
    assert(audio@ == audio_key());
    assert(on@ == seq!['o', 'n']);
    let mut i: usize = 0;
    assert(all.skip(0) == all);
    while i < ls.len()
        invariant
            i <= ls@.len(),
            ls@.len() == all.len(),
            forall|k: int| 0 <= k < ls@.len() ==> (#[trigger] ls@[k])@ == all[k],
            apply_lines(start, all) == apply_lines(
                (settings.cores, settings.mem@, settings.audio),
                all.skip(i as int),
            ),
            equals@ == seq!['='],
            cores@ == cores_key(),
            mem@ == mem_key(),
            audio@ == audio_key(),
            on@ == seq!['o', 'n'],
        decreases ls@.len() - i,
    {
        let line = &ls[i];
        let ghost before = (settings.cores, settings.mem@, settings.audio);
        assert(all.skip(i as int)[0] == line@);
        assert(all.skip(i as int).drop_first() == all.skip(i + 1));
        match split_once_in(line.as_slice(), &equals) {
            Some((key, value)) => {
                let k = trimmed(key.as_slice());
                let v = trimmed(value.as_slice());
                if same_chars(k.as_slice(), &cores) {
                    match parse_u32(v.as_slice()) {
                        Some(n) => settings.cores = n,
                        None => {},
                    }
                } else if same_chars(k.as_slice(), &mem) {
                    settings.mem = string_of(v.as_slice());
                } else if same_chars(k.as_slice(), &audio) {
                    settings.audio = same_chars(v.as_slice(), &on);
                }
            },
            None => {},
        }
        assert((settings.cores, settings.mem@, settings.audio) == apply_line(before, line@));
        i = i + 1;
    }
    assert(all.skip(i as int).len() == 0);
    settings
}

/// The file's text for these settings: one `key=value` line for each, audio as `on` or
/// `off`.
pub open spec fn settings_file(cores: u32, mem: Seq<char>, audio: bool) -> Seq<char> {
    "cores="@ + decimal(cores as nat) + "\nmem="@ + mem + "\naudio="@ + (if audio {
        "on"@
    } else {
        "off"@
    }) + "\n"@
}

pub fn settings_text(settings: &Settings) -> (r: String)
    ensures
        r@ == settings_file(settings.cores, settings.mem@, settings.audio),
{
    let mut text = String::new();
    push_str(&mut text, "cores=");
    push_decimal(&mut text, settings.cores as u64);
    push_str(&mut text, "\nmem=");
    push_str(&mut text, settings.mem.as_str());
    push_str(&mut text, "\naudio=");
    if settings.audio {
        push_str(&mut text, "on");
    } else {
        push_str(&mut text, "off");
    }
    push_str(&mut text, "\n");
    text
}

/// What is written is what is read back: whatever the defaults, the file written for some
/// settings reads as those settings, where the memory size holds no line break and has no
/// whitespace at its ends.
pub proof fn a_written_file_reads_back(
    defaults: (u32, Seq<char>, bool),
    cores: u32,
    mem: Seq<char>,
    audio: bool,
)
    requires
        forall|i: int| 0 <= i < mem.len() ==> mem[i] != '\n',
        trim(mem) == mem,
    ensures
        apply_lines(defaults, lines(settings_file(cores, mem, audio))) == (cores, mem, audio),
{
    reveal_strlit("cores=");
    reveal_strlit("\nmem=");
    reveal_strlit("\naudio=");
    reveal_strlit("on");
    reveal_strlit("off");
    reveal_strlit("\n");
    lemma_decimal_reads_back(cores as nat);
    let digits = decimal(cores as nat);
    let value = if audio {
        seq!['o', 'n']
    } else {
        seq!['o', 'f', 'f']
    };
    let nl = seq!['\n'];
    let l1 = cores_key() + seq!['='] + digits;
    let l2 = mem_key() + seq!['='] + mem;
    let l3 = audio_key() + seq!['='] + value;
    let tail3 = l3 + nl + Seq::<char>::empty();
    let tail2 = l2 + nl + tail3;
    assert(settings_file(cores, mem, audio) =~= l1 + nl + tail2);
    assert forall|i: int| 0 <= i < l1.len() implies l1[i] != '\n' by {
        if i >= 6 {
            assert(l1[i] == digits[i - 6]);
            assert(is_digit(digits[i - 6]));
        }
    }
    assert forall|i: int| 0 <= i < l2.len() implies l2[i] != '\n' by {
        if i >= 4 {
            assert(l2[i] == mem[i - 4]);
        }
    }
    assert forall|i: int| 0 <= i < l3.len() implies l3[i] != '\n' by {}
    lemma_lines_cons(l1, tail2);
    lemma_lines_cons(l2, tail3);
    lemma_lines_cons(l3, Seq::<char>::empty());
    assert(lines(Seq::<char>::empty()) == Seq::<Seq<char>>::empty());
    assert(is_digit(digits.last()));
    assert(line_body(l1) == l1);
    if mem.len() > 0 {
        lemma_trimmed_ends(mem);
        assert(l2.last() == mem.last());
    }
    assert(line_body(l2) == l2);
    assert(line_body(l3) == l3);
    let ls = lines(settings_file(cores, mem, audio));
    assert(ls =~= seq![l1, l2, l3]);
    lemma_split_at_char(cores_key(), '=', digits);
    lemma_split_at_char(mem_key(), '=', mem);
    lemma_split_at_char(audio_key(), '=', value);
    assert(trim(cores_key()) == cores_key());
    assert(trim(mem_key()) == mem_key());
    assert(trim(audio_key()) == audio_key());
    assert(is_digit(digits[0]));
    assert(trim(digits) == digits);
    assert(trim(value) == value);
    assert(parse_unsigned(digits, u32::MAX as int) == Some(cores as int));
    let s1 = apply_line(defaults, l1);
    assert(s1 == (cores, defaults.1, defaults.2));
    let s2 = apply_line(s1, l2);
    assert(s2 == (cores, mem, defaults.2));
    let s3 = apply_line(s2, l3);
    assert(s3 == (cores, mem, audio));
    assert(ls.drop_first() =~= seq![l2, l3]);
    assert(ls.drop_first().drop_first() =~= seq![l3]);
    assert(ls.drop_first().drop_first().drop_first() =~= Seq::<Seq<char>>::empty());
    assert(apply_lines(s3, Seq::<Seq<char>>::empty()) == s3);
    assert(apply_lines(s2, seq![l3]) == s3);
    assert(apply_lines(s1, seq![l2, l3]) == s3);
}

} // verus!
