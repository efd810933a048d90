//! What the host has to give: its cores, its memory and its panel's refresh rate, read out
//! of what the system reports.
use vstd::prelude::*;
use crate::text::{
    chars_of, lines, lines_of, parse_u32, parse_u64, parse_unsigned, strip_prefix,
    strip_prefix_in, trim, trimmed,
};

verus! {

/// The cores the host reports (the output of `sysctl -n hw.ncpu` or `nproc`), trimmed, or
/// eight when it says nothing that reads as a number.
pub fn host_cores_from(output: Option<&str>) -> (r: u32)
    ensures
        r == match output {
            Some(text) => match parse_unsigned(trim(text@), u32::MAX as int) {
                Some(n) => n as u32,
                None => 8,
            },
            None => 8,
        },
{
    match output {
        Some(text) => match parse_u32(trimmed(chars_of(text).as_slice()).as_slice()) {
            Some(n) => n,
            None => 8,
        },
        None => 8,
    }
}

/// The bytes of memory `sysctl -n hw.memsize` reports, trimmed, or none.
pub fn memsize_from(output: Option<&str>) -> (r: u64)
    ensures
        r == match output {
            Some(text) => match parse_unsigned(trim(text@), u64::MAX as int) {
                Some(n) => n as u64,
                None => 0,
            },
            None => 0,
        },
{
    match output {
        Some(text) => match parse_u64(trimmed(chars_of(text).as_slice()).as_slice()) {
            Some(n) => n,
            None => 0,
        },
        None => 0,
    }
}

/// `str::trim_end_matches`: the text with every copy of the pattern at its end dropped.
pub open spec fn trim_end_matches(s: Seq<char>, pat: Seq<char>) -> Seq<char>
    decreases s.len(),
{
    if pat.len() > 0 && pat.len() <= s.len() && s.skip(s.len() - pat.len()) == pat {
        trim_end_matches(s.take(s.len() - pat.len()), pat)
    } else {
        s
    }
}

fn trim_end_matches_in(s: &[char], pat: &[char]) -> (r: Vec<char>)
    ensures
        r@ == trim_end_matches(s@, pat@),
{
    let mut end: usize = s.len();
    let m = pat.len();
    assert(s@.take(end as int) == s@);
    while m > 0 && m <= end && suffix_is(s, end, pat)
        invariant
            end <= s@.len(),
            m == pat@.len(),
            trim_end_matches(s@, pat@) == trim_end_matches(s@.take(end as int), pat@),
        decreases end,
    {
        assert(s@.take(end as int).take(end - m) == s@.take(end - m));
        end = end - m;
    }
    slice_to_vec_prefix(s, end)
}

fn suffix_is(s: &[char], end: usize, pat: &[char]) -> (r: bool)
    requires
        end <= s@.len(),
        pat@.len() <= end,
    ensures
        r == (s@.take(end as int).skip(end - pat@.len()) == pat@),
{
    let m = pat.len();
    let start = end - m;
    let mut k: usize = 0;
    while k < m
        invariant
            k <= m,
            m == pat@.len(),
            start + m == end,
            end <= s@.len(),
            forall|t: int| 0 <= t < k ==> s@[start + t] == pat@[t],
        decreases m - k,
    {
        if s[start + k] != pat[k] {
            assert(s@.take(end as int).skip(start as int)[k as int] != pat@[k as int]);
            return false;
        }
        k = k + 1;
    }
    assert(s@.take(end as int).skip(start as int) =~= pat@);
    true
}

fn slice_to_vec_prefix(s: &[char], end: usize) -> (r: Vec<char>)
    requires
        end <= s@.len(),
    ensures
        r@ == s@.take(end as int),
{
    let mut out: Vec<char> = Vec::new();
    let mut i: usize = 0;
    while i < end
        invariant
            i <= end,
            end <= s@.len(),
            out@ == s@.take(i as int),
        decreases end - i,
    {
        out.push(s[i]);
        assert(s@.take(i + 1) == s@.take(i as int).push(s@[i as int]));
        i = i + 1;
    }
    out
}

pub open spec fn mem_total_prefix() -> Seq<char> {
    seq!['M', 'e', 'm', 'T', 'o', 't', 'a', 'l', ':']
}

/// The kilobytes a `MemTotal:` line of `/proc/meminfo` gives: after the label, trimmed, its
/// `kB` dropped, trimmed again, as a number.
pub open spec fn mem_total_of(line: Seq<char>) -> Option<int> {
    match strip_prefix(line, mem_total_prefix()) {
        Some(rest) => parse_unsigned(
            trim(trim_end_matches(trim(rest), seq!['k', 'B'])),
            u64::MAX as int,
        ),
        None => None,
    }
}

/// The first line that gives the total.
pub open spec fn first_mem_total(ls: Seq<Seq<char>>) -> Option<int>
    decreases ls.len(),
{
    if ls.len() == 0 {
        None
    } else {
        match mem_total_of(ls[0]) {
            Some(kb) => Some(kb),
            None => first_mem_total(ls.drop_first()),
        }
    }
}

/// The memory `/proc/meminfo` reports, in kilobytes: the first line that gives it.
pub fn meminfo_total_kb(text: &str) -> (r: Option<u64>)
    ensures
        match r {
            Some(kb) => first_mem_total(lines(text@)) == Some(kb as int),
            None => first_mem_total(lines(text@)) is None,
        },
{
    let chars = chars_of(text);
    let ls = lines_of(chars.as_slice());
    let ghost all = lines(text@);
    let label = ['M', 'e', 'm', 'T', 'o', 't', 'a', 'l', ':'];
    let kb = ['k', 'B'];
    assert(label@ == mem_total_prefix());
    assert(kb@ == seq!['k', 'B']);
    let mut i: usize = 0;
    assert(all.skip(0) == all);
    while i < ls.len()
        invariant
            i <= ls@.len(),
            ls@.len() == all.len(),
            forall|k: int| 0 <= k < ls@.len() ==> (#[trigger] ls@[k])@ == all[k],
            all == lines(text@),
            first_mem_total(all) == first_mem_total(all.skip(i as int)),
            label@ == mem_total_prefix(),
            kb@ == seq!['k', 'B'],
        decreases ls@.len() - i,
    {
        let line = &ls[i];
        assert(all.skip(i as int)[0] == line@);
        assert(all.skip(i as int).drop_first() == all.skip(i + 1));
        let found = match strip_prefix_in(line.as_slice(), &label) {
            Some(rest) => {
                let a = trimmed(rest.as_slice());
                let b = trim_end_matches_in(a.as_slice(), &kb);
                let c = trimmed(b.as_slice());
                parse_u64(c.as_slice())
            },
            None => None,
        };
        match found {
            Some(n) => {
                assert(mem_total_of(line@) == Some(n as int));
                assert(first_mem_total(all.skip(i as int)) == Some(n as int));
                return Some(n);
            },
            None => {
                assert(mem_total_of(line@) is None);
            },
        }
        i = i + 1;
    }
    assert(all.skip(i as int).len() == 0);
    None
}

/// Bytes in a gigabyte.
pub const GIGABYTE: u64 = 1073741824;

/// The host's memory in whole gigabytes, taken as a `u32`, and never under four.
pub open spec fn spec_memory_gb(bytes: u64) -> u32 {
    let gb = (bytes / GIGABYTE) as u32;
    if gb < 4 {
        4
    } else {
        gb
    }
}

pub fn memory_gb(bytes: u64) -> (r: u32)
    ensures
        r == spec_memory_gb(bytes),
{
    let gb = (bytes / GIGABYTE) as u32;
    if gb < 4 {
        4
    } else {
        gb
    }
}

/// The refresh rate the guest paces its frames to, in millihertz, the unit QEMU's UI info
/// carries: the panel's frames per second, capped at what a `u32` holds.
pub fn millihertz(frames: usize) -> (r: u32)
    requires
        frames * 1000 <= usize::MAX,
    ensures
        r == if frames * 1000 < u32::MAX {
            frames * 1000
        } else {
            u32::MAX as int
        },
{
    let rate = frames * 1000;
    if rate < u32::MAX as usize {
        rate as u32
    } else {
        u32::MAX
    }
}

} // verus!
