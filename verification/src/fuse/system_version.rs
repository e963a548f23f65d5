//! Whether the running macOS can mount a directory-backed FSKit volume, read
//! from what `sw_vers -productVersion` prints.
//!
//! The major version is the text before the first `.`, with Unicode white
//! space trimmed from both ends, read as a `u32`; text that is not such a
//! number counts as version 0. The rules work on the raw bytes: white space,
//! digits and `.` are never part of a longer UTF-8 sequence, so the result is
//! the same as on the text with invalid bytes replaced.
use crate::cli::{parse_u64, spec_parse_u64};
use vstd::prelude::*;
use vstd::slice::slice_subrange;

verus! {

/// The first macOS major version with directory-backed FSKit volumes.
pub const FSKIT_MIN_MAJOR: u32 = 26;

/// The position of the first `.`, or the length when there is none.
pub open spec fn first_dot(s: Seq<u8>) -> int {
    if exists|i: int| 0 <= i < s.len() && s[i] == 46u8 {
        choose|i: int|
            0 <= i < s.len() && s[i] == 46u8 && forall|j: int| 0 <= j < i ==> #[trigger] s[j] != 46u8
    } else {
        s.len() as int
    }
}

/// Whether three bytes encode a white-space character of three UTF-8 bytes:
/// U+1680, U+2000 to U+200A, U+2028, U+2029, U+202F, U+205F or U+3000.
pub open spec fn is_wide_space(a: u8, b: u8, c: u8) -> bool {
    ||| (a == 0xE1u8 && b == 0x9Au8 && c == 0x80u8)
    ||| (a == 0xE2u8 && b == 0x80u8 && ((0x80u8 <= c && c <= 0x8Au8) || c == 0xA8u8 || c == 0xA9u8
        || c == 0xAFu8))
    ||| (a == 0xE2u8 && b == 0x81u8 && c == 0x9Fu8)
    ||| (a == 0xE3u8 && b == 0x80u8 && c == 0x80u8)
}

/// Whether a byte is ASCII white space: tab, line feed, vertical tab, form
/// feed, carriage return or space.
pub open spec fn is_ascii_space(b: u8) -> bool {
    (9u8 <= b && b <= 13u8) || b == 32u8
}

/// The length of the white-space character that `s` starts with, or 0.
pub open spec fn space_prefix_len(s: Seq<u8>) -> int {
    if s.len() >= 1 && is_ascii_space(s[0]) {
        1
    } else if s.len() >= 2 && s[0] == 0xC2u8 && (s[1] == 0x85u8 || s[1] == 0xA0u8) {
        2
    } else if s.len() >= 3 && is_wide_space(s[0], s[1], s[2]) {
        3
    } else {
        0
    }
}

/// The length of the white-space character that `s` ends with, or 0.
pub open spec fn space_suffix_len(s: Seq<u8>) -> int {
    let n = s.len() as int;
    if n >= 1 && is_ascii_space(s[n - 1]) {
        1
    } else if n >= 2 && s[n - 2] == 0xC2u8 && (s[n - 1] == 0x85u8 || s[n - 1] == 0xA0u8) {
        2
    } else if n >= 3 && is_wide_space(s[n - 3], s[n - 2], s[n - 1]) {
        3
    } else {
        0
    }
}

/// `s` without the white space it starts with.
pub open spec fn trim_start(s: Seq<u8>) -> Seq<u8>
    decreases s.len(),
{
    if space_prefix_len(s) > 0 {
        trim_start(s.subrange(space_prefix_len(s), s.len() as int))
    } else {
        s
    }
}

/// `s` without the white space it ends with.
pub open spec fn trim_end(s: Seq<u8>) -> Seq<u8>
    decreases s.len(),
{
    if space_suffix_len(s) > 0 {
        trim_end(s.subrange(0, s.len() - space_suffix_len(s)))
    } else {
        s
    }
}

/// The major version in what `sw_vers -productVersion` printed.
pub open spec fn spec_macos_major(output: Seq<u8>) -> u32 {
    let core = trim_end(trim_start(output.subrange(0, first_dot(output))));
    match spec_parse_u64(core) {
        Some(v) => if v <= u32::MAX {
            v as u32
        } else {
            0
        },
        None => 0,
    }
}

fn space_prefix(s: &[u8]) -> (r: usize)
    ensures
        r == space_prefix_len(s@),
{
    let n = s.len();
    if n >= 1 && ((9u8 <= s[0] && s[0] <= 13u8) || s[0] == 32u8) {
        1
    } else if n >= 2 && s[0] == 0xC2u8 && (s[1] == 0x85u8 || s[1] == 0xA0u8) {
        2
    } else if n >= 3 && wide_space(s[0], s[1], s[2]) {
        3
    } else {
        0
    }
}

fn space_suffix(s: &[u8]) -> (r: usize)
    ensures
        r == space_suffix_len(s@),
{
    let n = s.len();
    if n >= 1 && ((9u8 <= s[n - 1] && s[n - 1] <= 13u8) || s[n - 1] == 32u8) {
        1
    } else if n >= 2 && s[n - 2] == 0xC2u8 && (s[n - 1] == 0x85u8 || s[n - 1] == 0xA0u8) {
        2
    } else if n >= 3 && wide_space(s[n - 3], s[n - 2], s[n - 1]) {
        3
    } else {
        0
    }
}

fn wide_space(a: u8, b: u8, c: u8) -> (r: bool)
    ensures
        r == is_wide_space(a, b, c),
{
    (a == 0xE1u8 && b == 0x9Au8 && c == 0x80u8) || (a == 0xE2u8 && b == 0x80u8 && ((0x80u8 <= c
        && c <= 0x8Au8) || c == 0xA8u8 || c == 0xA9u8 || c == 0xAFu8)) || (a == 0xE2u8 && b
        == 0x81u8 && c == 0x9Fu8) || (a == 0xE3u8 && b == 0x80u8 && c == 0x80u8)
}

/// The major version in what `sw_vers -productVersion` printed; 0 when it
/// cannot be read.
pub fn macos_major_version(output: &[u8]) -> (r: u32)
    ensures
        r == spec_macos_major(output@),
{
    let mut dot: usize = 0;
    while dot < output.len() && output[dot] != 46u8
        invariant
            dot <= output.len(),
            forall|j: int| 0 <= j < dot ==> output@[j] != 46u8,
        decreases output.len() - dot,
    {
        dot = dot + 1;
    }
    proof {
        if dot < output.len() {
            let i = choose|i: int|
                0 <= i < output@.len() && output@[i] == 46u8 && forall|j: int|
                    0 <= j < i ==> #[trigger] output@[j] != 46u8;
            if i < dot {
                assert(output@[i] != 46u8);
            }
            if i > dot {
                assert(output@[dot as int] != 46u8);
            }
        }
    }
    assert(first_dot(output@) == dot);
    let mut start: usize = 0;
    assert(output@.subrange(0, dot as int).subrange(0, dot as int) =~= output@.subrange(0, dot as int));
    while start < dot && space_prefix(slice_subrange(output, start, dot)) > 0
        invariant
            start <= dot <= output.len(),
            trim_start(output@.subrange(start as int, dot as int)) == trim_start(output@.subrange(0, dot as int)),
        decreases dot - start,
    {
        let n = space_prefix(slice_subrange(output, start, dot));
        let ghost sub = output@.subrange(start as int, dot as int);
        assert(sub.subrange(n as int, sub.len() as int) =~= output@.subrange(start + n, dot as int));
        start = start + n;
    }
    let mut end: usize = dot;
    if start < dot {
        assert(space_prefix_len(output@.subrange(start as int, dot as int)) == 0);
    } else {
        assert(output@.subrange(start as int, dot as int).len() == 0);
    }
    while end > start && space_suffix(slice_subrange(output, start, end)) > 0
        invariant
            start <= end <= dot,
            dot <= output.len(),
            trim_end(output@.subrange(start as int, end as int)) == trim_end(
                trim_start(output@.subrange(0, dot as int)),
            ),
        decreases end - start,
    {
        let n = space_suffix(slice_subrange(output, start, end));
        let ghost sub = output@.subrange(start as int, end as int);
        assert(sub.subrange(0, sub.len() - n) =~= output@.subrange(start as int, end - n));
        end = end - n;
    }
    let core = slice_subrange(output, start, end);
    if start < end {
        assert(space_suffix_len(core@) == 0);
    }
    assert(trim_end(core@) == core@);
    match parse_u64(core) {
        Some(v) => if v <= 4294967295u64 {
            v as u32
        } else {
            0
        },
        None => 0,
    }
}

/// Whether directory-backed FSKit mounting is available on the macOS whose
/// version `sw_vers -productVersion` printed: major version 26 or later.
pub fn fskit_mount_supported(output: &[u8]) -> (r: bool)
    ensures
        r == (spec_macos_major(output@) >= FSKIT_MIN_MAJOR),
{
    macos_major_version(output) >= FSKIT_MIN_MAJOR
}

} // verus!
