//! Character classes of the MF2 grammar.
//!
//! The grammar speaks of four classes of Unicode scalar values: characters
//! that may start a name, characters that may continue a name, whitespace,
//! and bidirectional-control characters.  Bidi controls may surround a name
//! but never appear inside one; [`is_valid_name_string`] checks that shape
//! for a whole token.

use vstd::prelude::*;

verus! {

/// An ASCII letter, `A`-`Z` or `a`-`z`.
pub open spec fn spec_is_alpha_char(c: char) -> bool {
    (0x41 <= c as u32 && c as u32 <= 0x5A) || (0x61 <= c as u32 && c as u32 <= 0x7A)
}

/// An ASCII digit, `0`-`9`.
pub open spec fn spec_is_digit_char(c: char) -> bool {
    0x30 <= c as u32 && c as u32 <= 0x39
}

/// The `name-start` production: the characters that may open a name.
pub open spec fn spec_is_name_start_char(c: char) -> bool {
    ||| spec_is_alpha_char(c)
    ||| c == '+'
    ||| c == '_'
    ||| (0xA1 <= c as u32 && c as u32 <= 0x61B)
    ||| (0x61D <= c as u32 && c as u32 <= 0x167F)
    ||| (0x1681 <= c as u32 && c as u32 <= 0x1FFF)
    ||| (0x200B <= c as u32 && c as u32 <= 0x200D)
    ||| (0x2010 <= c as u32 && c as u32 <= 0x2027)
    ||| (0x2030 <= c as u32 && c as u32 <= 0x205E)
    ||| (0x2060 <= c as u32 && c as u32 <= 0x2065)
    ||| (0x206A <= c as u32 && c as u32 <= 0x2FFF)
    ||| (0x3001 <= c as u32 && c as u32 <= 0xD7FF)
    ||| (0xE000 <= c as u32 && c as u32 <= 0xFDCF)
    ||| (0xFDF0 <= c as u32 && c as u32 <= 0xFFFD)
    ||| (0x10000 <= c as u32 && c as u32 <= 0x10FFFD && (c as u32) % 0x10000 <= 0xFFFD)
}

/// The `name-char` production: `name-start`, digits, `-` and `.`.
pub open spec fn spec_is_name_char(c: char) -> bool {
    c == '-' || c == '.' || spec_is_name_start_char(c) || spec_is_digit_char(c)
}

/// MF2 whitespace: space, tab, CR, LF and the ideographic space.
pub open spec fn spec_is_ws_char(c: char) -> bool {
    c == ' ' || c == '\u{09}' || c == '\u{0D}' || c == '\u{0A}' || c == '\u{3000}'
}

/// A bidirectional-control character: ALM, LRM, RLM, LRI, RLI, FSI, PDI.
pub open spec fn spec_is_bidi_char(c: char) -> bool {
    ||| c == '\u{061C}'
    ||| c == '\u{200E}'
    ||| c == '\u{200F}'
    ||| (0x2066 <= c as u32 && c as u32 <= 0x2069)
}

#[verifier::when_used_as_spec(spec_is_alpha_char)]
fn is_alpha_char(c: char) -> (r: bool)
    ensures
        r == spec_is_alpha_char(c),
{
    let u = c as u32;
    (0x41 <= u && u <= 0x5A) || (0x61 <= u && u <= 0x7A)
}

#[verifier::when_used_as_spec(spec_is_digit_char)]
fn is_digit_char(c: char) -> (r: bool)
    ensures
        r == spec_is_digit_char(c),
{
    let u = c as u32;
    0x30 <= u && u <= 0x39
}

/// Decides whether `c` may start a name.
#[verifier::when_used_as_spec(spec_is_name_start_char)]
pub fn is_name_start_char(c: char) -> (r: bool)
    ensures
        r == spec_is_name_start_char(c),
{
    let u = c as u32;
    is_alpha_char(c) || u == 0x2B || u == 0x5F || (0xA1 <= u && u <= 0x61B) || (0x61D <= u
        && u <= 0x167F) || (0x1681 <= u && u <= 0x1FFF) || (0x200B <= u && u <= 0x200D) || (0x2010
        <= u && u <= 0x2027) || (0x2030 <= u && u <= 0x205E) || (0x2060 <= u && u <= 0x2065)
        || (0x206A <= u && u <= 0x2FFF) || (0x3001 <= u && u <= 0xD7FF) || (0xE000 <= u
        && u <= 0xFDCF) || (0xFDF0 <= u && u <= 0xFFFD) || (0x10000 <= u && u <= 0x10FFFD && u
        % 0x10000 <= 0xFFFD)
}

/// Decides whether `c` may continue a name.
#[verifier::when_used_as_spec(spec_is_name_char)]
pub fn is_name_char(c: char) -> (r: bool)
    ensures
        r == spec_is_name_char(c),
{
    let u = c as u32;
    u == 0x2D || u == 0x2E || is_name_start_char(c) || is_digit_char(c)
}

/// Decides whether `c` is MF2 whitespace.
#[verifier::when_used_as_spec(spec_is_ws_char)]
pub fn is_ws_char(c: char) -> (r: bool)
    ensures
        r == spec_is_ws_char(c),
{
    let u = c as u32;
    u == 0x20 || u == 0x09 || u == 0x0D || u == 0x0A || u == 0x3000
}

/// Decides whether `c` is a bidirectional-control character.
#[verifier::when_used_as_spec(spec_is_bidi_char)]
pub fn is_bidi_char(c: char) -> (r: bool)
    ensures
        r == spec_is_bidi_char(c),
{
    let u = c as u32;
    u == 0x61C || u == 0x200E || u == 0x200F || (0x2066 <= u && u <= 0x2069)
}

/// `s` with its trailing run of whitespace and bidi controls removed.
pub open spec fn spec_trim_tail(s: Seq<char>) -> Seq<char>
    decreases s.len(),
{
    if s.len() > 0 && (spec_is_ws_char(s[s.len() - 1]) || spec_is_bidi_char(s[s.len() - 1])) {
        spec_trim_tail(s.drop_last())
    } else {
        s
    }
}

/// The index of the first character of `s` at or after `i` that is not a
/// bidi control; `s.len()` if every character from `i` on is one.
pub open spec fn spec_first_non_bidi(s: Seq<char>, i: int) -> int
    recommends
        0 <= i <= s.len(),
    decreases s.len() - i,
{
    if i < s.len() && spec_is_bidi_char(s[i]) {
        spec_first_non_bidi(s, i + 1)
    } else {
        i
    }
}

/// The start of the run of bidi controls that ends just before `j`;
/// `0` if every character before `j` is one.
pub open spec fn spec_bidi_suffix_start(s: Seq<char>, j: int) -> int
    recommends
        0 <= j <= s.len(),
    decreases j,
{
    if j > 0 && spec_is_bidi_char(s[j - 1]) {
        spec_bidi_suffix_start(s, j - 1)
    } else {
        j
    }
}

/// A bare name: a name-start character followed by name characters, with
/// no bidi control anywhere.
pub open spec fn spec_is_name_seq(s: Seq<char>) -> bool {
    &&& s.len() > 0
    &&& spec_is_name_start_char(s[0])
    &&& !spec_is_bidi_char(s[0])
    &&& forall|k: int|
        1 <= k < s.len() ==> spec_is_name_char(#[trigger] s[k]) && !spec_is_bidi_char(s[k])
}

/// A well-formed name token: a bare name, optionally preceded or followed
/// (but not both, and never interrupted) by a run of bidi controls.
pub open spec fn spec_is_valid_name(s: Seq<char>) -> bool {
    let i = spec_first_non_bidi(s, 0);
    let j = spec_bidi_suffix_start(s, s.len() as int);
    &&& i < s.len()
    &&& (i == 0 || j == s.len())
    &&& spec_is_name_seq(s.subrange(i, j))
}

/// Decides whether `s` is a well-formed name token: an optional run of
/// bidi controls at one end (not both), around a name-start character
/// followed by name characters.
pub fn is_valid_name_string(s: &str) -> (r: bool)
    ensures
        r == spec_is_valid_name(s@),
{
    let len = s.unicode_len();
    let mut i: usize = 0;
    while i < len && is_bidi_char(s.get_char(i))
        invariant
            0 <= i <= len == s@.len(),
            spec_first_non_bidi(s@, 0) == spec_first_non_bidi(s@, i as int),
            forall|m: int| 0 <= m < i ==> spec_is_bidi_char(#[trigger] s@[m]),
        decreases len - i,
    {
        i = i + 1;
    }
    assert(spec_first_non_bidi(s@, 0) == i as int);
    if i == len {
        return false;
    }
    let mut j: usize = len;
    while j > 0 && is_bidi_char(s.get_char(j - 1))
        invariant
            0 <= j <= len == s@.len(),
            spec_bidi_suffix_start(s@, len as int) == spec_bidi_suffix_start(s@, j as int),
            forall|m: int| j <= m < len ==> spec_is_bidi_char(#[trigger] s@[m]),
        decreases j,
    {
        j = j - 1;
    }
    assert(spec_bidi_suffix_start(s@, len as int) == j as int);
    if !(i == 0 || j == len) {
        return false;
    }
    // The scan from the end stopped at a non-bidi character no earlier
    // than position i, so the candidate core [i, j) is non-empty.
    assert(i < j) by {
        if j <= i {
            assert(spec_is_bidi_char(s@[i as int]));
        }
    }
    let ghost core = s@.subrange(i as int, j as int);
    let c0 = s.get_char(i);
    if !is_name_start_char(c0) {
        assert(!spec_is_name_seq(core)) by {
            assert(core[0] == s@[i as int]);
        }
        return false;
    }
    let mut k: usize = i + 1;
    while k < j
        invariant
            i < j <= len == s@.len(),
            i + 1 <= k <= j,
            i as int == spec_first_non_bidi(s@, 0),
            j as int == spec_bidi_suffix_start(s@, s@.len() as int),
            i == 0 || j == len,
            spec_is_name_start_char(s@[i as int]),
            !spec_is_bidi_char(s@[i as int]),
            core == s@.subrange(i as int, j as int),
            forall|m: int|
                i < m < k ==> spec_is_name_char(#[trigger] s@[m]) && !spec_is_bidi_char(s@[m]),
        decreases j - k,
    {
        let c = s.get_char(k);
        if !is_name_char(c) || is_bidi_char(c) {
            assert(!spec_is_name_seq(core)) by {
                assert(core[k - i] == s@[k as int]);
            }
            return false;
        }
        k = k + 1;
    }
    assert(spec_is_name_seq(core)) by {
        assert(core[0] == s@[i as int]);
        assert(!spec_is_bidi_char(s@[i as int]));
        assert(forall|m: int| 1 <= m < core.len() ==> core[m] == s@[m + i]);
    }
    true
}

/// Removes the trailing run of whitespace and bidi controls from `s`.
pub fn trim_tail_ws_and_bidi(s: &str) -> (r: String)
    ensures
        r@ == spec_trim_tail(s@),
{
    let len = s.unicode_len();
    let mut i: usize = len;
    proof {
        assert(s@.subrange(0, len as int) =~= s@);
    }
    while i > 0 && (is_ws_char(s.get_char(i - 1)) || is_bidi_char(s.get_char(i - 1)))
        invariant
            0 <= i <= len == s@.len(),
            spec_trim_tail(s@) == spec_trim_tail(s@.subrange(0, i as int)),
        decreases i,
    {
        proof {
            assert(s@.subrange(0, i as int).drop_last() =~= s@.subrange(0, i - 1));
        }
        i = i - 1;
    }
    proof {
        if i > 0 {
            assert(s@.subrange(0, i as int)[i - 1] == s@[i - 1]);
        }
    }
    String::from_str(s.substring_char(0, i))
}

} // verus!
