//! The display's size, read from what `xrandr` reports.

use vstd::prelude::*;
use crate::pattern::{captures, compile, group_views, regex_captures, regex_compiles};

verus! {

pub open spec fn is_digit(c: char) -> bool {
    '0' <= c && c <= '9'
}

/// The value of a string of decimal digits.
pub open spec fn digits_value(s: Seq<char>) -> nat
    decreases s.len(),
{
    if s.len() == 0 {
        0
    } else {
        digits_value(s.drop_last()) * 10 + ((s.last() as u32) - ('0' as u32)) as nat
    }
}

/// The text after an optional leading `+`.
pub open spec fn unsigned_body(s: Seq<char>) -> Seq<char> {
    if s.len() > 0 && s[0] == '+' {
        s.drop_first()
    } else {
        s
    }
}

pub open spec fn all_digits(s: Seq<char>) -> bool {
    forall|i: int| 0 <= i < s.len() ==> is_digit(#[trigger] s[i])
}

/// What `u32::from_str` accepts: an optional `+`, then one or more decimal
/// digits, of a value that fits.
pub open spec fn u32_of(s: Seq<char>) -> Option<u32> {
    let body = unsigned_body(s);
    if body.len() == 0 || !all_digits(body) {
        None
    } else if digits_value(body) > u32::MAX {
        None
    } else {
        Some(digits_value(body) as u32)
    }
}

/// Reads a decimal number as `u32::from_str` does.
pub fn parse_u32(s: &str) -> (r: Option<u32>)
    ensures
        r == u32_of(s@),
{
    let n = s.unicode_len();
    let start: usize = if n > 0 && s.get_char(0) == '+' { 1 } else { 0 };
    let ghost body = s@.skip(start as int);
    assert(body == unsigned_body(s@)) by {
        assert(s@.skip(0) =~= s@);
        if s@.len() > 0 {
            assert(s@.skip(1) =~= s@.drop_first());
        }
    }
    if start == n {
        return None;
    }
    let mut acc: u64 = 0;
    let mut i: usize = start;
    while i < n
        invariant
            start <= i <= n,
            n == s@.len(),
            body == s@.skip(start as int),
            body == unsigned_body(s@),
            forall|k: int| 0 <= k < i - start ==> is_digit(#[trigger] body[k]),
            digits_value(body.take(i - start)) <= u32::MAX ==> acc == digits_value(
                body.take(i - start),
            ),
            digits_value(body.take(i - start)) > u32::MAX ==> acc > u32::MAX,
            acc <= 0xFFFF_FFFF * 10 + 9,
        decreases n - i,
    {
        let c = s.get_char(i);
        assert(body[i - start] == c);
        if !('0' <= c && c <= '9') {
            assert(!is_digit(body[i - start]));
            return None;
        }
        let d = (c as u32 - '0' as u32) as u64;
        assert(body.take(i + 1 - start).drop_last() =~= body.take(i - start));
        if acc <= 0xFFFF_FFFF {
            acc = acc * 10 + d;
        }
        i += 1;
    }
    assert(body.take(n - start) =~= body);
    assert(all_digits(body));
    if acc > 0xFFFF_FFFF {
        None
    } else {
        Some(acc as u32)
    }
}

/// The pattern of the current size in `xrandr`'s output.
pub open spec fn size_pattern() -> Seq<char> {
    "current (\\d+) x (\\d+)"@
}

/// The text of group `i`, or the empty text where the group is missing.
pub open spec fn group_text(g: Seq<Option<Seq<char>>>, i: int) -> Seq<char> {
    if 0 <= i < g.len() && g[i] is Some {
        g[i]->Some_0
    } else {
        Seq::empty()
    }
}

/// The size that the groups of a match give: the first group as the width
/// and the second as the height, where both read as `u32`.
pub open spec fn size_of_groups(g: Seq<Option<Seq<char>>>) -> Option<(u32, u32)> {
    match (u32_of(group_text(g, 1)), u32_of(group_text(g, 2))) {
        (Some(w), Some(h)) => Some((w, h)),
        _ => None,
    }
}

/// The size that `xrandr`'s output reports as current: the numbers after
/// the first `current` and before and after its `x`, where both read as
/// `u32`.
pub open spec fn screen_size_spec(text: Seq<char>) -> Option<(u32, u32)> {
    if !regex_compiles(size_pattern()) {
        None
    } else {
        match regex_captures(size_pattern(), text) {
            None => None,
            Some(g) => size_of_groups(g),
        }
    }
}

/// A display size in pixels.
#[derive(Clone, Copy, Debug, PartialEq, Eq, Structural)]
pub struct Screen {
    pub width: u32,
    pub height: u32,
}

fn group_or_empty(g: &Vec<Option<String>>, i: usize) -> (r: &str)
    ensures
        r@ == group_text(group_views(g@), i as int),
{
    proof {
        reveal_strlit("");
    }
    if i < g.len() {
        assert(group_views(g@)[i as int] == (match g@[i as int] {
            Some(t) => Some(t@),
            None => None,
        }));
        match &g[i] {
            Some(t) => t.as_str(),
            None => "",
        }
    } else {
        ""
    }
}

/// Reads the current display size from `xrandr`'s output.
pub fn screen_size(xrandr_output: &str) -> (r: Option<Screen>)
    ensures
        match r {
            Some(s) => screen_size_spec(xrandr_output@) == Some((s.width, s.height)),
            None => screen_size_spec(xrandr_output@) is None,
        },
{
    proof {
        reveal_strlit("");
    }
    let re = match compile("current (\\d+) x (\\d+)") {
        Some(re) => re,
        None => return None,
    };
    let groups = match captures(&re, xrandr_output) {
        Some(g) => g,
        None => return None,
    };
    size_from_groups(&groups)
}

/// Reads the size from the groups of a match of the size pattern (group 1
/// the width, group 2 the height; a missing group reads as empty text).
pub fn size_from_groups(groups: &Vec<Option<String>>) -> (r: Option<Screen>)
    ensures
        match r {
            Some(s) => size_of_groups(group_views(groups@)) == Some((s.width, s.height)),
            None => size_of_groups(group_views(groups@)) is None,
        },
{
    let width = parse_u32(group_or_empty(groups, 1));
    let height = parse_u32(group_or_empty(groups, 2));
    match (width, height) {
        (Some(width), Some(height)) => Some(Screen { width, height }),
        _ => None,
    }
}

/// The size to render for: the reported one, or 600 by 800 where none was
/// reported.
pub fn screen_or_default(s: Option<Screen>) -> (r: Screen)
    ensures
        r == (match s {
            Some(s) => s,
            None => Screen { width: 600, height: 800 },
        }),
{
    match s {
        Some(s) => s,
        None => Screen { width: 600, height: 800 },
    }
}

} // verus!
