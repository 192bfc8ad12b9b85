//! The brightness block: the backlight level as a percentage.
use vstd::prelude::*;

use crate::text::{decimal_text, parse_i32, parse_i32_spec, push_char, push_signed, to_chars, trim_bounds, trimmed};

verus! {

/// How often the level is read, in milliseconds.
pub const PERIOD_MS: u64 = 100;

/// The backlight level that counts as 100%.
pub const MAX_VALUE: i32 = 852;

/// Where the backlight level is read from.
pub const BRIGHTNESS_PATH: &'static str = "/sys/class/backlight/intel_backlight/brightness";

/// Integer division that rounds toward zero, as `/` on `i32` does.
pub open spec fn div_toward_zero(a: int, b: int) -> int {
    if a >= 0 {
        a / b
    } else {
        -((-a) / b)
    }
}

/// The level as a percentage of the maximum, rounded toward zero.
pub open spec fn brightness_percent(val: int) -> int {
    div_toward_zero(val * 100, MAX_VALUE as int)
}

/// The position of the icon for a level: the level in thirds of the maximum,
/// and the brightest icon for anything outside `0..=2` (a negative third
/// becomes a huge `usize`).
pub open spec fn icon_index(val: int) -> int {
    let q = div_toward_zero(val * 3, MAX_VALUE as int);
    if q < 0 || q > 2 {
        2
    } else {
        q
    }
}

/// The icon at a position of the ramp.
pub open spec fn ramp_icon(i: int) -> char {
    if i == 0 {
        '\u{f5dd}'
    } else if i == 1 {
        '\u{f5de}'
    } else {
        '\u{f5df}'
    }
}

/// What the block shows for a level.
pub open spec fn brightness_view(val: int) -> Seq<char> {
    seq![ramp_icon(icon_index(val)), ' '] + decimal_text(brightness_percent(val)) + seq!['%']
}

/// Levels from off to the maximum show percentages from 0 to 100 and one
/// of the three icons; a higher level never shows a lower percentage.
pub proof fn lemma_brightness_range(a: int, b: int)
    requires
        0 <= a <= b <= MAX_VALUE,
    ensures
        0 <= brightness_percent(a) <= brightness_percent(b) <= 100,
        0 <= icon_index(a) <= 2,
{
    assert((a * 100) / 852 <= (b * 100) / 852) by (nonlinear_arith)
        requires
            0 <= a <= b,
    ;
    assert((b * 100) / 852 <= 100) by (nonlinear_arith)
        requires
            0 <= b <= 852,
    ;
    assert(0 <= (a * 100) / 852) by (nonlinear_arith)
        requires
            0 <= a,
    ;
}

/// The backlight level written in a file's contents, as
/// `contents.trim().parse::<i32>()` reads it.
pub fn parse_brightness(contents: &str) -> (r: Result<i32, ()>)
    ensures
        r == match parse_i32_spec(trimmed(contents@)) {
            Some(v) => Ok::<i32, ()>(v),
            None => Err(()),
        },
{
    let cs = to_chars(contents);
    let (lo, hi) = trim_bounds(&cs);
    match parse_i32(&cs, lo, hi) {
        Some(v) => Ok(v),
        None => Err(()),
    }
}

/// What the block shows for a level: the icon, the percentage and `%`.
pub fn brightness_text(val: i32) -> (s: String)
    requires
        -21474836 <= val <= 21474836,
    ensures
        s@ == brightness_view(val as int),
{
    let perc: i32 = if val >= 0 {
        (val * 100) / MAX_VALUE
    } else {
        -((-val * 100) / MAX_VALUE)
    };
    let third: i32 = if val >= 0 {
        (val * 3) / MAX_VALUE
    } else {
        -((-val * 3) / MAX_VALUE)
    };
    let icon = if third < 0 || third > 2 {
        '\u{f5df}'
    } else if third == 0 {
        '\u{f5dd}'
    } else if third == 1 {
        '\u{f5de}'
    } else {
        '\u{f5df}'
    };
    let mut s = String::new();
    push_char(&mut s, icon);
    push_char(&mut s, ' ');
    push_signed(&mut s, perc as i64);
    push_char(&mut s, '%');
    assert(s@ =~= brightness_view(val as int));
    s
}

} // verus!
