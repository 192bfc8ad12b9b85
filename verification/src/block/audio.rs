//! The audio block: the master volume, or the mute icon.
use vstd::prelude::*;

use super::element::ElementFormat;
use crate::text::push_char;

verus! {

pub const ICON_MUTE: char = '\u{fc5d}';

pub const ICON_NORM: char = '\u{fa7d}';

/// The mixer range that the percentage is taken of.
pub const MIN_VOLUME: i64 = 0;

pub const MAX_VOLUME: i64 = 74;

/// What the block shows: the volume (already written as a rounded
/// percentage) when the channel plays, the mute icon as information when
/// it does not.
pub fn audio_status(active: bool, percent: &str) -> (r: (String, ElementFormat))
    ensures
        active ==> r.0@ == seq![ICON_NORM, ' '] + percent@ + seq!['%'],
        active ==> r.1 == ElementFormat::Normal,
        !active ==> r.0@ == seq![ICON_MUTE],
        !active ==> r.1 == ElementFormat::Info,
{
    let mut s = String::new();
    if active {
        push_char(&mut s, ICON_NORM);
        push_char(&mut s, ' ');
        s.append(percent);
        push_char(&mut s, '%');
        assert(s@ =~= seq![ICON_NORM, ' '] + percent@ + seq!['%']);
        (s, ElementFormat::Normal)
    } else {
        push_char(&mut s, ICON_MUTE);
        assert(s@ =~= seq![ICON_MUTE]);
        (s, ElementFormat::Info)
    }
}

} // verus!
