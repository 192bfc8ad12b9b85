//! The time block: the clock, short or long, in pango markup.
use chrono::{DateTime, FixedOffset};
use vstd::prelude::*;

use super::element::{pango_span, Element, ElementView, PangoFontWeight, PangoFormat};
use super::{toggle, toggled};
use crate::text::push_char;

verus! {

/// How long the block waits for a click between two readings, in seconds.
pub const PERIOD: u64 = 1;

/// The `strftime` pattern of the long form: weekday, date and time.
pub const LONG_FORMAT: &'static str = "%a, %m.%d.%Y %H:%M";

/// The `strftime` pattern of the short form: the time of day.
pub const SHORT_FORMAT: &'static str = "%H:%M";

pub const ICON: char = '\u{f64f}';

/// The earliest and the latest timestamps the clock is written for: well
/// inside the range of dates that `chrono` represents.
pub const MIN_TIMESTAMP: i64 = -6000000000000;

pub const MAX_TIMESTAMP: i64 = 6000000000000;

/// The text that `chrono` writes, with a `strftime` pattern, for the moment
/// `timestamp` (seconds since the Unix epoch) at UTC offset `offset_secs`.
pub uninterp spec fn clock_text(timestamp: int, offset_secs: int, pattern: Seq<char>) -> Seq<char>;

/// Writes a moment in a time zone with a pattern (`DateTime::from_timestamp`,
/// `FixedOffset::east_opt`, `DateTime::with_timezone`, `DateTime::format`).
#[verifier::external_body]
fn format_clock(timestamp: i64, offset_secs: i32, pattern: &str) -> (s: String)
    requires
        -86400 < offset_secs < 86400,
        MIN_TIMESTAMP <= timestamp <= MAX_TIMESTAMP,
        pattern@ == LONG_FORMAT@ || pattern@ == SHORT_FORMAT@,
    ensures
        s@ == clock_text(timestamp as int, offset_secs as int, pattern@),
{
    let offset = FixedOffset::east_opt(offset_secs).unwrap();
    let utc = DateTime::from_timestamp(timestamp, 0).unwrap();
    utc.with_timezone(&offset).format(pattern).to_string()
}

/// The state of the time block: which form it shows, and the time text it
/// showed last.
pub struct TimeBlock {
    extended: bool,
    old_text: String,
}

pub ghost struct TimeBlockView {
    pub extended: bool,
    pub old_text: Seq<char>,
}

impl View for TimeBlock {
    type V = TimeBlockView;

    closed spec fn view(&self) -> TimeBlockView {
        TimeBlockView { extended: self.extended, old_text: self.old_text@ }
    }
}

/// The element text for a time text: the icon in heavy type, then the time
/// in bold.
pub open spec fn time_markup(time: Seq<char>) -> Seq<char> {
    pango_span(
        seq![ICON, ' '],
        seq![PangoFormat::FontWeight(PangoFontWeight::Heavy)],
    ) + pango_span(time, seq![PangoFormat::FontWeight(PangoFontWeight::Bold)])
}

/// The block and its element after showing `time`, and whether they changed:
/// they change exactly when the time differs from the one shown last; the
/// element then holds the markup for the time.
pub open spec fn time_shown(b: TimeBlockView, e: ElementView, time: Seq<char>) -> (
    TimeBlockView,
    ElementView,
    bool,
) {
    if b.old_text != time {
        (
            TimeBlockView { old_text: time, ..b },
            ElementView { text: time_markup(time), use_pango: true, ..e },
            true,
        )
    } else {
        (b, e, false)
    }
}

/// Showing the same time twice changes nothing the second time, and two
/// clicks bring back the form shown before them.
pub proof fn lemma_time_settles(b: TimeBlockView, e: ElementView, time: Seq<char>, clicked: bool)
    ensures
        ({
            let (b1, e1, _) = time_shown(b, e, time);
            time_shown(b1, e1, time) == (b1, e1, false)
        }),
        toggled(toggled(b.extended, clicked), clicked) == b.extended,
{
}

impl TimeBlock {
    /// The block at start: short form, nothing shown yet.
    pub fn new() -> (b: TimeBlock)
        ensures
            b@ == (TimeBlockView { extended: false, old_text: Seq::empty() }),
    {
        TimeBlock { extended: false, old_text: String::new() }
    }

    /// The pattern that the time is to be written with.
    pub fn pattern(&self) -> (p: &'static str)
        ensures
            p@ == (if self@.extended {
                LONG_FORMAT@
            } else {
                SHORT_FORMAT@
            }),
    {
        if self.extended {
            LONG_FORMAT
        } else {
            SHORT_FORMAT
        }
    }

    /// Shows `time` in `elem` unless it is the time shown last; answers
    /// whether anything changed.
    pub fn show(&mut self, elem: &mut Element, time: String) -> (updated: bool)
        ensures
            (final(self)@, final(elem)@, updated) == time_shown(old(self)@, old(elem)@, time@),
    {
        if self.old_text == time {
            return false;
        }
        self.old_text = time;
        elem.clear_text();
        let mut icon = String::new();
        push_char(&mut icon, ICON);
        push_char(&mut icon, ' ');
        let mut heavy: Vec<PangoFormat> = Vec::new();
        heavy.push(PangoFormat::FontWeight(PangoFontWeight::Heavy));
        elem.append_pango(icon.as_str(), heavy);
        let mut bold: Vec<PangoFormat> = Vec::new();
        bold.push(PangoFormat::FontWeight(PangoFontWeight::Bold));
        elem.append_pango(self.old_text.as_str(), bold);
        proof {
            assert(icon@ == seq![ICON, ' ']);
            assert(elem@.text =~= time_markup(time@));
        }
        true
    }

    /// Shows the clock for the moment `timestamp` (seconds since the Unix
    /// epoch) at UTC offset `offset_secs`, in the current form, unless it is
    /// the text shown last; answers whether anything changed.
    pub fn tick(&mut self, elem: &mut Element, timestamp: i64, offset_secs: i32) -> (updated: bool)
        requires
            -86400 < offset_secs < 86400,
            MIN_TIMESTAMP <= timestamp <= MAX_TIMESTAMP,
        ensures
            (final(self)@, final(elem)@, updated) == time_shown(
                old(self)@,
                old(elem)@,
                clock_text(
                    timestamp as int,
                    offset_secs as int,
                    if old(self)@.extended {
                        LONG_FORMAT@
                    } else {
                        SHORT_FORMAT@
                    },
                ),
            ),
    {
        let text = format_clock(timestamp, offset_secs, self.pattern());
        self.show(elem, text)
    }

    /// Switches between the short and the long form when a click arrived.
    pub fn handle_click(&mut self, clicked: bool)
        ensures
            final(self)@ == (TimeBlockView {
                extended: toggled(old(self)@.extended, clicked),
                ..old(self)@
            }),
    {
        self.extended = toggle(self.extended, clicked);
    }
}

} // verus!
