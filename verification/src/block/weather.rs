//! The weather block: the temperature read from the weather service's page.
use vstd::prelude::*;
use vstd::utf8::{decode_utf8, valid_utf8};

use crate::text::{
    contains, contains_in, decimal_text, find_char, first_index_of, lemma_first_index_bounds,
    parse_i32, parse_i32_spec, push_char, push_signed, split_on, to_chars,
};

verus! {

/// How often the page is fetched, in seconds.
pub const PERIOD: u64 = 300;

pub const ICON_C: char = '\u{fa03}';

pub const RAMP_COLD: i32 = 0;

pub const RAMP_WARM: i32 = 30;

pub const URL: &'static str =
    "http://www.meteocentrale.ch/de/europe/schweiz/wetter-zuerich-fluntern-sma/details/S066600/";

/// The thermometer icon at a position of the ramp (positions past the end
/// give the warmest icon).
pub open spec fn ramp_icon(i: int) -> char {
    if i == 0 {
        '\u{f2cb}'
    } else if i == 1 {
        '\u{f2ca}'
    } else if i == 2 {
        '\u{f2c9}'
    } else if i == 3 {
        '\u{f2c8}'
    } else {
        '\u{f2c7}'
    }
}

fn ramp_icon_char(i: usize) -> (c: char)
    requires
        i < 5,
    ensures
        c == ramp_icon(i as int),
{
    if i == 0 {
        '\u{f2cb}'
    } else if i == 1 {
        '\u{f2ca}'
    } else if i == 2 {
        '\u{f2c9}'
    } else if i == 3 {
        '\u{f2c8}'
    } else {
        '\u{f2c7}'
    }
}

/// The ramp position for a temperature: 0 up to the cold end, 4 from the
/// warm end on, and five equal steps in between.
pub open spec fn ramp_index(t: int) -> int {
    if t <= RAMP_COLD {
        0
    } else if t >= RAMP_WARM {
        4
    } else {
        (5 * (t - RAMP_COLD)) / (RAMP_WARM - RAMP_COLD)
    }
}

/// The ramp position for a temperature.
pub fn get_ramp_index(temperature: i32) -> (i: usize)
    ensures
        i == ramp_index(temperature as int),
        i < 5,
{
    if temperature <= RAMP_COLD {
        0
    } else if temperature >= RAMP_WARM {
        4
    } else {
        ((5 * (temperature - RAMP_COLD)) / (RAMP_WARM - RAMP_COLD)) as usize
    }
}

/// Every temperature has a thermometer on the ramp, and a warmer temperature
/// never gets a colder one.
pub proof fn lemma_ramp_index_monotone(a: int, b: int)
    requires
        a <= b,
    ensures
        0 <= ramp_index(a) <= ramp_index(b) <= 4,
{
    if RAMP_COLD < a && b < RAMP_WARM {
        assert((5 * a) / 30 <= (5 * b) / 30) by (nonlinear_arith)
            requires
                a <= b,
                0 < a,
        ;
    }
}

/// Why no temperature could be read from the page.
#[derive(Clone, Copy, Debug, PartialEq, Eq, Structural)]
pub enum WeatherError {
    /// The page is not UTF-8 text.
    NotUtf8,
    /// The temperature line holds no integer.
    BadValue,
    /// The page has no temperature line where it is looked for.
    NotFound,
}

impl WeatherError {
    /// The message that reports the error.
    pub fn message(&self) -> (m: &'static str)
        ensures
            m@ == match self {
                WeatherError::NotUtf8 => "Temperature: Received non-utf8 text!"@,
                WeatherError::BadValue => "Temperature: cannot parse webpage (reading out value)"@,
                WeatherError::NotFound => "Error: cannot parse webpage"@,
            },
    {
        match self {
            WeatherError::NotUtf8 => "Temperature: Received non-utf8 text!",
            WeatherError::BadValue => "Temperature: cannot parse webpage (reading out value)",
            WeatherError::NotFound => "Error: cannot parse webpage",
        }
    }
}

/// How far the search through the page has come.
#[derive(Clone, Copy, Debug, PartialEq, Eq, Structural)]
pub enum SearchState {
    Page,
    Content,
    LowerContent,
    Summary,
    Temperature,
}

pub const PAGE_MARK: &'static str = "<div id=\"page\">";

pub const CONTENT_MARK: &'static str = "<div id=\"content\">";

pub const LOWER_CONTENT_MARK: &'static str = "<div id=\"lower-content\">";

pub const SUMMARY_MARK: &'static str = "<div id=\"weather-detail-summary\">";

pub const VALUE_MARK: &'static str = "<div class=\"column-4\">";

/// The line that a search state looks for.
pub open spec fn mark(s: SearchState) -> Seq<char> {
    match s {
        SearchState::Page => PAGE_MARK@,
        SearchState::Content => CONTENT_MARK@,
        SearchState::LowerContent => LOWER_CONTENT_MARK@,
        SearchState::Summary => SUMMARY_MARK@,
        SearchState::Temperature => VALUE_MARK@,
    }
}

/// The state that follows once the mark of `s` was seen.
pub open spec fn next_state(s: SearchState) -> SearchState {
    match s {
        SearchState::Page => SearchState::Content,
        SearchState::Content => SearchState::LowerContent,
        SearchState::LowerContent => SearchState::Summary,
        _ => SearchState::Temperature,
    }
}

/// The text of the temperature in its line: after the first `>`, up to the
/// next `>`, and of that up to the first `<`.
pub open spec fn value_text(line: Seq<char>) -> Seq<char> {
    split_on(split_on(line, '>')[1], '<')[0]
}

/// The outcome of searching the lines, starting in state `s`.
pub open spec fn scan(s: SearchState, lines: Seq<Seq<char>>) -> Result<i32, WeatherError>
    decreases lines.len(),
{
    if lines.len() == 0 {
        Err(WeatherError::NotFound)
    } else {
        let line = lines[0];
        if s == SearchState::Temperature && contains(line, VALUE_MARK@) {
            match parse_i32_spec(value_text(line)) {
                Some(t) => Ok(t),
                None => Err(WeatherError::BadValue),
            }
        } else {
            let next = if contains(line, mark(s)) {
                next_state(s)
            } else {
                s
            };
            scan(next, lines.drop_first())
        }
    }
}

/// The temperature on a page: the first integer on a `column-4` line after the
/// page, content, lower-content and weather-detail-summary lines, in that order.
pub open spec fn temperature_on(page: Seq<char>) -> Result<i32, WeatherError> {
    scan(SearchState::Page, split_on(page, '\n'))
}

/// How far a search state is along the page: the marks are passed in the
/// order page, content, lower content, summary.
pub open spec fn stage(s: SearchState) -> int {
    match s {
        SearchState::Page => 0,
        SearchState::Content => 1,
        SearchState::LowerContent => 2,
        SearchState::Summary => 3,
        SearchState::Temperature => 4,
    }
}

/// The search passes the marks one at a time and in order: each mark moves
/// it exactly one stage on. So a search that has not yet passed the mark of
/// state `t` never passes it on lines none of which holds that mark, and it
/// then reads no value and finds nothing. In particular, without a line
/// holding the weather-detail-summary mark no temperature is read.
pub proof fn lemma_marks_in_order(s: SearchState, t: SearchState, lines: Seq<Seq<char>>)
    requires
        t != SearchState::Temperature,
        stage(s) <= stage(t),
        forall|i: int| 0 <= i < lines.len() ==> !contains(#[trigger] lines[i], mark(t)),
    ensures
        s != SearchState::Temperature ==> stage(next_state(s)) == stage(s) + 1,
        scan(s, lines) == Err::<i32, WeatherError>(WeatherError::NotFound),
    decreases lines.len(),
{
    if lines.len() > 0 {
        let line = lines[0];
        let next = if contains(line, mark(s)) {
            next_state(s)
        } else {
            s
        };
        assert(!contains(lines[0], mark(t)));
        assert(stage(next) <= stage(t));
        assert forall|i: int| 0 <= i < lines.drop_first().len() implies !contains(
            #[trigger] lines.drop_first()[i],
            mark(t),
        ) by {
            assert(lines.drop_first()[i] == lines[i + 1]);
        }
        lemma_marks_in_order(next, t, lines.drop_first());
    }
}

fn mark_of(s: SearchState) -> (m: &'static str)
    ensures
        m@ == mark(s),
{
    match s {
        SearchState::Page => PAGE_MARK,
        SearchState::Content => CONTENT_MARK,
        SearchState::LowerContent => LOWER_CONTENT_MARK,
        SearchState::Summary => SUMMARY_MARK,
        SearchState::Temperature => VALUE_MARK,
    }
}

fn next_of(s: SearchState) -> (n: SearchState)
    ensures
        n == next_state(s),
{
    match s {
        SearchState::Page => SearchState::Content,
        SearchState::Content => SearchState::LowerContent,
        SearchState::LowerContent => SearchState::Summary,
        _ => SearchState::Temperature,
    }
}

/// The first piece of a split is everything before the first separator.
proof fn lemma_split_first(s: Seq<char>, c: char)
    ensures
        split_on(s, c).len() >= 1,
        split_on(s, c)[0] == s.subrange(0, first_index_of(s, c)),
{
    lemma_first_index_bounds(s, c);
    let k = first_index_of(s, c);
    if k >= s.len() {
        assert(s.subrange(0, k) == s);
    }
}

/// Splitting at a separator that occurs: the first piece, then the split of
/// the rest.
proof fn lemma_split_step(s: Seq<char>, c: char)
    requires
        first_index_of(s, c) < s.len(),
    ensures
        split_on(s, c) == seq![s.subrange(0, first_index_of(s, c))] + split_on(
            s.subrange(first_index_of(s, c) + 1, s.len() as int),
            c,
        ),
{
    lemma_first_index_bounds(s, c);
}

/// A line that holds the value mark holds a `>`.
proof fn lemma_mark_has_gt(line: Seq<char>)
    requires
        contains(line, VALUE_MARK@),
    ensures
        first_index_of(line, '>') < line.len(),
{
    reveal_strlit("<div class=\"column-4\">");
    let at = choose|at: int| crate::text::occurs_at(line, VALUE_MARK@, at);
    let m = VALUE_MARK@.len();
    assert(VALUE_MARK@[m - 1] == '>');
    assert(line.subrange(at, at + m)[m - 1] == line[at + m - 1]);
    lemma_first_index_bounds(line, '>');
    if first_index_of(line, '>') >= line.len() {
        assert(line[at + m - 1] != '>');
    }
}

/// Reads the temperature from `cs[lo..hi]`, a line that holds the value mark.
fn read_value(cs: &Vec<char>, lo: usize, hi: usize) -> (r: Option<i32>)
    requires
        lo <= hi <= cs@.len(),
        contains(cs@.subrange(lo as int, hi as int), VALUE_MARK@),
    ensures
        r == parse_i32_spec(value_text(cs@.subrange(lo as int, hi as int))),
{
    let ghost line = cs@.subrange(lo as int, hi as int);
    proof {
        lemma_mark_has_gt(line);
    }
    let gt = find_char(cs, lo, hi, '>');
    let next_gt = find_char(cs, gt + 1, hi, '>');
    let lt = find_char(cs, gt + 1, next_gt, '<');
    proof {
        let rest = line.subrange(gt - lo + 1, line.len() as int);
        assert(rest == cs@.subrange(gt + 1, hi as int));
        lemma_split_step(line, '>');
        lemma_split_first(rest, '>');
        assert(split_on(line, '>')[1] == split_on(rest, '>')[0]);
        let piece = cs@.subrange(gt + 1, next_gt as int);
        assert(split_on(line, '>')[1] == piece);
        lemma_split_first(piece, '<');
        assert(value_text(line) == cs@.subrange(gt + 1, lt as int));
    }
    parse_i32(cs, gt + 1, lt)
}

/// The temperature on a page of text.
pub fn find_temperature(page: &str) -> (r: Result<i32, WeatherError>)
    ensures
        r == temperature_on(page@),
{
    let cs = to_chars(page);
    let n = cs.len();
    let page_mark = to_chars(PAGE_MARK);
    let content_mark = to_chars(CONTENT_MARK);
    let lower_mark = to_chars(LOWER_CONTENT_MARK);
    let summary_mark = to_chars(SUMMARY_MARK);
    let value_mark = to_chars(VALUE_MARK);
    let mut state = SearchState::Page;
    let mut p: usize = 0;
    assert(cs@.subrange(0, n as int) == page@);
    loop
        invariant
            p <= n == cs@.len(),
            page_mark@ == PAGE_MARK@,
            content_mark@ == CONTENT_MARK@,
            lower_mark@ == LOWER_CONTENT_MARK@,
            summary_mark@ == SUMMARY_MARK@,
            value_mark@ == VALUE_MARK@,
            temperature_on(page@) == scan(state, split_on(cs@.subrange(p as int, n as int), '\n')),
        decreases n - p,
    {
        let ghost rest = cs@.subrange(p as int, n as int);
        let e = find_char(&cs, p, n, '\n');
        let ghost line = cs@.subrange(p as int, e as int);
        proof {
            lemma_split_first(rest, '\n');
            assert(rest.subrange(0, e - p) == line);
            if e < n {
                lemma_split_step(rest, '\n');
                assert(rest.subrange(e - p + 1, rest.len() as int) == cs@.subrange(e + 1, n as int));
            } else {
                assert(split_on(rest, '\n') == seq![rest]);
                assert(rest == line);
            }
        }
        let lines = Ghost(split_on(rest, '\n'));
        assert(lines@[0] == line);
        let found = match state {
            SearchState::Page => contains_in(&cs, p, e, &page_mark),
            SearchState::Content => contains_in(&cs, p, e, &content_mark),
            SearchState::LowerContent => contains_in(&cs, p, e, &lower_mark),
            SearchState::Summary => contains_in(&cs, p, e, &summary_mark),
            SearchState::Temperature => contains_in(&cs, p, e, &value_mark),
        };
        assert(found == contains(line, mark(state)));
        if state == SearchState::Temperature && found {
            return match read_value(&cs, p, e) {
                Some(t) => Ok(t),
                None => Err(WeatherError::BadValue),
            };
        }
        let ghost before = state;
        if found {
            state = next_of(state);
        }
        assert(scan(before, lines@) == scan(state, lines@.drop_first()));
        if e == n {
            assert(lines@.drop_first().len() == 0);
            assert(scan(state, lines@.drop_first()) == Err::<i32, WeatherError>(WeatherError::NotFound));
            return Err(WeatherError::NotFound);
        }
        assert(lines@.drop_first() == split_on(cs@.subrange(e + 1, n as int), '\n'));
        p = e + 1;
    }
}

/// The text of a byte string that is UTF-8 (`String::from_utf8`); `None` when
/// the bytes are not UTF-8.
#[verifier::external_body]
fn utf8_text(bytes: Vec<u8>) -> (r: Option<String>)
    ensures
        r is Some <==> valid_utf8(bytes@),
        r matches Some(s) ==> s@ == decode_utf8(bytes@),
{
    String::from_utf8(bytes).ok()
}

/// The temperature on a downloaded page: nothing when the download failed
/// (`page` is `None`), an error when the page is not UTF-8 or holds no
/// readable temperature.
pub fn get_temperature(page: Option<Vec<u8>>) -> (r: Result<Option<i32>, WeatherError>)
    ensures
        match page {
            None => r == Ok::<Option<i32>, WeatherError>(None),
            Some(bytes) => if !valid_utf8(bytes@) {
                r == Err::<Option<i32>, WeatherError>(WeatherError::NotUtf8)
            } else {
                match temperature_on(decode_utf8(bytes@)) {
                    Ok(t) => r == Ok::<Option<i32>, WeatherError>(Some(t)),
                    Err(e) => r == Err::<Option<i32>, WeatherError>(e),
                }
            },
        },
{
    match page {
        None => Ok(None),
        Some(bytes) => match utf8_text(bytes) {
            None => Err(WeatherError::NotUtf8),
            Some(text) => match find_temperature(text.as_str()) {
                Ok(t) => Ok(Some(t)),
                Err(e) => Err(e),
            },
        },
    }
}

/// What the block shows for a reading.
pub open spec fn weather_view(reading: Result<Option<i32>, WeatherError>) -> Seq<char> {
    match reading {
        Ok(Some(t)) => seq![ramp_icon(ramp_index(t as int)), ' '] + decimal_text(t as int) + seq![
            ICON_C,
        ],
        Ok(None) => Seq::empty(),
        Err(_) => "error"@,
    }
}

/// What the block shows for a reading: the thermometer and the temperature,
/// nothing when the page could not be fetched, `error` otherwise.
pub fn weather_text(reading: &Result<Option<i32>, WeatherError>) -> (s: String)
    ensures
        s@ == weather_view(*reading),
{
    match reading {
        Ok(Some(t)) => {
            let mut s = String::new();
            push_char(&mut s, ramp_icon_char(get_ramp_index(*t)));
            push_char(&mut s, ' ');
            push_signed(&mut s, *t as i64);
            push_char(&mut s, ICON_C);
            assert(s@ =~= weather_view(*reading));
            s
        },
        Ok(None) => String::new(),
        Err(_) => String::from_str("error"),
    }
}

} // verus!
