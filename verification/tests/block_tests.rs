use statusbar::block::audio::audio_status;
use statusbar::block::brightness::{brightness_text, parse_brightness};
use statusbar::block::element::{Element, ElementFormat};
use statusbar::block::mail::mail_status;
use statusbar::block::network::network_text;
use statusbar::block::time::{TimeBlock, LONG_FORMAT, SHORT_FORMAT};
use statusbar::block::toggle;
use statusbar::block::weather::{
    find_temperature, get_ramp_index, get_temperature, weather_text, WeatherError,
};

const PAGE: &str = "<html>\n<div id=\"page\">\n<div id=\"content\">\n<p>x</p>\n<div id=\"lower-content\">\n<div id=\"weather-detail-summary\">\n  <div class=\"column-4\">17</div>\n</html>";

#[test]
fn ramp_index_values() {
    assert_eq!(get_ramp_index(-5), 0);
    assert_eq!(get_ramp_index(0), 0);
    assert_eq!(get_ramp_index(5), 0);
    assert_eq!(get_ramp_index(6), 1);
    assert_eq!(get_ramp_index(17), 2);
    assert_eq!(get_ramp_index(29), 4);
    assert_eq!(get_ramp_index(30), 4);
    assert_eq!(get_ramp_index(i32::MAX), 4);
    assert_eq!(get_ramp_index(i32::MIN), 0);
    let mut last = 0;
    for t in -10..40 {
        let i = get_ramp_index(t);
        assert!(i < 5 && i >= last);
        last = i;
    }
}

#[test]
fn temperature_found_in_order() {
    assert_eq!(find_temperature(PAGE), Ok(17));
    assert_eq!(get_temperature(Some(PAGE.as_bytes().to_vec())), Ok(Some(17)));
}

#[test]
fn temperature_needs_marks_in_order() {
    // the value line before the summary mark is not read
    let page = "<div class=\"column-4\">3</div>\n<div id=\"page\">\n<div id=\"content\">\n<div id=\"lower-content\">\n<div id=\"weather-detail-summary\">\nend";
    assert_eq!(find_temperature(page), Err(WeatherError::NotFound));
    assert_eq!(find_temperature(""), Err(WeatherError::NotFound));
}

#[test]
fn temperature_value_must_be_an_integer() {
    let page = PAGE.replace(">17<", ">17 C<");
    assert_eq!(find_temperature(&page), Err(WeatherError::BadValue));
    let page = PAGE.replace(">17<", ">-4<");
    assert_eq!(find_temperature(&page), Ok(-4));
    // the value stops at the next '>' as well as at '<'
    let page = PAGE.replace("<div class=\"column-4\">17</div>", "<div class=\"column-4\">21>x");
    assert_eq!(find_temperature(&page), Ok(21));
}

#[test]
fn temperature_download_outcomes() {
    assert_eq!(get_temperature(None), Ok(None));
    assert_eq!(get_temperature(Some(vec![0xff, 0xfe])), Err(WeatherError::NotUtf8));
    assert_eq!(get_temperature(Some(b"nothing".to_vec())), Err(WeatherError::NotFound));
}

#[test]
fn weather_texts() {
    assert_eq!(weather_text(&Ok(Some(17))), "\u{f2c9} 17\u{fa03}");
    assert_eq!(weather_text(&Ok(Some(-3))), "\u{f2cb} -3\u{fa03}");
    assert_eq!(weather_text(&Ok(None)), "");
    assert_eq!(weather_text(&Err(WeatherError::BadValue)), "error");
    assert_eq!(WeatherError::NotUtf8.message(), "Temperature: Received non-utf8 text!");
    assert_eq!(
        WeatherError::BadValue.message(),
        "Temperature: cannot parse webpage (reading out value)"
    );
    assert_eq!(WeatherError::NotFound.message(), "Error: cannot parse webpage");
}

#[test]
fn brightness_parse() {
    assert_eq!(parse_brightness("852\n"), Ok(852));
    assert_eq!(parse_brightness("  +12 \t"), Ok(12));
    assert_eq!(parse_brightness("-7"), Ok(-7));
    assert_eq!(parse_brightness(""), Err(()));
    assert_eq!(parse_brightness("\n"), Err(()));
    assert_eq!(parse_brightness("-"), Err(()));
    assert_eq!(parse_brightness("12a"), Err(()));
    assert_eq!(parse_brightness("2147483647"), Ok(i32::MAX));
    assert_eq!(parse_brightness("2147483648"), Err(()));
    assert_eq!(parse_brightness("-2147483648"), Ok(i32::MIN));
    assert_eq!(parse_brightness("-2147483649"), Err(()));
    assert_eq!(parse_brightness("00000000000000000042"), Ok(42));
}

#[test]
fn brightness_round_trip() {
    for v in [-2147483648i32, -1, 0, 7, 852, 2147483647] {
        assert_eq!(parse_brightness(&format!("{}\n", v)), Ok(v));
    }
}

#[test]
fn brightness_texts() {
    assert_eq!(brightness_text(852), "\u{f5df} 100%");
    assert_eq!(brightness_text(426), "\u{f5de} 50%");
    assert_eq!(brightness_text(0), "\u{f5dd} 0%");
    assert_eq!(brightness_text(283), "\u{f5dd} 33%");
    assert_eq!(brightness_text(284), "\u{f5de} 33%");
    assert_eq!(brightness_text(1000), "\u{f5df} 117%");
    assert_eq!(brightness_text(-300), "\u{f5df} -35%");
    assert_eq!(brightness_text(-100), "\u{f5dd} -11%");
}

#[test]
fn mail_texts() {
    let (t, f) = mail_status(0);
    assert_eq!(t, "\u{f6ee} 0");
    assert_eq!(f, ElementFormat::Normal);
    let (t, f) = mail_status(12);
    assert_eq!(t, "\u{f6ee} 12");
    assert_eq!(f, ElementFormat::Warning);
}

#[test]
fn network_texts() {
    assert_eq!(network_text(&vec![]), "offline");
    assert_eq!(network_text(&vec![String::from("home"), String::from("vpn")]), "home");
}

#[test]
fn audio_texts() {
    let (t, f) = audio_status(true, "54");
    assert_eq!(t, "\u{fa7d} 54%");
    assert_eq!(f, ElementFormat::Normal);
    let (t, f) = audio_status(false, "54");
    assert_eq!(t, "\u{fc5d}");
    assert_eq!(f, ElementFormat::Info);
}

#[test]
fn toggle_on_click() {
    assert!(toggle(false, true));
    assert!(!toggle(true, true));
    assert!(toggle(true, false));
    assert!(!toggle(false, false));
    assert_eq!(toggle(toggle(true, true), true), true);
}

#[test]
fn time_block_shows_markup_once() {
    let mut block = TimeBlock::new();
    let mut e = Element::new("time", "time", String::new(), ElementFormat::Normal);
    assert_eq!(block.pattern(), SHORT_FORMAT);
    assert!(block.show(&mut e, String::from("12:34")));
    assert_eq!(
        e.text,
        "<span font_weight='heavy'>\u{f64f} </span><span font_weight='bold'>12:34</span>"
    );
    assert!(e.render().contains("\"markup\": \"pango\""));
    assert!(!block.show(&mut e, String::from("12:34")));
    assert!(block.show(&mut e, String::from("12:35")));
    assert!(e.text.ends_with(">12:35</span>"));
    block.handle_click(true);
    assert_eq!(block.pattern(), LONG_FORMAT);
    block.handle_click(false);
    assert_eq!(block.pattern(), LONG_FORMAT);
    block.handle_click(true);
    assert_eq!(block.pattern(), SHORT_FORMAT);
}

#[test]
fn brightness_percent_follows_level() {
    let mut last = 0;
    for v in 0..=852 {
        let text = brightness_text(v);
        let digits: String = text.chars().skip(2).take_while(|c| c.is_ascii_digit()).collect();
        let perc: i32 = digits.parse().unwrap();
        assert!(perc >= last && perc <= 100);
        last = perc;
        let icon = text.chars().next().unwrap();
        assert!(['\u{f5dd}', '\u{f5de}', '\u{f5df}'].contains(&icon));
    }
    assert_eq!(last, 100);
}

#[test]
fn time_block_ticks_with_the_clock() {
    let mut block = TimeBlock::new();
    let mut e = Element::new("time", "time", String::new(), ElementFormat::Normal);
    // 1970-01-01 00:00 UTC, written one hour east of UTC
    assert!(block.tick(&mut e, 0, 3600));
    assert_eq!(
        e.text,
        "<span font_weight='heavy'>\u{f64f} </span><span font_weight='bold'>01:00</span>"
    );
    // the same minute again changes nothing
    assert!(!block.tick(&mut e, 30, 3600));
    block.handle_click(true);
    assert!(block.tick(&mut e, 1_000_000_000, 0));
    assert!(e.text.ends_with(">Sun, 09.09.2001 01:46</span>"));
    assert!(block.tick(&mut e, -86400, -7200));
    assert!(e.text.ends_with(">Tue, 12.30.1969 22:00</span>"));
}
