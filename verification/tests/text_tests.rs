use statusbar::text::{
    contains_in, find_char, parse_i32, push_signed, push_unsigned, same_text, strip_bounds,
    to_chars, trim_bounds,
};

#[test]
fn decimal_rendering() {
    let mut s = String::new();
    push_unsigned(&mut s, 0);
    push_char_sep(&mut s);
    push_unsigned(&mut s, 1234567890);
    push_char_sep(&mut s);
    push_signed(&mut s, -42);
    push_char_sep(&mut s);
    push_signed(&mut s, i64::MIN);
    push_char_sep(&mut s);
    push_unsigned(&mut s, u64::MAX);
    assert_eq!(s, format!("0|1234567890|-42|{}|{}", i64::MIN, u64::MAX));
}

fn push_char_sep(s: &mut String) {
    s.push('|');
}

#[test]
fn trimming() {
    let cs = to_chars("\u{3000} a b\u{2009}\n");
    let (lo, hi) = trim_bounds(&cs);
    assert_eq!(cs[lo..hi].iter().collect::<String>(), "a b");
    let cs = to_chars(" \t ");
    let (lo, hi) = trim_bounds(&cs);
    assert_eq!(lo, hi);
    let cs = to_chars(",,{a},");
    let (lo, hi) = strip_bounds(&cs, ',');
    assert_eq!(cs[lo..hi].iter().collect::<String>(), "{a}");
}

#[test]
fn parsing_integers() {
    let cs = to_chars("x+17y");
    assert_eq!(parse_i32(&cs, 1, 4), Some(17));
    assert_eq!(parse_i32(&cs, 1, 2), None);
    assert_eq!(parse_i32(&cs, 0, 4), None);
    assert_eq!(parse_i32(&cs, 2, 2), None);
}

#[test]
fn searching() {
    let cs = to_chars("abcabd");
    assert!(contains_in(&cs, 0, 6, &to_chars("abd")));
    assert!(!contains_in(&cs, 0, 5, &to_chars("abd")));
    assert!(contains_in(&cs, 2, 2, &to_chars("")));
    assert_eq!(find_char(&cs, 1, 6, 'a'), 3);
    assert_eq!(find_char(&cs, 4, 6, 'c'), 6);
    assert!(same_text("abc", "abc"));
    assert!(!same_text("abc", "abd"));
    assert!(!same_text("abc", "ab"));
}
