use statusbar::block::element::{
    Element, ElementFormat, PangoFontSize, PangoFontStyle, PangoFontWeight, PangoFormat,
};

#[test]
fn render_named_normal_element() {
    let e = Element::new("cpu", "cpu0", String::from("load"), ElementFormat::Normal);
    assert_eq!(
        e.render(),
        "{\"name\": \"cpu\", \"instance\": \"cpu0\", \"full_text\": \"load\", \"background\": \"#30333f\", \"separator_block_width\": 0}"
    );
}

#[test]
fn render_formats() {
    let mut e = Element::new("a", "b", String::from("x"), ElementFormat::Info);
    assert_eq!(
        e.render(),
        "{\"name\": \"a\", \"instance\": \"b\", \"full_text\": \"x\", \"color\": \"#70a0ff\", \"background\": \"#30333f\", \"separator_block_width\": 0}"
    );
    e.set_format(ElementFormat::Warning);
    assert!(e.render().contains("\"color\": \"#e0d060\", \"background\": \"#30333f\""));
    e.set_format(ElementFormat::Error);
    assert!(e.render().contains("\"color\": \"#d05040\", \"background\": \"#30333f\""));
    e.set_format(ElementFormat::Time);
    assert!(e.render().contains("\"color\": \"#000000\", \"background\": \"#5294e2\""));
}

#[test]
fn render_fillers() {
    assert_eq!(
        Element::sep().render(),
        "{\"full_text\": \" \", \"separator_block_width\": 0}"
    );
    assert_eq!(
        Element::space().render(),
        "{\"full_text\": \" \", \"background\": \"#30333f\", \"separator_block_width\": 0}"
    );
    assert_eq!(
        Element::space_time().render(),
        "{\"full_text\": \" \", \"color\": \"#000000\", \"background\": \"#5294e2\", \"separator_block_width\": 0}"
    );
}

#[test]
fn set_clear_and_append_text() {
    let mut e = Element::new("n", "i", String::new(), ElementFormat::Normal);
    assert!(!e.has_text());
    e.set_text(String::from("abc"));
    assert_eq!(e.text, "abc");
    e.append_text("def");
    assert_eq!(e.text, "abcdef");
    assert!(e.has_text());
    e.clear_text();
    assert_eq!(e.text, "");
    assert!(!e.has_text());
}

#[test]
fn append_pango_marks_markup() {
    let mut e = Element::new("t", "t", String::new(), ElementFormat::Time);
    e.append_pango(
        "12:00",
        vec![
            PangoFormat::FontWeight(PangoFontWeight::Bold),
            PangoFormat::FontSize(PangoFontSize::XLarge),
            PangoFormat::FontStyle(PangoFontStyle::Italic),
            PangoFormat::BackgroundAlpha(String::from("50%")),
        ],
    );
    assert_eq!(
        e.text,
        "<span font_weight='bold' font_size='x-large' font_style='italic' background_alpha='50%'>12:00</span>"
    );
    assert!(e.render().ends_with(", \"separator_block_width\": 0, \"markup\": \"pango\"}"));
    // plain text again once the text is replaced
    e.set_text(String::from("x"));
    assert!(!e.render().contains("markup"));
}

#[test]
fn append_pango_foreground_is_written_as_background() {
    let mut e = Element::new("t", "t", String::from("a"), ElementFormat::Normal);
    e.append_pango(
        "b",
        vec![PangoFormat::Foreground(String::from("#fff")), PangoFormat::Background(String::from("#000"))],
    );
    assert_eq!(e.text, "a<span background='#fff' background='#000'>b</span>");
}

#[test]
fn append_pango_without_attributes() {
    let mut e = Element::new("t", "t", String::new(), ElementFormat::Normal);
    e.append_pango("x", Vec::new());
    assert_eq!(e.text, "<span>x</span>");
}

#[test]
fn refresh_changes_only_on_new_text() {
    let mut e = Element::new("c", "c", String::from("old"), ElementFormat::Normal);
    assert!(e.refresh(String::from("new"), Some(ElementFormat::Error)));
    assert_eq!(e.text, "new");
    assert_eq!(e.current_format(), ElementFormat::Error);
    // same text again: nothing changes, not even the format
    assert!(!e.refresh(String::from("new"), Some(ElementFormat::Normal)));
    assert_eq!(e.current_format(), ElementFormat::Error);
    // without a format the old one stays
    assert!(e.refresh(String::from("newer"), None));
    assert_eq!(e.current_format(), ElementFormat::Error);
}
