use std::sync::mpsc::channel;
use std::sync::{Arc, Mutex};

use statusbar::bar::{Bar, RedrawPolicy, HEADER, OPENING};
use statusbar::block::element::{Element, ElementFormat};

const SPACE: &str = "{\"full_text\": \" \", \"background\": \"#30333f\", \"separator_block_width\": 0}";
const SPACE_TIME: &str = "{\"full_text\": \" \", \"color\": \"#000000\", \"background\": \"#5294e2\", \"separator_block_width\": 0}";
const SEP: &str = "{\"full_text\": \" \", \"separator_block_width\": 0}";

#[test]
fn empty_bar_frame() {
    let (_tx, rx) = channel::<i32>();
    let bar = Bar::new(rx);
    assert_eq!(bar.render().unwrap(), "  [\n  ],\n");
}

#[test]
fn frame_with_two_blocks_and_a_blank_one() {
    let (_tx, rx) = channel::<i32>();
    let mut bar = Bar::new(rx);
    let a = Arc::new(Mutex::new(Element::new("a", "a", String::from("A"), ElementFormat::Normal)));
    let blank = Arc::new(Mutex::new(Element::new("b", "b", String::new(), ElementFormat::Normal)));
    let t = Arc::new(Mutex::new(Element::new("t", "t", String::from("T"), ElementFormat::Time)));
    bar.add(a.clone());
    bar.add(blank.clone());
    bar.add(t.clone());
    let a_json = a.lock().unwrap().render();
    let t_json = t.lock().unwrap().render();
    let expected = format!(
        "  [\n    {s},\n{a},\n{s},\n    {sep},\n    {st},\n{t},\n{st}\n  ],\n",
        s = SPACE,
        a = a_json,
        sep = SEP,
        st = SPACE_TIME,
        t = t_json
    );
    assert_eq!(bar.render().unwrap(), expected);

    // a block without text is not shown: the frame is the same with it removed
    let (_tx2, rx2) = channel::<i32>();
    let mut bar2 = Bar::new(rx2);
    bar2.add(a.clone());
    bar2.add(t.clone());
    assert_eq!(bar2.render().unwrap(), expected);
}

#[test]
fn frame_follows_block_changes() {
    let (_tx, rx) = channel::<i32>();
    let mut bar = Bar::new(rx);
    let a = Arc::new(Mutex::new(Element::new("a", "a", String::new(), ElementFormat::Normal)));
    bar.add(a.clone());
    assert_eq!(bar.render().unwrap(), "  [\n  ],\n");
    a.lock().unwrap().set_text(String::from("up"));
    let json = a.lock().unwrap().render();
    assert_eq!(bar.render().unwrap(), format!("  [\n    {s},\n{j},\n{s}\n  ],\n", s = SPACE, j = json));
}

#[test]
fn render_elements_directly() {
    let (_tx, rx) = channel::<i32>();
    let bar = Bar::new(rx);
    let elems = vec![
        Element::new("x", "x", String::new(), ElementFormat::Normal),
        Element::new("y", "y", String::from("Y"), ElementFormat::Warning),
    ];
    let y = elems[1].render();
    assert_eq!(
        bar.render_elements(&elems),
        format!("  [\n    {s},\n{y},\n{s}\n  ],\n", s = SPACE, y = y)
    );
}

#[test]
fn header_lines() {
    assert_eq!(
        HEADER,
        "{ \"version\": 1, \"stop_signal\": 20, \"cont_signal\": 18, \"click_events\": true }"
    );
    assert_eq!(OPENING, "[");
}

#[test]
fn redraw_policy_stops_waiting_for_good() {
    let mut p = RedrawPolicy::new();
    assert!(p.waits());
    p.after_frame(false);
    assert!(p.waits());
    p.after_frame(true);
    assert!(!p.waits());
    p.after_frame(false);
    assert!(!p.waits());
}

#[test]
fn receiver_is_the_bar_channel() {
    let (tx, rx) = channel::<i32>();
    let bar = Bar::new(rx);
    tx.send(1).unwrap();
    assert_eq!(bar.receiver().recv().unwrap(), 1);
}
