use std::sync::mpsc::channel;

use statusbar::event::{
    modifier_from_name, read_click, ClickMessage, Event, EventError, EventModifier, EventSystem,
};

fn msg(name: &str, modifiers: Option<Vec<Option<&str>>>) -> ClickMessage {
    ClickMessage {
        name: String::from(name),
        modifiers: modifiers.map(|ms| ms.into_iter().map(|m| m.map(String::from)).collect()),
        button: Some(1),
        x: Some(10),
        y: Some(20),
        width: Some(30),
        height: Some(40),
    }
}

#[test]
fn read_click_reads_fields() {
    let line = ",{\"name\":\"cpu\",\"instance\":\"cpu\",\"button\":3,\"modifiers\":[\"Shift\",\"Mod2\"],\"x\":100,\"y\":5,\"width\":20,\"height\":22},";
    let m = read_click(line).unwrap();
    assert_eq!(m.name, "cpu");
    assert_eq!(m.modifiers, Some(vec![Some(String::from("Shift")), Some(String::from("Mod2"))]));
    assert_eq!(m.button, Some(3));
    assert_eq!(m.x, Some(100));
    assert_eq!(m.y, Some(5));
    assert_eq!(m.width, Some(20));
    assert_eq!(m.height, Some(22));
}

#[test]
fn read_click_missing_fields() {
    let m = read_click("{\"button\":-1,\"modifiers\":[1]}").unwrap();
    assert_eq!(m.name, "null");
    assert_eq!(m.modifiers, Some(vec![None]));
    assert_eq!(m.button, Some(-1));
    assert_eq!(m.x, None);
    let m = read_click("{\"name\":\"a\",\"modifiers\":\"x\"}").unwrap();
    assert_eq!(m.modifiers, None);
}

#[test]
fn read_click_rejects_non_json() {
    assert_eq!(read_click("[").unwrap_err(), EventError::InvalidJson);
    assert_eq!(read_click("not json").unwrap_err(), EventError::InvalidJson);
}

#[test]
fn modifier_names() {
    assert_eq!(modifier_from_name("Shift"), Some(EventModifier::Shift));
    assert_eq!(modifier_from_name("Control"), Some(EventModifier::Ctrl));
    assert_eq!(modifier_from_name("Mod1"), Some(EventModifier::Mod1));
    assert_eq!(modifier_from_name("Mod4"), Some(EventModifier::Mod4));
    assert_eq!(modifier_from_name("Ctrl"), None);
    assert_eq!(modifier_from_name("Mod2"), None);
}

#[test]
fn route_to_first_block_with_name() {
    let (tx1, rx1) = channel::<Event>();
    let (tx2, rx2) = channel::<Event>();
    let (tx3, _rx3) = channel::<Event>();
    let mut system = EventSystem::new();
    system.add("time", tx1);
    system.add("cpu", tx2);
    system.add("cpu", tx3);
    let (i, ev) = system
        .route(&msg("cpu", Some(vec![Some("Control"), Some("Mod2"), Some("Mod4")])))
        .unwrap()
        .unwrap();
    assert_eq!(i, 1);
    assert_eq!(ev.button, 1);
    assert_eq!(ev.modifiers, vec![EventModifier::Ctrl, EventModifier::Mod4]);
    assert_eq!((ev.x, ev.y, ev.width, ev.height), (10, 20, 30, 40));
    system.sender(i).unwrap().send(ev).unwrap();
    assert_eq!(rx2.recv().unwrap().button, 1);
    assert!(rx1.try_recv().is_err());
    assert!(system.sender(3).is_none());
}

#[test]
fn route_unknown_name_or_bad_modifiers_goes_nowhere() {
    let (tx, _rx) = channel::<Event>();
    let mut system = EventSystem::new();
    system.add("time", tx);
    assert!(system.route(&msg("cpu", Some(vec![]))).unwrap().is_none());
    assert!(system.route(&msg("time", None)).unwrap().is_none());
    // an unknown name is dropped before its fields are looked at
    let mut m = msg("mail", Some(vec![None]));
    m.button = None;
    assert!(system.route(&m).unwrap().is_none());
}

#[test]
fn route_errors() {
    let (tx, _rx) = channel::<Event>();
    let mut system = EventSystem::new();
    system.add("time", tx);
    assert_eq!(
        system.route(&msg("time", Some(vec![Some("Shift"), None]))).unwrap_err(),
        EventError::ModifierNotText
    );
    let mut m = msg("time", Some(vec![]));
    m.height = None;
    assert_eq!(system.route(&m).unwrap_err(), EventError::MissingField);
    let mut m = msg("time", Some(vec![]));
    m.button = None;
    assert_eq!(system.route(&m).unwrap_err(), EventError::MissingField);
}

#[test]
fn adding_a_block_keeps_existing_routes() {
    let (tx1, _rx1) = channel::<Event>();
    let (tx2, _rx2) = channel::<Event>();
    let mut system = EventSystem::new();
    system.add("time", tx1);
    let before = system.route(&msg("time", Some(vec![]))).unwrap().unwrap().0;
    system.add("time", tx2);
    let after = system.route(&msg("time", Some(vec![]))).unwrap().unwrap().0;
    assert_eq!(before, 0);
    assert_eq!(after, 0);
}

#[test]
fn read_then_route() {
    let (tx, rx) = channel::<Event>();
    let mut system = EventSystem::new();
    system.add("brightness", tx);
    let m = read_click("{\"name\":\"brightness\",\"button\":1,\"modifiers\":[],\"x\":1,\"y\":2,\"width\":3,\"height\":4}").unwrap();
    let (i, ev) = system.route(&m).unwrap().unwrap();
    system.sender(i).unwrap().send(ev).unwrap();
    let got = rx.recv().unwrap();
    assert_eq!((got.button, got.x, got.y, got.width, got.height), (1, 1, 2, 3, 4));
    assert!(got.modifiers.is_empty());
}

#[test]
fn read_click_keeps_each_member_in_its_field() {
    let m = read_click("{\"name\":\"n\",\"instance\":\"i\",\"button\":2,\"modifiers\":[],\"x\":1,\"y\":2,\"width\":3,\"height\":4}").unwrap();
    assert_eq!(m.name, "n");
    assert_eq!(m.modifiers, Some(vec![]));
    assert_eq!((m.button, m.x, m.y, m.width, m.height), (Some(2), Some(1), Some(2), Some(3), Some(4)));
    let m = read_click("{\"name\":7,\"button\":1.5,\"x\":-1}").unwrap();
    assert_eq!(m.name, "7");
    assert_eq!(m.button, None);
    assert_eq!(m.x, None);
}
