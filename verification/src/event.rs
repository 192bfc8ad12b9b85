//! Click events: reading the bar's JSON click messages and routing them to
//! the block they name.
use std::sync::mpsc::Sender;

use json::JsonValue;
use vstd::prelude::*;

use crate::text::{same_text, strip, strip_bounds, to_chars};

verus! {

/// `std::sync::mpsc::Sender`, opaque: a block's end of its click channel.
#[verifier::external_type_specification]
#[verifier::external_body]
#[verifier::reject_recursive_types(T)]
pub struct ExSender<T>(Sender<T>);

/// Whether `json::parse` accepts the text as a JSON document.
pub uninterp spec fn json_accepts(source: Seq<char>) -> bool;

/// The text of member `key` of a JSON document, as `JsonValue`'s `Display`
/// writes it (`null` when the member is missing).
pub uninterp spec fn member_text(source: Seq<char>, key: Seq<char>) -> Seq<char>;

/// The items of member `key` of a JSON document when it is an array, each
/// item's text when it is a string (`JsonValue::as_str`).
pub uninterp spec fn member_strings(source: Seq<char>, key: Seq<char>) -> Option<
    Seq<Option<Seq<char>>>,
>;

/// Member `key` of a JSON document as `JsonValue::as_i32` reads it.
pub uninterp spec fn member_i32(source: Seq<char>, key: Seq<char>) -> Option<i32>;

/// Member `key` of a JSON document as `JsonValue::as_usize` reads it.
pub uninterp spec fn member_usize(source: Seq<char>, key: Seq<char>) -> Option<usize>;

/// The views of an optional list of optional strings.
pub open spec fn strings_view(r: Option<Vec<Option<String>>>) -> Option<Seq<Option<Seq<char>>>> {
    match r {
        Some(ms) => Some(ms@.map_values(|m: Option<String>| opt_string_view(m))),
        None => None,
    }
}

/// Whether `json::parse` accepts the text.
#[verifier::external_body]
fn json_parses(source: &str) -> (r: bool)
    ensures
        r == json_accepts(source@),
{
    json::parse(source).is_ok()
}

/// Parses the document (`json::parse`) and writes member `key` with
/// `JsonValue`'s `Index<&str>` and `Display`.
#[verifier::external_body]
fn read_member_text(source: &str, key: &str) -> (s: String)
    requires
        json_accepts(source@),
    ensures
        s@ == member_text(source@, key@),
{
    match json::parse(source) {
        Ok(value) => value[key].to_string(),
        Err(_) => String::new(),
    }
}

/// Parses the document (`json::parse`) and reads member `key` as an array
/// of strings (`JsonValue::Array`, `JsonValue::as_str`).
#[verifier::external_body]
fn read_member_strings(source: &str, key: &str) -> (r: Option<Vec<Option<String>>>)
    requires
        json_accepts(source@),
    ensures
        strings_view(r) == member_strings(source@, key@),
{
    match json::parse(source) {
        Ok(value) => match &value[key] {
            JsonValue::Array(items) => Some(
                items.iter().map(|item| item.as_str().map(String::from)).collect(),
            ),
            _ => None,
        },
        Err(_) => None,
    }
}

/// Parses the document (`json::parse`) and reads member `key` with
/// `JsonValue::as_i32`.
#[verifier::external_body]
fn read_member_i32(source: &str, key: &str) -> (r: Option<i32>)
    requires
        json_accepts(source@),
    ensures
        r == member_i32(source@, key@),
{
    match json::parse(source) {
        Ok(value) => value[key].as_i32(),
        Err(_) => None,
    }
}

/// Parses the document (`json::parse`) and reads member `key` with
/// `JsonValue::as_usize`.
#[verifier::external_body]
fn read_member_usize(source: &str, key: &str) -> (r: Option<usize>)
    requires
        json_accepts(source@),
    ensures
        r == member_usize(source@, key@),
{
    match json::parse(source) {
        Ok(value) => value[key].as_usize(),
        Err(_) => None,
    }
}

/// A modifier key held during a click.
#[derive(Clone, Copy, Debug, PartialEq, Eq, Structural)]
pub enum EventModifier {
    Shift,
    Ctrl,
    Mod1,
    Mod4,
}

/// A click on a block, as it is handed to the block.
#[derive(Clone, Debug)]
pub struct Event {
    pub button: i32,
    pub modifiers: Vec<EventModifier>,
    pub x: usize,
    pub y: usize,
    pub width: usize,
    pub height: usize,
}

pub ghost struct EventView {
    pub button: i32,
    pub modifiers: Seq<EventModifier>,
    pub x: usize,
    pub y: usize,
    pub width: usize,
    pub height: usize,
}

impl View for Event {
    type V = EventView;

    open spec fn view(&self) -> EventView {
        EventView {
            button: self.button,
            modifiers: self.modifiers@,
            x: self.x,
            y: self.y,
            width: self.width,
            height: self.height,
        }
    }
}

/// The fields of a click message that routing reads, as plain values: the
/// target's name, the modifiers (each `None` when it is not a string; the
/// whole list `None` when the field is not an array), and the numbers.
#[derive(Clone, Debug)]
pub struct ClickMessage {
    pub name: String,
    pub modifiers: Option<Vec<Option<String>>>,
    pub button: Option<i32>,
    pub x: Option<usize>,
    pub y: Option<usize>,
    pub width: Option<usize>,
    pub height: Option<usize>,
}

pub ghost struct ClickView {
    pub name: Seq<char>,
    pub modifiers: Option<Seq<Option<Seq<char>>>>,
    pub button: Option<i32>,
    pub x: Option<usize>,
    pub y: Option<usize>,
    pub width: Option<usize>,
    pub height: Option<usize>,
}

pub open spec fn opt_string_view(s: Option<String>) -> Option<Seq<char>> {
    match s {
        Some(t) => Some(t@),
        None => None,
    }
}

impl View for ClickMessage {
    type V = ClickView;

    open spec fn view(&self) -> ClickView {
        ClickView {
            name: self.name@,
            modifiers: strings_view(self.modifiers),
            button: self.button,
            x: self.x,
            y: self.y,
            width: self.width,
            height: self.height,
        }
    }
}

/// Why a click message cannot be routed.
#[derive(Clone, Copy, Debug, PartialEq, Eq, Structural)]
pub enum EventError {
    /// The line is not a JSON document.
    InvalidJson,
    /// A modifier of a click on a known block is not a string.
    ModifierNotText,
    /// A click on a known block lacks its button or a coordinate.
    MissingField,
}

/// The modifier that a modifier name stands for, if any.
pub open spec fn modifier_named(s: Seq<char>) -> Option<EventModifier> {
    if s == "Shift"@ {
        Some(EventModifier::Shift)
    } else if s == "Mod1"@ {
        Some(EventModifier::Mod1)
    } else if s == "Mod4"@ {
        Some(EventModifier::Mod4)
    } else if s == "Control"@ {
        Some(EventModifier::Ctrl)
    } else {
        None
    }
}

/// The known modifiers among the names, in order; unknown names are dropped.
pub open spec fn known_modifiers(names: Seq<Seq<char>>) -> Seq<EventModifier>
    decreases names.len(),
{
    if names.len() == 0 {
        Seq::empty()
    } else {
        let rest = known_modifiers(names.drop_last());
        match modifier_named(names.last()) {
            Some(m) => rest.push(m),
            None => rest,
        }
    }
}

/// The four modifier names stand for their modifiers.
pub proof fn lemma_modifier_names()
    ensures
        modifier_named("Shift"@) == Some(EventModifier::Shift),
        modifier_named("Control"@) == Some(EventModifier::Ctrl),
        modifier_named("Mod1"@) == Some(EventModifier::Mod1),
        modifier_named("Mod4"@) == Some(EventModifier::Mod4),
        forall|s: Seq<char>|
            s != "Shift"@ && s != "Control"@ && s != "Mod1"@ && s != "Mod4"@ ==> modifier_named(
                s,
            ) is None,
{
    reveal_strlit("Shift");
    reveal_strlit("Control");
    reveal_strlit("Mod1");
    reveal_strlit("Mod4");
    assert("Control"@.len() == 7 && "Shift"@.len() == 5 && "Mod1"@.len() == 4);
    assert("Mod4"@.len() == 4 && "Mod1"@[3] == '1' && "Mod4"@[3] == '4');
    assert("Control"@ != "Shift"@);
    assert("Mod1"@ != "Shift"@ && "Mod1"@ != "Control"@);
    assert("Mod4"@ != "Shift"@ && "Mod4"@ != "Control"@ && "Mod4"@ != "Mod1"@);
}

/// The modifiers of a list of names are those of its parts, one after the
/// other: each name adds its own modifier, in order, or nothing when it is
/// not a modifier name.
pub proof fn lemma_known_modifiers(a: Seq<Seq<char>>, b: Seq<Seq<char>>, n: Seq<char>)
    ensures
        known_modifiers(a + b) == known_modifiers(a) + known_modifiers(b),
        known_modifiers(seq![n]) == match modifier_named(n) {
            Some(m) => seq![m],
            None => Seq::<EventModifier>::empty(),
        },
    decreases b.len(),
{
    assert(seq![n].drop_last() =~= Seq::<Seq<char>>::empty());
    assert(seq![n].last() == n);
    assert(known_modifiers(Seq::<Seq<char>>::empty()) =~= Seq::<EventModifier>::empty());
    match modifier_named(n) {
        Some(m) => assert(Seq::<EventModifier>::empty().push(m) =~= seq![m]),
        None => {},
    }
    if b.len() == 0 {
        assert(a + b =~= a);
        assert(known_modifiers(b) =~= Seq::<EventModifier>::empty());
        assert(known_modifiers(a) + known_modifiers(b) =~= known_modifiers(a));
    } else {
        lemma_known_modifiers(a, b.drop_last(), n);
        assert((a + b).drop_last() =~= a + b.drop_last());
        assert((a + b).last() == b.last());
        match modifier_named(b.last()) {
            Some(m) => {
                assert(known_modifiers(a) + known_modifiers(b) =~= (known_modifiers(a)
                    + known_modifiers(b.drop_last())).push(m));
            },
            None => {},
        }
    }
}

/// Every modifier name in a list reaches the event: the modifier it stands
/// for is among the list's modifiers.
pub proof fn lemma_known_modifiers_kept(names: Seq<Seq<char>>, i: int)
    requires
        0 <= i < names.len(),
        modifier_named(names[i]) is Some,
    ensures
        known_modifiers(names).contains(modifier_named(names[i])->0),
{
    let m = modifier_named(names[i])->0;
    let n = names[i];
    lemma_known_modifiers(names.take(i), names.skip(i), n);
    assert(names.take(i) + names.skip(i) =~= names);
    lemma_known_modifiers(seq![n], names.skip(i + 1), n);
    assert(seq![n] + names.skip(i + 1) =~= names.skip(i));
    let k = known_modifiers(names.take(i)).len();
    assert(known_modifiers(names)[k as int] == m);
}

/// The position of the first block with the given name, or the number of
/// blocks when there is none.
pub open spec fn find_name(names: Seq<Seq<char>>, name: Seq<char>) -> int
    decreases names.len(),
{
    if names.len() == 0 {
        0
    } else if names[0] == name {
        0
    } else {
        1 + find_name(names.drop_first(), name)
    }
}

/// Where a click goes and what it carries: nowhere when no block has its name
/// or its modifiers are not an array; an error when a modifier is not a string
/// or a number is missing; otherwise the first block with the name, with the
/// known modifiers.
pub open spec fn route_spec(names: Seq<Seq<char>>, msg: ClickView) -> Result<
    Option<(int, EventView)>,
    EventError,
> {
    let k = find_name(names, msg.name);
    if k >= names.len() {
        Ok(None)
    } else {
        match msg.modifiers {
            None => Ok(None),
            Some(ms) => if exists|j: int| 0 <= j < ms.len() && (#[trigger] ms[j]) is None {
                Err(EventError::ModifierNotText)
            } else if msg.button is None || msg.x is None || msg.y is None || msg.width is None
                || msg.height is None {
                Err(EventError::MissingField)
            } else {
                Ok(
                    Some(
                        (
                            k,
                            EventView {
                                button: msg.button->0,
                                modifiers: known_modifiers(
                                    ms.map_values(|m: Option<Seq<char>>| m->0),
                                ),
                                x: msg.x->0,
                                y: msg.y->0,
                                width: msg.width->0,
                                height: msg.height->0,
                            },
                        ),
                    ),
                )
            },
        }
    }
}

/// `find_name` is the first position that holds the name.
pub proof fn lemma_find_name_first(names: Seq<Seq<char>>, name: Seq<char>)
    ensures
        0 <= find_name(names, name) <= names.len(),
        find_name(names, name) < names.len() ==> names[find_name(names, name)] == name,
        forall|j: int| 0 <= j < find_name(names, name) ==> names[j] != name,
    decreases names.len(),
{
    if names.len() > 0 && names[0] != name {
        lemma_find_name_first(names.drop_first(), name);
        assert forall|j: int| 0 <= j < find_name(names, name) implies names[j] != name by {
            if j > 0 {
                assert(names[j] == names.drop_first()[j - 1]);
            }
        }
    }
}

proof fn lemma_find_name_push(names: Seq<Seq<char>>, extra: Seq<char>, name: Seq<char>)
    requires
        find_name(names, name) < names.len(),
    ensures
        find_name(names.push(extra), name) == find_name(names, name),
    decreases names.len(),
{
    if names[0] != name {
        assert(names.push(extra).drop_first() == names.drop_first().push(extra));
        lemma_find_name_push(names.drop_first(), extra, name);
    }
}

/// Registering another block never redirects the clicks for a name that is
/// already registered: they keep going to the first block with that name.
pub proof fn lemma_route_stable(names: Seq<Seq<char>>, extra: Seq<char>, msg: ClickView)
    requires
        find_name(names, msg.name) < names.len(),
    ensures
        route_spec(names.push(extra), msg) == route_spec(names, msg),
{
    lemma_find_name_push(names, extra, msg.name);
}

pub open spec fn route_view(r: Result<Option<(usize, Event)>, EventError>) -> Result<
    Option<(int, EventView)>,
    EventError,
> {
    match r {
        Ok(Some((i, e))) => Ok(Some((i as int, e@))),
        Ok(None) => Ok(None),
        Err(err) => Err(err),
    }
}

/// The modifier that a modifier name stands for, if any.
pub fn modifier_from_name(name: &str) -> (m: Option<EventModifier>)
    ensures
        m == modifier_named(name@),
{
    if same_text(name, "Shift") {
        Some(EventModifier::Shift)
    } else if same_text(name, "Mod1") {
        Some(EventModifier::Mod1)
    } else if same_text(name, "Mod4") {
        Some(EventModifier::Mod4)
    } else if same_text(name, "Control") {
        Some(EventModifier::Ctrl)
    } else {
        None
    }
}

/// The fields of the click message in a JSON document.
pub open spec fn click_fields(source: Seq<char>) -> ClickView {
    ClickView {
        name: member_text(source, "name"@),
        modifiers: member_strings(source, "modifiers"@),
        button: member_i32(source, "button"@),
        x: member_usize(source, "x"@),
        y: member_usize(source, "y"@),
        width: member_usize(source, "width"@),
        height: member_usize(source, "height"@),
    }
}

/// Reads the fields of a click message from one input line, after dropping
/// the commas that separate the messages; `InvalidJson` exactly when the
/// rest is not a JSON document.
pub fn read_click(line: &str) -> (r: Result<ClickMessage, EventError>)
    ensures
        r is Err <==> !json_accepts(strip(line@, ',')),
        r is Err ==> r == Err::<ClickMessage, EventError>(EventError::InvalidJson),
        r matches Ok(m) ==> m@ == click_fields(strip(line@, ',')),
{
    let cs = to_chars(line);
    let (lo, hi) = strip_bounds(&cs, ',');
    let inner = line.substring_char(lo, hi);
    if !json_parses(inner) {
        return Err(EventError::InvalidJson);
    }
    Ok(
        ClickMessage {
            name: read_member_text(inner, "name"),
            modifiers: read_member_strings(inner, "modifiers"),
            button: read_member_i32(inner, "button"),
            x: read_member_usize(inner, "x"),
            y: read_member_usize(inner, "y"),
            width: read_member_usize(inner, "width"),
            height: read_member_usize(inner, "height"),
        },
    )
}

struct EventBlock<'a> {
    name: &'a str,
    tx: Sender<Event>,
}

/// The blocks that take click events, each under its name.
pub struct EventSystem<'a> {
    blocks: Vec<EventBlock<'a>>,
}

impl<'a> View for EventSystem<'a> {
    type V = Seq<(Seq<char>, Sender<Event>)>;

    closed spec fn view(&self) -> Seq<(Seq<char>, Sender<Event>)> {
        self.blocks@.map_values(|b: EventBlock<'a>| (b.name@, b.tx))
    }
}

/// The names of the registered blocks, in order.
pub open spec fn names_of(blocks: Seq<(Seq<char>, Sender<Event>)>) -> Seq<Seq<char>> {
    blocks.map_values(|b: (Seq<char>, Sender<Event>)| b.0)
}

impl<'a> EventSystem<'a> {
    /// A system with no blocks.
    pub fn new() -> (s: EventSystem<'a>)
        ensures
            s@ == Seq::<(Seq<char>, Sender<Event>)>::empty(),
    {
        EventSystem { blocks: Vec::new() }
    }

    /// Registers a block under `name`; its clicks are sent on `tx`.
    pub fn add(&mut self, name: &'a str, tx: Sender<Event>)
        ensures
            final(self)@ == old(self)@.push((name@, tx)),
    {
        self.blocks.push(EventBlock { name: name, tx: tx });
        assert(self@ =~= old(self)@.push((name@, tx)));
    }

    /// The channel of the block at `index`.
    pub fn sender(&self, index: usize) -> (r: Option<&Sender<Event>>)
        ensures
            index < self@.len() ==> r == Some(&self@[index as int].1),
            index >= self@.len() ==> r is None,
    {
        if index < self.blocks.len() {
            Some(&self.blocks[index].tx)
        } else {
            None
        }
    }

    /// The position of the first block named `name`, if any.
    fn find(&self, name: &str) -> (r: Option<usize>)
        ensures
            match r {
                Some(i) => i == find_name(names_of(self@), name@) && i < self@.len(),
                None => find_name(names_of(self@), name@) >= self@.len(),
            },
    {
        let ghost names = names_of(self@);
        let mut i: usize = 0;
        assert(names.skip(0) == names);
        while i < self.blocks.len()
            invariant
                i <= self.blocks@.len() == names.len(),
                names == names_of(self@),
                find_name(names, name@) == i + find_name(names.skip(i as int), name@),
            decreases self.blocks@.len() - i,
        {
            assert(names.skip(i as int)[0] == names[i as int]);
            assert(names[i as int] == self.blocks@[i as int].name@);
            if same_text(self.blocks[i].name, name) {
                return Some(i);
            }
            assert(names.skip(i as int).drop_first() == names.skip(i + 1));
            i = i + 1;
        }
        assert(names.skip(i as int).len() == 0);
        None
    }

    /// Where a click message goes: the position of the block it is for and
    /// the event to send there, nothing, or the reason it cannot be routed.
    pub fn route(&self, msg: &ClickMessage) -> (r: Result<Option<(usize, Event)>, EventError>)
        ensures
            route_view(r) == route_spec(names_of(self@), msg@),
    {
        let index = match self.find(msg.name.as_str()) {
            Some(i) => i,
            None => return Ok(None),
        };
        let names = match &msg.modifiers {
            Some(ms) => ms,
            None => return Ok(None),
        };
        let ghost texts = names@.map_values(|m: Option<String>| opt_string_view(m));
        let mut modifiers: Vec<EventModifier> = Vec::new();
        let mut j: usize = 0;
        while j < names.len()
            invariant
                j <= names@.len() == texts.len(),
                texts == names@.map_values(|m: Option<String>| opt_string_view(m)),
                msg@.modifiers == Some(texts),
                index < self@.len(),
                index == find_name(names_of(self@), msg@.name),
                forall|k: int| 0 <= k < j ==> (#[trigger] texts[k]) is Some,
                modifiers@ == known_modifiers(
                    texts.take(j as int).map_values(|m: Option<Seq<char>>| m->0),
                ),
            decreases names@.len() - j,
        {
            let ghost before = texts.take(j as int).map_values(|m: Option<Seq<char>>| m->0);
            let ghost after = texts.take(j + 1).map_values(|m: Option<Seq<char>>| m->0);
            match &names[j] {
                Some(text) => {
                    assert(after.drop_last() == before);
                    assert(after.last() == text@);
                    match modifier_from_name(text.as_str()) {
                        Some(m) => modifiers.push(m),
                        None => {},
                    }
                },
                None => {
                    assert(texts[j as int] is None);
                    assert(msg@.modifiers->0[j as int] is None);
                    return Err(EventError::ModifierNotText);
                },
            }
            j = j + 1;
        }
        assert(texts.take(j as int) == texts);
        let button = match msg.button {
            Some(b) => b,
            None => return Err(EventError::MissingField),
        };
        let x = match msg.x {
            Some(v) => v,
            None => return Err(EventError::MissingField),
        };
        let y = match msg.y {
            Some(v) => v,
            None => return Err(EventError::MissingField),
        };
        let width = match msg.width {
            Some(v) => v,
            None => return Err(EventError::MissingField),
        };
        let height = match msg.height {
            Some(v) => v,
            None => return Err(EventError::MissingField),
        };
        Ok(Some((index, Event { button, modifiers, x, y, width, height })))
    }
}

} // verus!
