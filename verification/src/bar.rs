//! The bar: the ordered blocks it shows and the frames it writes for them.
use std::sync::mpsc::Receiver;
use std::sync::{Arc, Mutex};

use vstd::prelude::*;

use crate::block::element::{Element, ElementFormat, ElementView};
use crate::text::{contains, occurs_at};

verus! {

/// `std::sync::Mutex`, opaque: the blocks' elements are shared through it.
#[verifier::external_type_specification]
#[verifier::external_body]
#[verifier::reject_recursive_types(T)]
pub struct ExMutex<T: ?Sized>(Mutex<T>);

/// `std::sync::mpsc::Receiver`, opaque: the bar's end of the announcement channel.
#[verifier::external_type_specification]
#[verifier::external_body]
#[verifier::reject_recursive_types(T)]
pub struct ExReceiver<T>(Receiver<T>);

/// The first line the bar writes: the protocol header.
pub const HEADER: &'static str =
    "{ \"version\": 1, \"stop_signal\": 20, \"cont_signal\": 18, \"click_events\": true }";

/// The line that opens the endless array of frames.
pub const OPENING: &'static str = "[";

/// How the separator block looks.
pub open spec fn separator_view() -> ElementView {
    ElementView {
        name: None,
        instance: None,
        text: seq![' '],
        format: ElementFormat::Separator,
        use_pango: false,
    }
}

/// How the padding block looks in the given format.
pub open spec fn padding_view(f: ElementFormat) -> ElementView {
    ElementView { name: None, instance: None, text: seq![' '], format: f, use_pango: false }
}

/// The padding that surrounds a block: the time padding around the clock, the
/// normal padding around every other block.
pub open spec fn padding_for(f: ElementFormat) -> ElementView {
    if f == ElementFormat::Time {
        padding_view(ElementFormat::Time)
    } else {
        padding_view(ElementFormat::Normal)
    }
}

/// A shown block: its padding, itself, and its padding again.
pub open spec fn block_json(e: ElementView) -> Seq<char> {
    padding_for(e.format).json() + ",\n"@ + e.json() + ",\n"@ + padding_for(e.format).json()
}

/// Whether any of the elements has text to show.
pub open spec fn shows_any(elems: Seq<ElementView>) -> bool {
    exists|i: int| 0 <= i < elems.len() && (#[trigger] elems[i]).text.len() > 0
}

/// The inside of a frame: every element with text, in order, separated by the
/// separator block; elements without text are left out.
pub open spec fn frame_body(elems: Seq<ElementView>) -> Seq<char>
    decreases elems.len(),
{
    if elems.len() == 0 {
        Seq::empty()
    } else {
        let before = elems.drop_last();
        let e = elems.last();
        if e.text.len() == 0 {
            frame_body(before)
        } else {
            frame_body(before) + (if shows_any(before) {
                ",\n    "@ + separator_view().json() + ",\n    "@
            } else {
                "\n    "@
            }) + block_json(e)
        }
    }
}

/// One frame of the bar protocol for the given elements.
pub open spec fn frame(elems: Seq<ElementView>) -> Seq<char> {
    "  ["@ + frame_body(elems) + "\n  ],\n"@
}

proof fn lemma_shows_any_step(elems: Seq<ElementView>)
    requires
        elems.len() > 0,
    ensures
        shows_any(elems) == (shows_any(elems.drop_last()) || elems.last().text.len() > 0),
{
    let before = elems.drop_last();
    if shows_any(elems) && elems.last().text.len() == 0 {
        let j = choose|j: int| 0 <= j < elems.len() && (#[trigger] elems[j]).text.len() > 0;
        assert(before[j] == elems[j]);
    }
    if shows_any(before) {
        let j = choose|j: int| 0 <= j < before.len() && (#[trigger] before[j]).text.len() > 0;
        assert(before[j] == elems[j]);
    }
    if elems.last().text.len() > 0 {
        assert(elems[elems.len() - 1].text.len() > 0);
    }
}

/// A block without text leaves the frame as it was.
pub proof fn lemma_blank_block_hidden(elems: Seq<ElementView>, e: ElementView)
    requires
        e.text.len() == 0,
    ensures
        frame(elems.push(e)) == frame(elems),
{
    assert(elems.push(e).drop_last() == elems);
}

proof fn lemma_blank_body(elems: Seq<ElementView>)
    requires
        !shows_any(elems),
    ensures
        frame_body(elems) == Seq::<char>::empty(),
    decreases elems.len(),
{
    if elems.len() > 0 {
        lemma_shows_any_step(elems);
        lemma_blank_body(elems.drop_last());
    }
}

/// A frame grows only at its end: the inside of the frame for the first `j`
/// elements begins the inside of the frame for all of them.
proof fn lemma_frame_body_prefix(elems: Seq<ElementView>, j: int)
    requires
        0 <= j <= elems.len(),
    ensures
        frame_body(elems).len() >= frame_body(elems.take(j)).len(),
        frame_body(elems).subrange(0, frame_body(elems.take(j)).len() as int) == frame_body(
            elems.take(j),
        ),
    decreases elems.len(),
{
    if j == elems.len() {
        assert(elems.take(j) =~= elems);
    } else {
        let before = elems.drop_last();
        lemma_frame_body_prefix(before, j);
        assert(before.take(j) =~= elems.take(j));
        let fb = frame_body(before);
        let fj = frame_body(elems.take(j));
        assert(frame_body(elems).subrange(0, fb.len() as int) =~= fb);
        assert(frame_body(elems).subrange(0, fj.len() as int) =~= fb.subrange(0, fj.len() as int));
    }
}

/// Every block with text is shown in the frame as its own JSON object, with
/// its own text, name and colours.
pub proof fn lemma_frame_shows_block(elems: Seq<ElementView>, i: int)
    requires
        0 <= i < elems.len(),
        elems[i].text.len() > 0,
    ensures
        contains(frame(elems), elems[i].json()),
{
    let e = elems[i];
    let upto = elems.take(i + 1);
    assert(upto.drop_last() =~= elems.take(i));
    assert(upto.last() == e);
    lemma_frame_body_prefix(elems, i + 1);
    let gap = if shows_any(elems.take(i)) {
        ",\n    "@ + separator_view().json() + ",\n    "@
    } else {
        "\n    "@
    };
    let pad = padding_for(e.format).json();
    let head = frame_body(elems.take(i)) + gap + pad + ",\n"@;
    assert(frame_body(upto) =~= head + e.json() + (",\n"@ + pad));
    let at: int = ("  ["@.len() + head.len()) as int;
    let whole = frame(elems);
    let body = frame_body(elems);
    assert(whole.subrange(at, at + e.json().len()) =~= e.json()) by {
        assert forall|k: int| 0 <= k < e.json().len() implies whole.subrange(
            at,
            at + e.json().len(),
        )[k] == e.json()[k] by {
            assert(whole[at + k] == body[head.len() + k]);
            assert(body[head.len() + k] == body.subrange(0, frame_body(upto).len() as int)[head.len() + k]);
            assert(frame_body(upto)[head.len() + k] == e.json()[k]);
        }
    }
    assert(occurs_at(whole, e.json(), at));
}

/// When no block has text, the frame is empty.
pub proof fn lemma_blank_frame(elems: Seq<ElementView>)
    requires
        !shows_any(elems),
    ensures
        frame(elems) == "  ["@ + "\n  ],\n"@,
{
    lemma_blank_body(elems);
    assert("  ["@ + Seq::<char>::empty() == "  ["@);
}

/// The views of a sequence of elements.
pub open spec fn views<'a>(elems: Seq<Element<'a>>) -> Seq<ElementView> {
    elems.map_values(|e: Element<'a>| e@)
}

/// Locks a block and copies its element (`Mutex::lock`); `None` when the lock
/// is poisoned. What the copy holds is whatever the block held at that moment.
#[verifier::external_body]
fn lock_copy<'a>(block: &Arc<Mutex<Element<'a>>>) -> Option<Element<'a>> {
    match block.lock() {
        Ok(guard) => Some(guard.clone()),
        Err(_) => None,
    }
}

/// The bar: the blocks in the order they are shown, and the channel on which
/// blocks announce that they changed.
pub struct Bar<'a> {
    blocks: Vec<Arc<Mutex<Element<'a>>>>,
    sep: Element<'a>,
    space: Element<'a>,
    space_time: Element<'a>,
    rx: Receiver<i32>,
}

impl<'a> View for Bar<'a> {
    type V = Seq<Arc<Mutex<Element<'a>>>>;

    closed spec fn view(&self) -> Seq<Arc<Mutex<Element<'a>>>> {
        self.blocks@
    }
}

impl<'a> Bar<'a> {
    /// The channel on which the bar listens for announcements: the one it was
    /// made with.
    pub closed spec fn channel(&self) -> Receiver<i32> {
        self.rx
    }

    #[verifier::type_invariant]
    closed spec fn fixed_blocks(self) -> bool {
        &&& self.sep@ == separator_view()
        &&& self.space@ == padding_view(ElementFormat::Normal)
        &&& self.space_time@ == padding_view(ElementFormat::Time)
    }

    /// A bar with no blocks that listens for updates on `rx`.
    pub fn new(rx: Receiver<i32>) -> (bar: Bar<'a>)
        ensures
            bar@ == Seq::<Arc<Mutex<Element<'a>>>>::empty(),
            bar.channel() == rx,
    {
        Bar {
            blocks: Vec::new(),
            sep: Element::sep(),
            space: Element::space(),
            space_time: Element::space_time(),
            rx: rx,
        }
    }

    /// Adds a block after the existing ones.
    pub fn add(&mut self, elem: Arc<Mutex<Element<'a>>>)
        ensures
            final(self)@ == old(self)@.push(elem),
            final(self).channel() == old(self).channel(),
    {
        proof {
            use_type_invariant(&*self);
        }
        let mut blocks = Vec::new();
        std::mem::swap(&mut blocks, &mut self.blocks);
        blocks.push(elem);
        self.blocks = blocks;
    }

    /// The channel on which blocks announce that they changed.
    pub fn receiver(&self) -> (r: &Receiver<i32>)
        ensures
            *r == self.channel(),
    {
        &self.rx
    }

    /// The frame that shows the given elements.
    pub fn render_elements(&self, elems: &Vec<Element<'a>>) -> (s: String)
        ensures
            s@ == frame(views(elems@)),
    {
        proof {
            use_type_invariant(self);
        }
        let mut s = String::new();
        s.append("  [");
        let mut is_start = true;
        let mut i: usize = 0;
        while i < elems.len()
            invariant
                i <= elems@.len(),
                self.sep@ == separator_view(),
                self.space@ == padding_view(ElementFormat::Normal),
                self.space_time@ == padding_view(ElementFormat::Time),
                is_start == !shows_any(views(elems@.take(i as int))),
                s@ == "  ["@ + frame_body(views(elems@.take(i as int))),
            decreases elems@.len() - i,
        {
            let elem = &elems[i];
            let ghost before = views(elems@.take(i as int));
            let ghost now = views(elems@.take(i + 1));
            proof {
                assert(now.drop_last() == before);
                assert(now.last() == elem@);
                lemma_shows_any_step(now);
            }
            if elem.has_text() {
                self.push_shown(&mut s, elem, is_start);
                is_start = false;
            }
            i = i + 1;
        }
        assert(elems@.take(elems@.len() as int) == elems@);
        s.append("\n  ],\n");
        s
    }

    fn push_shown(&self, s: &mut String, elem: &Element<'a>, first: bool)
        requires
            self.sep@ == separator_view(),
            self.space@ == padding_view(ElementFormat::Normal),
            self.space_time@ == padding_view(ElementFormat::Time),
        ensures
            final(s)@ == old(s)@ + (if first {
                "\n    "@
            } else {
                ",\n    "@ + separator_view().json() + ",\n    "@
            }) + block_json(elem@),
    {
        if first {
            s.append("\n    ");
        } else {
            let ghost start = s@;
            s.append(",\n    ");
            s.append(self.sep.render().as_str());
            s.append(",\n    ");
            assert(s@ =~= start + (",\n    "@ + separator_view().json() + ",\n    "@));
        }
        let ghost middle = s@;
        self.push_block(s, elem);
        assert(s@ == middle + block_json(elem@));
    }

    fn push_block(&self, s: &mut String, elem: &Element<'a>)
        requires
            self.space@ == padding_view(ElementFormat::Normal),
            self.space_time@ == padding_view(ElementFormat::Time),
        ensures
            final(s)@ == old(s)@ + block_json(elem@),
    {
        let padding = if elem.current_format() == ElementFormat::Time {
            self.space_time.render()
        } else {
            self.space.render()
        };
        assert(padding@ == padding_for(elem@.format).json());
        s.append(padding.as_str());
        s.append(",\n");
        s.append(elem.render().as_str());
        s.append(",\n");
        s.append(padding.as_str());
        assert(s@ =~= old(s)@ + block_json(elem@));
    }

    /// The frame that shows the blocks as they are now; `None` when a block's
    /// lock is poisoned.
    pub fn render(&self) -> (r: Option<String>)
        ensures
            r matches Some(s) ==> exists|shown: Seq<ElementView>|
                shown.len() == self@.len() && s@ == frame(shown),
            self@.len() == 0 ==> r is Some && r->0@ == frame(Seq::<ElementView>::empty()),
    {
        let mut copies: Vec<Element<'a>> = Vec::new();
        let mut i: usize = 0;
        while i < self.blocks.len()
            invariant
                i <= self.blocks@.len(),
                copies@.len() == i,
            decreases self.blocks@.len() - i,
        {
            match lock_copy(&self.blocks[i]) {
                Some(e) => copies.push(e),
                None => return None,
            }
            i = i + 1;
        }
        let s = self.render_elements(&copies);
        assert(views(copies@).len() == self@.len());
        Some(s)
    }
}

/// When the bar's main loop draws: it waits for an announcement before each
/// frame until, once, several announcements arrive while one frame is drawn;
/// from then on it draws a frame every period without waiting.
pub struct RedrawPolicy {
    must_update: bool,
}

impl View for RedrawPolicy {
    type V = bool;

    closed spec fn view(&self) -> bool {
        self.must_update
    }
}

impl RedrawPolicy {
    /// The policy at start: wait for the first announcement.
    pub fn new() -> (p: RedrawPolicy)
        ensures
            !p@,
    {
        RedrawPolicy { must_update: false }
    }

    /// Whether the loop waits for an announcement before drawing.
    pub fn waits(&self) -> (b: bool)
        ensures
            b == !self@,
    {
        !self.must_update
    }

    /// Records whether announcements were pending after a frame was drawn.
    pub fn after_frame(&mut self, pending: bool)
        ensures
            final(self)@ == (old(self)@ || pending),
    {
        if pending {
            self.must_update = true;
        }
    }
}

} // verus!
