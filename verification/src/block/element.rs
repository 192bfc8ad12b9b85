//! One block of the bar: its text, its colour scheme, and its rendering as an
//! i3bar/swaybar JSON object.
use vstd::prelude::*;

use crate::text::push_char;

verus! {

pub const BG_COLOR: &'static str = "#30333f";

pub const FG_COLOR: &'static str = "#ffffff";

pub const WARNING_FG_COLOR: &'static str = "#e0d060";

pub const ERROR_FG_COLOR: &'static str = "#d05040";

pub const INFO_FG_COLOR: &'static str = "#70a0ff";

pub const SEP_COLOR: &'static str = "#22242c";

pub const BLUE_COLOR: &'static str = "#5294e2";

pub const BLACK_COLOR: &'static str = "#000000";

/// The colour scheme of a block.
#[derive(Clone, Copy, Debug, PartialEq, Eq, Structural)]
pub enum ElementFormat {
    Normal,
    Info,
    Warning,
    Error,
    Separator,
    Time,
}

/// One attribute of a pango `<span>`.
#[derive(Clone, Debug)]
pub enum PangoFormat {
    FontStyle(PangoFontStyle),
    FontWeight(PangoFontWeight),
    FontSize(PangoFontSize),
    Foreground(String),
    Background(String),
    BackgroundAlpha(String),
}

#[derive(Clone, Copy, Debug, PartialEq, Eq, Structural)]
pub enum PangoFontStyle {
    Normal,
    Oblique,
    Italic,
}

#[derive(Clone, Copy, Debug, PartialEq, Eq, Structural)]
pub enum PangoFontWeight {
    UltraLight,
    Light,
    Normal,
    Bold,
    UltraBold,
    Heavy,
}

#[derive(Clone, Copy, Debug, PartialEq, Eq, Structural)]
pub enum PangoFontSize {
    XXSmall,
    XSmall,
    Small,
    Medium,
    Large,
    XLarge,
    XXLarge,
}

/// A block of the bar.
#[derive(Clone, Debug)]
pub struct Element<'a> {
    name: Option<&'a str>,
    instance: Option<&'a str>,
    pub text: String,
    pub format: ElementFormat,
    use_pango: bool,
}

/// The abstract state of an [`Element`].
pub ghost struct ElementView {
    pub name: Option<Seq<char>>,
    pub instance: Option<Seq<char>>,
    pub text: Seq<char>,
    pub format: ElementFormat,
    pub use_pango: bool,
}

pub open spec fn opt_text(s: Option<&str>) -> Option<Seq<char>> {
    match s {
        Some(t) => Some(t@),
        None => None,
    }
}

impl<'a> View for Element<'a> {
    type V = ElementView;

    closed spec fn view(&self) -> ElementView {
        ElementView {
            name: opt_text(self.name),
            instance: opt_text(self.instance),
            text: self.text@,
            format: self.format,
            use_pango: self.use_pango,
        }
    }
}

/// `, "color": "<fg>", "background": "<bg>"`
pub open spec fn colored(fg: Seq<char>, bg: Seq<char>) -> Seq<char> {
    ", \"color\": \""@ + fg + "\", \"background\": \""@ + bg + "\""@
}

/// The colour attributes that a format adds to a block's JSON object.
pub open spec fn format_attrs(f: ElementFormat) -> Seq<char> {
    match f {
        ElementFormat::Normal => ", \"background\": \""@ + BG_COLOR@ + "\""@,
        ElementFormat::Info => colored(INFO_FG_COLOR@, BG_COLOR@),
        ElementFormat::Warning => colored(WARNING_FG_COLOR@, BG_COLOR@),
        ElementFormat::Error => colored(ERROR_FG_COLOR@, BG_COLOR@),
        ElementFormat::Separator => Seq::empty(),
        ElementFormat::Time => colored(BLACK_COLOR@, BLUE_COLOR@),
    }
}

/// `"<key>": "<value>", ` when the value is present, nothing otherwise.
pub open spec fn key_attr(key: Seq<char>, value: Option<Seq<char>>) -> Seq<char> {
    match value {
        Some(v) => "\""@ + key + "\": \""@ + v + "\", "@,
        None => Seq::empty(),
    }
}

impl ElementView {
    /// The JSON object by which the bar protocol shows this block.
    pub open spec fn json(self) -> Seq<char> {
        "{"@ + key_attr("name"@, self.name) + key_attr("instance"@, self.instance)
            + "\"full_text\": \""@ + self.text + "\""@ + format_attrs(self.format)
            + ", \"separator_block_width\": 0"@ + (if self.use_pango {
            ", \"markup\": \"pango\""@
        } else {
            Seq::empty()
        }) + "}"@
    }
}

/// The text of one pango attribute.
pub open spec fn pango_attr(f: PangoFormat) -> Seq<char> {
    match f {
        PangoFormat::Background(color) => " background='"@ + color@ + "'"@,
        PangoFormat::BackgroundAlpha(level) => " background_alpha='"@ + level@ + "'"@,
        PangoFormat::FontSize(PangoFontSize::XXSmall) => " font_size='xx-small'"@,
        PangoFormat::FontSize(PangoFontSize::XSmall) => " font_size='x-small'"@,
        PangoFormat::FontSize(PangoFontSize::Small) => " font_size='small'"@,
        PangoFormat::FontSize(PangoFontSize::Medium) => " font_size='medium'"@,
        PangoFormat::FontSize(PangoFontSize::Large) => " font_size='large'"@,
        PangoFormat::FontSize(PangoFontSize::XLarge) => " font_size='x-large'"@,
        PangoFormat::FontSize(PangoFontSize::XXLarge) => " font_size='xx-large'"@,
        PangoFormat::FontStyle(PangoFontStyle::Normal) => " font_style='normal'"@,
        PangoFormat::FontStyle(PangoFontStyle::Oblique) => " font_style='oblique'"@,
        PangoFormat::FontStyle(PangoFontStyle::Italic) => " font_style='italic'"@,
        PangoFormat::FontWeight(PangoFontWeight::UltraLight) => " font_weight='ultralight'"@,
        PangoFormat::FontWeight(PangoFontWeight::Light) => " font_weight='light'"@,
        PangoFormat::FontWeight(PangoFontWeight::Normal) => " font_weight='normal'"@,
        PangoFormat::FontWeight(PangoFontWeight::Bold) => " font_weight='bold'"@,
        PangoFormat::FontWeight(PangoFontWeight::UltraBold) => " font_weight='ultrabold'"@,
        PangoFormat::FontWeight(PangoFontWeight::Heavy) => " font_weight='heavy'"@,
        // A foreground colour is written as a background attribute.
        PangoFormat::Foreground(color) => " background='"@ + color@ + "'"@,
    }
}

/// The pango name of a font style.
pub open spec fn style_name(s: PangoFontStyle) -> Seq<char> {
    match s {
        PangoFontStyle::Normal => "normal"@,
        PangoFontStyle::Oblique => "oblique"@,
        PangoFontStyle::Italic => "italic"@,
    }
}

/// The pango name of a font weight.
pub open spec fn weight_name(w: PangoFontWeight) -> Seq<char> {
    match w {
        PangoFontWeight::UltraLight => "ultralight"@,
        PangoFontWeight::Light => "light"@,
        PangoFontWeight::Normal => "normal"@,
        PangoFontWeight::Bold => "bold"@,
        PangoFontWeight::UltraBold => "ultrabold"@,
        PangoFontWeight::Heavy => "heavy"@,
    }
}

/// The pango name of a font size.
pub open spec fn size_name(z: PangoFontSize) -> Seq<char> {
    match z {
        PangoFontSize::XXSmall => "xx-small"@,
        PangoFontSize::XSmall => "x-small"@,
        PangoFontSize::Small => "small"@,
        PangoFontSize::Medium => "medium"@,
        PangoFontSize::Large => "large"@,
        PangoFontSize::XLarge => "x-large"@,
        PangoFontSize::XXLarge => "xx-large"@,
    }
}

/// The pango key an attribute is written under (a foreground colour is
/// written under the background key).
pub open spec fn attr_key(f: PangoFormat) -> Seq<char> {
    match f {
        PangoFormat::FontStyle(_) => "font_style"@,
        PangoFormat::FontWeight(_) => "font_weight"@,
        PangoFormat::FontSize(_) => "font_size"@,
        PangoFormat::Foreground(_) => "background"@,
        PangoFormat::Background(_) => "background"@,
        PangoFormat::BackgroundAlpha(_) => "background_alpha"@,
    }
}

/// The value an attribute is written with.
pub open spec fn attr_value(f: PangoFormat) -> Seq<char> {
    match f {
        PangoFormat::FontStyle(s) => style_name(s),
        PangoFormat::FontWeight(w) => weight_name(w),
        PangoFormat::FontSize(z) => size_name(z),
        PangoFormat::Foreground(c) => c@,
        PangoFormat::Background(c) => c@,
        PangoFormat::BackgroundAlpha(l) => l@,
    }
}

proof fn lemma_texts_differ(a: Seq<char>, b: Seq<char>, k: int)
    requires
        0 <= k < a.len(),
        k < b.len(),
        a[k] != b[k],
    ensures
        a != b,
{
}

/// Every attribute is written as ` key='value'`, with the value of its own
/// variant; distinct styles, weights and sizes have distinct names, and the
/// keys of the five kinds of attribute are distinct.
pub proof fn lemma_pango_attr_text(f: PangoFormat)
    ensures
        pango_attr(f) == " "@ + attr_key(f) + "='"@ + attr_value(f) + "'"@,
        forall|a: PangoFontStyle, b: PangoFontStyle| style_name(a) == style_name(b) ==> a == b,
        forall|a: PangoFontWeight, b: PangoFontWeight| weight_name(a) == weight_name(b) ==> a == b,
        forall|a: PangoFontSize, b: PangoFontSize| size_name(a) == size_name(b) ==> a == b,
        "font_style"@ != "font_weight"@ && "font_style"@ != "font_size"@ && "font_style"@
            != "background"@ && "font_style"@ != "background_alpha"@ && "font_weight"@
            != "font_size"@ && "font_weight"@ != "background"@ && "font_weight"@
            != "background_alpha"@ && "font_size"@ != "background"@ && "font_size"@
            != "background_alpha"@ && "background"@ != "background_alpha"@,
{
    reveal_strlit(" ");
    reveal_strlit("='");
    reveal_strlit("'");
    reveal_strlit("font_style");
    reveal_strlit("font_weight");
    reveal_strlit("font_size");
    reveal_strlit("background");
    reveal_strlit("background_alpha");
    reveal_strlit("normal");
    reveal_strlit("oblique");
    reveal_strlit("italic");
    reveal_strlit("ultralight");
    reveal_strlit("light");
    reveal_strlit("bold");
    reveal_strlit("ultrabold");
    reveal_strlit("heavy");
    reveal_strlit("xx-small");
    reveal_strlit("x-small");
    reveal_strlit("small");
    reveal_strlit("medium");
    reveal_strlit("large");
    reveal_strlit("x-large");
    reveal_strlit("xx-large");
    reveal_strlit(" background='");
    reveal_strlit(" background_alpha='");
    reveal_strlit(" font_size='xx-small'");
    reveal_strlit(" font_size='x-small'");
    reveal_strlit(" font_size='small'");
    reveal_strlit(" font_size='medium'");
    reveal_strlit(" font_size='large'");
    reveal_strlit(" font_size='x-large'");
    reveal_strlit(" font_size='xx-large'");
    reveal_strlit(" font_style='normal'");
    reveal_strlit(" font_style='oblique'");
    reveal_strlit(" font_style='italic'");
    reveal_strlit(" font_weight='ultralight'");
    reveal_strlit(" font_weight='light'");
    reveal_strlit(" font_weight='normal'");
    reveal_strlit(" font_weight='bold'");
    reveal_strlit(" font_weight='ultrabold'");
    reveal_strlit(" font_weight='heavy'");
    assert(pango_attr(f) =~= " "@ + attr_key(f) + "='"@ + attr_value(f) + "'"@);
    assert forall|a: PangoFontStyle, b: PangoFontStyle| style_name(a) == style_name(b) implies a
        == b by {
        match a {
            PangoFontStyle::Normal => assert(style_name(a)[0] == 'n'),
            PangoFontStyle::Oblique => assert(style_name(a)[0] == 'o'),
            PangoFontStyle::Italic => assert(style_name(a)[0] == 'i'),
        }
        match b {
            PangoFontStyle::Normal => assert(style_name(b)[0] == 'n'),
            PangoFontStyle::Oblique => assert(style_name(b)[0] == 'o'),
            PangoFontStyle::Italic => assert(style_name(b)[0] == 'i'),
        }
        if a != b {
            lemma_texts_differ(style_name(a), style_name(b), 0);
        }
    }
    assert forall|a: PangoFontWeight, b: PangoFontWeight| weight_name(a) == weight_name(b)
        implies a == b by {
        if a != b {
            if weight_name(a)[0] != weight_name(b)[0] {
                lemma_texts_differ(weight_name(a), weight_name(b), 0);
            } else {
                lemma_texts_differ(weight_name(a), weight_name(b), 5);
            }
        }
    }
    assert forall|a: PangoFontSize, b: PangoFontSize| size_name(a) == size_name(b) implies a
        == b by {
        if a != b && size_name(a).len() == size_name(b).len() {
            if size_name(a)[0] != size_name(b)[0] {
                lemma_texts_differ(size_name(a), size_name(b), 0);
            } else if size_name(a).len() == 7 {
                assert(size_name(a)[2] != size_name(b)[2]) by {
                    match a {
                        PangoFontSize::XSmall => assert(size_name(a)[2] == 's'),
                        PangoFontSize::XLarge => assert(size_name(a)[2] == 'l'),
                        _ => {},
                    }
                    match b {
                        PangoFontSize::XSmall => assert(size_name(b)[2] == 's'),
                        PangoFontSize::XLarge => assert(size_name(b)[2] == 'l'),
                        _ => {},
                    }
                }
                lemma_texts_differ(size_name(a), size_name(b), 2);
            } else {
                assert(size_name(a)[3] != size_name(b)[3]) by {
                    match a {
                        PangoFontSize::XXSmall => assert(size_name(a)[3] == 's'),
                        PangoFontSize::XXLarge => assert(size_name(a)[3] == 'l'),
                        _ => {},
                    }
                    match b {
                        PangoFontSize::XXSmall => assert(size_name(b)[3] == 's'),
                        PangoFontSize::XXLarge => assert(size_name(b)[3] == 'l'),
                        _ => {},
                    }
                }
                lemma_texts_differ(size_name(a), size_name(b), 3);
            }
        }
    }
    assert("font_style"@.len() == 10);
    assert("font_weight"@.len() == 11);
    assert("font_size"@.len() == 9);
    assert("background"@.len() == 10);
    assert("background_alpha"@.len() == 16);
    assert("font_style"@[0] == 'f' && "background"@[0] == 'b');
    lemma_texts_differ("font_style"@, "background"@, 0);
}

/// The attributes of a `<span>`, in order.
pub open spec fn pango_attrs(fs: Seq<PangoFormat>) -> Seq<char>
    decreases fs.len(),
{
    if fs.len() == 0 {
        Seq::empty()
    } else {
        pango_attrs(fs.drop_last()) + pango_attr(fs.last())
    }
}

/// `text` wrapped in a pango `<span>` with the given attributes.
pub open spec fn pango_span(text: Seq<char>, fs: Seq<PangoFormat>) -> Seq<char> {
    "<span"@ + pango_attrs(fs) + ">"@ + text + "</span>"@
}

fn push_pango_attr(s: &mut String, f: &PangoFormat)
    ensures
        final(s)@ == old(s)@ + pango_attr(*f),
{
    match f {
        PangoFormat::Background(color) => {
            s.append(" background='");
            s.append(color.as_str());
            s.append("'");
        },
        PangoFormat::BackgroundAlpha(level) => {
            s.append(" background_alpha='");
            s.append(level.as_str());
            s.append("'");
        },
        PangoFormat::FontSize(PangoFontSize::XXSmall) => s.append(" font_size='xx-small'"),
        PangoFormat::FontSize(PangoFontSize::XSmall) => s.append(" font_size='x-small'"),
        PangoFormat::FontSize(PangoFontSize::Small) => s.append(" font_size='small'"),
        PangoFormat::FontSize(PangoFontSize::Medium) => s.append(" font_size='medium'"),
        PangoFormat::FontSize(PangoFontSize::Large) => s.append(" font_size='large'"),
        PangoFormat::FontSize(PangoFontSize::XLarge) => s.append(" font_size='x-large'"),
        PangoFormat::FontSize(PangoFontSize::XXLarge) => s.append(" font_size='xx-large'"),
        PangoFormat::FontStyle(PangoFontStyle::Normal) => s.append(" font_style='normal'"),
        PangoFormat::FontStyle(PangoFontStyle::Oblique) => s.append(" font_style='oblique'"),
        PangoFormat::FontStyle(PangoFontStyle::Italic) => s.append(" font_style='italic'"),
        PangoFormat::FontWeight(PangoFontWeight::UltraLight) => s.append(
            " font_weight='ultralight'",
        ),
        PangoFormat::FontWeight(PangoFontWeight::Light) => s.append(" font_weight='light'"),
        PangoFormat::FontWeight(PangoFontWeight::Normal) => s.append(" font_weight='normal'"),
        PangoFormat::FontWeight(PangoFontWeight::Bold) => s.append(" font_weight='bold'"),
        PangoFormat::FontWeight(PangoFontWeight::UltraBold) => s.append(
            " font_weight='ultrabold'",
        ),
        PangoFormat::FontWeight(PangoFontWeight::Heavy) => s.append(" font_weight='heavy'"),
        PangoFormat::Foreground(color) => {
            s.append(" background='");
            s.append(color.as_str());
            s.append("'");
        },
    }
}

fn push_colored(s: &mut String, fg: &str, bg: &str)
    ensures
        final(s)@ == old(s)@ + colored(fg@, bg@),
{
    s.append(", \"color\": \"");
    s.append(fg);
    s.append("\", \"background\": \"");
    s.append(bg);
    s.append("\"");
}

fn push_key_attr(s: &mut String, key: &str, value: Option<&str>)
    ensures
        final(s)@ == old(s)@ + key_attr(key@, opt_text(value)),
{
    match value {
        Some(v) => {
            s.append("\"");
            s.append(key);
            s.append("\": \"");
            s.append(v);
            s.append("\", ");
        },
        None => {
            assert(old(s)@ + Seq::<char>::empty() == old(s)@);
        },
    }
}

impl<'a> Element<'a> {
    /// A named block with the given text and format.
    pub fn new(name: &'a str, instance: &'a str, text: String, format: ElementFormat) -> (e:
        Element<'a>)
        ensures
            e@ == (ElementView {
                name: Some(name@),
                instance: Some(instance@),
                text: text@,
                format,
                use_pango: false,
            }),
    {
        Element { name: Some(name), instance: Some(instance), text: text, format: format, use_pango: false }
    }

    /// The separator block: a single space in the separator format.
    pub fn sep() -> (e: Element<'a>)
        ensures
            e@ == (ElementView {
                name: None,
                instance: None,
                text: seq![' '],
                format: ElementFormat::Separator,
                use_pango: false,
            }),
    {
        Element {
            name: None,
            instance: None,
            text: single_space(),
            format: ElementFormat::Separator,
            use_pango: false,
        }
    }

    /// The padding block: a single space in the normal format.
    pub fn space() -> (e: Element<'a>)
        ensures
            e@ == (ElementView {
                name: None,
                instance: None,
                text: seq![' '],
                format: ElementFormat::Normal,
                use_pango: false,
            }),
    {
        Element {
            name: None,
            instance: None,
            text: single_space(),
            format: ElementFormat::Normal,
            use_pango: false,
        }
    }

    /// The padding block around the clock: a single space in the time format.
    pub fn space_time() -> (e: Element<'a>)
        ensures
            e@ == (ElementView {
                name: None,
                instance: None,
                text: seq![' '],
                format: ElementFormat::Time,
                use_pango: false,
            }),
    {
        Element {
            name: None,
            instance: None,
            text: single_space(),
            format: ElementFormat::Time,
            use_pango: false,
        }
    }

    /// The JSON object by which the bar protocol shows this block.
    pub fn render(&self) -> (s: String)
        ensures
            s@ == self@.json(),
    {
        let mut s = String::new();
        s.append("{");
        push_key_attr(&mut s, "name", self.name);
        push_key_attr(&mut s, "instance", self.instance);
        s.append("\"full_text\": \"");
        s.append(self.text.as_str());
        s.append("\"");
        match self.format {
            ElementFormat::Normal => {
                s.append(", \"background\": \"");
                s.append(BG_COLOR);
                s.append("\"");
            },
            ElementFormat::Info => push_colored(&mut s, INFO_FG_COLOR, BG_COLOR),
            ElementFormat::Warning => push_colored(&mut s, WARNING_FG_COLOR, BG_COLOR),
            ElementFormat::Error => push_colored(&mut s, ERROR_FG_COLOR, BG_COLOR),
            ElementFormat::Separator => {},
            ElementFormat::Time => push_colored(&mut s, BLACK_COLOR, BLUE_COLOR),
        }
        s.append(", \"separator_block_width\": 0");
        if self.use_pango {
            s.append(", \"markup\": \"pango\"");
        }
        s.append("}");
        s
    }

    /// Replaces the text; the new text is plain, not pango markup.
    pub fn set_text(&mut self, text: String)
        ensures
            final(self)@ == (ElementView { text: text@, use_pango: false, ..old(self)@ }),
    {
        self.text = text;
        self.use_pango = false;
    }

    /// Empties the text; the element is then plain, not pango markup.
    pub fn clear_text(&mut self)
        ensures
            final(self)@ == (ElementView {
                text: Seq::empty(),
                use_pango: false,
                ..old(self)@
            }),
    {
        self.text = String::new();
        self.use_pango = false;
    }

    /// Appends plain text.
    pub fn append_text(&mut self, text: &str)
        ensures
            final(self)@ == (ElementView { text: old(self)@.text + text@, ..old(self)@ }),
    {
        self.text.append(text);
    }

    /// Appends `text` inside a pango `<span>` with the given attributes; the
    /// element's text is pango markup from then on.
    pub fn append_pango(&mut self, text: &str, format: Vec<PangoFormat>)
        ensures
            final(self)@ == (ElementView {
                text: old(self)@.text + pango_span(text@, format@),
                use_pango: true,
                ..old(self)@
            }),
    {
        let ghost start = self.text@;
        self.use_pango = true;
        self.text.append("<span");
        let mut i: usize = 0;
        while i < format.len()
            invariant
                i <= format@.len(),
                self.text@ == start + "<span"@ + pango_attrs(format@.take(i as int)),
                self.use_pango,
                self.name == old(self).name,
                self.instance == old(self).instance,
                self.format == old(self).format,
                start == old(self).text@,
            decreases format@.len() - i,
        {
            push_pango_attr(&mut self.text, &format[i]);
            assert(format@.take(i + 1).drop_last() == format@.take(i as int));
            i = i + 1;
        }
        assert(format@.take(format@.len() as int) == format@);
        self.text.append(">");
        self.text.append(text);
        self.text.append("</span>");
        assert(self.text@ =~= start + pango_span(text@, format@));
    }

    /// Whether the element has any text to show.
    pub fn has_text(&self) -> (b: bool)
        ensures
            b == (self@.text.len() > 0),
    {
        !self.text.as_str().is_empty()
    }

    /// The element's colour scheme.
    pub fn current_format(&self) -> (f: ElementFormat)
        ensures
            f == self@.format,
    {
        self.format
    }

    /// Changes the colour scheme.
    pub fn set_format(&mut self, format: ElementFormat)
        ensures
            final(self)@ == (ElementView { format, ..old(self)@ }),
    {
        self.format = format;
    }

    /// Shows `new_text` (and, when given, `format`) if the text differs from the
    /// one shown; answers whether anything changed.
    pub fn refresh(&mut self, new_text: String, format: Option<ElementFormat>) -> (updated: bool)
        ensures
            (final(self)@, updated) == refreshed(old(self)@, new_text@, format),
    {
        if self.text != new_text {
            self.set_text(new_text);
            if let Some(f) = format {
                self.set_format(f);
            }
            true
        } else {
            false
        }
    }
}

/// The element after a refresh with `text` and `format`, and whether it
/// changed: it changes exactly when the text differs, and then shows the
/// text as plain text in the given format (or its old one).
pub open spec fn refreshed(e: ElementView, text: Seq<char>, format: Option<ElementFormat>) -> (
    ElementView,
    bool,
) {
    if e.text != text {
        (
            ElementView {
                text,
                use_pango: false,
                format: match format {
                    Some(f) => f,
                    None => e.format,
                },
                ..e
            },
            true,
        )
    } else {
        (e, false)
    }
}

/// After a refresh the element shows the refreshed text, and refreshing it
/// again with the same text changes nothing.
pub proof fn lemma_refresh_settles(e: ElementView, text: Seq<char>, format: Option<ElementFormat>)
    ensures
        refreshed(e, text, format).0.text == text,
        refreshed(refreshed(e, text, format).0, text, format) == (refreshed(e, text, format).0, false),
{
}

/// What a refresh does to an element: it reports a change exactly when the
/// text differs; after a change the element shows the new text as plain
/// text, in the given format whatever that format is (or in its old one
/// when none is given), under the same name and instance; without a change
/// the element is left as it was.
pub proof fn lemma_refresh_effect(e: ElementView, text: Seq<char>, format: Option<ElementFormat>)
    ensures
        refreshed(e, text, format).1 <==> e.text != text,
        !refreshed(e, text, format).1 ==> refreshed(e, text, format).0 == e,
        refreshed(e, text, format).0.text == text,
        refreshed(e, text, format).0.name == e.name,
        refreshed(e, text, format).0.instance == e.instance,
        e.text != text ==> !refreshed(e, text, format).0.use_pango,
        forall|f: ElementFormat|
            e.text != text && format == Some(f) ==> refreshed(e, text, format).0.format == f,
        format is None ==> refreshed(e, text, format).0.format == e.format,
{
}

fn single_space() -> (s: String)
    ensures
        s@ == seq![' '],
{
    let mut s = String::new();
    push_char(&mut s, ' ');
    s
}

} // verus!
