//! Text components: styled, nested text, the markup it is parsed from and
//! the JSON it is sent as.

pub mod colors;
pub mod parse;
pub mod resolver;
pub mod serialize;

use crate::components::colors::Color;
use vstd::prelude::*;

verus! {

/// The protocol number from which on a colour may be sent as `#rrggbb`.
/// Older clients know the sixteen names of the palette only.
pub const HEX_COLOR_PROTOCOL: i32 = 735;

/// The protocol number a component is made for until it is told another.
pub const DEFAULT_PROTOCOL: i32 = 754;

/// The protocol number this server speaks.
pub fn get_protocol_version() -> (protocol: i32)
    ensures
        protocol == 774,
{
    774
}

/// The name under which this server shows its version.
pub fn get_version_name() -> (name: String)
    ensures
        name@ == "Iridium 1.21.11"@,
{
    "Iridium 1.21.11".to_owned()
}

/// How a piece of text looks. A field that is `None` says nothing: the
/// text then looks as its surroundings do.
#[derive(Debug, PartialEq, Eq)]
pub struct Style {
    pub color: Option<Color>,
    pub bold: Option<bool>,
    pub italic: Option<bool>,
    pub underlined: Option<bool>,
    pub strikethrough: Option<bool>,
    pub obfuscated: Option<bool>,
    pub font: Option<String>,
}

/// A style as contracts see it.
pub struct StyleView {
    pub color: Option<Color>,
    pub bold: Option<bool>,
    pub italic: Option<bool>,
    pub underlined: Option<bool>,
    pub strikethrough: Option<bool>,
    pub obfuscated: Option<bool>,
    pub font: Option<Seq<char>>,
}

impl View for Style {
    type V = StyleView;

    open spec fn view(&self) -> StyleView {
        StyleView {
            color: self.color,
            bold: self.bold,
            italic: self.italic,
            underlined: self.underlined,
            strikethrough: self.strikethrough,
            obfuscated: self.obfuscated,
            font: match self.font {
                Some(f) => Some(f@),
                None => None,
            },
        }
    }
}

impl StyleView {
    /// The style that says nothing.
    pub open spec fn plain() -> StyleView {
        StyleView {
            color: None,
            bold: None,
            italic: None,
            underlined: None,
            strikethrough: None,
            obfuscated: None,
            font: None,
        }
    }

    /// This style with `over` laid over it: what `over` says holds, and
    /// where it says nothing this style does.
    pub open spec fn merged(self, over: StyleView) -> StyleView {
        StyleView {
            color: if over.color is Some {
                over.color
            } else {
                self.color
            },
            bold: if over.bold is Some {
                over.bold
            } else {
                self.bold
            },
            italic: if over.italic is Some {
                over.italic
            } else {
                self.italic
            },
            underlined: if over.underlined is Some {
                over.underlined
            } else {
                self.underlined
            },
            strikethrough: if over.strikethrough is Some {
                over.strikethrough
            } else {
                self.strikethrough
            },
            obfuscated: if over.obfuscated is Some {
                over.obfuscated
            } else {
                self.obfuscated
            },
            font: if over.font is Some {
                over.font
            } else {
                self.font
            },
        }
    }
}

impl Default for Style {
    fn default() -> (style: Style)
        ensures
            style@ == StyleView::plain(),
    {
        Style {
            color: None,
            bold: None,
            italic: None,
            underlined: None,
            strikethrough: None,
            obfuscated: None,
            font: None,
        }
    }
}

impl Clone for Style {
    fn clone(&self) -> (style: Style)
        ensures
            style@ == self@,
    {
        Style {
            color: self.color,
            bold: self.bold,
            italic: self.italic,
            underlined: self.underlined,
            strikethrough: self.strikethrough,
            obfuscated: self.obfuscated,
            font: match &self.font {
                Some(f) => Some(f.clone()),
                None => None,
            },
        }
    }
}

impl Style {
    /// This style with `over` laid over it.
    pub fn merge(&self, over: &Style) -> (style: Style)
        ensures
            style@ == self@.merged(over@),
    {
        Style {
            color: if over.color.is_some() {
                over.color
            } else {
                self.color
            },
            bold: if over.bold.is_some() {
                over.bold
            } else {
                self.bold
            },
            italic: if over.italic.is_some() {
                over.italic
            } else {
                self.italic
            },
            underlined: if over.underlined.is_some() {
                over.underlined
            } else {
                self.underlined
            },
            strikethrough: if over.strikethrough.is_some() {
                over.strikethrough
            } else {
                self.strikethrough
            },
            obfuscated: if over.obfuscated.is_some() {
                over.obfuscated
            } else {
                self.obfuscated
            },
            font: match &over.font {
                Some(f) => Some(f.clone()),
                None => match &self.font {
                    Some(f) => Some(f.clone()),
                    None => None,
                },
            },
        }
    }
}

/// What a component says.
#[derive(Debug, PartialEq, Eq)]
pub enum Content {
    /// Literal text.
    Text { text: String },
    /// A text the client looks up under `key` and fills with `with`.
    Translatable { key: String, with: Vec<Component> },
    /// The names of the entities that `key` selects.
    Selector { key: String, separator: Option<Box<Component>> },
}

/// A node of styled text: a style, what it says, the components that
/// follow it and inherit from it, and the protocol number it is sent under.
#[derive(Debug, PartialEq, Eq)]
pub struct Component {
    pub style: Style,
    pub content: Content,
    pub extra: Vec<Component>,
    pub protocol: i32,
}

/// A component's content as contracts see it.
pub enum ContentView {
    Text { text: Seq<char> },
    Translatable { key: Seq<char>, with: Seq<ComponentView> },
    Selector { key: Seq<char>, separator: Option<Box<ComponentView>> },
}

/// A component as contracts see it.
pub struct ComponentView {
    pub style: StyleView,
    pub content: ContentView,
    pub extra: Seq<ComponentView>,
    pub protocol: i32,
}

/// A component as contracts see it: its texts as sequences of characters,
/// the components in it by their views.
pub open spec fn component_view(c: Component) -> ComponentView
    decreases c,
{
    ComponentView {
        style: c.style@,
        content: match c.content {
            Content::Text { text } => ContentView::Text { text: text@ },
            Content::Translatable { key, with } => ContentView::Translatable {
                key: key@,
                with: Seq::new(
                    with@.len(),
                    |i: int|
                        if 0 <= i < with@.len() {
                            component_view(with@[i])
                        } else {
                            arbitrary()
                        },
                ),
            },
            Content::Selector { key, separator } => ContentView::Selector {
                key: key@,
                separator: match separator {
                    Some(s) => Some(Box::new(component_view(*s))),
                    None => None,
                },
            },
        },
        extra: Seq::new(
            c.extra@.len(),
            |i: int|
                if 0 <= i < c.extra@.len() {
                    component_view(c.extra@[i])
                } else {
                    arbitrary()
                },
        ),
        protocol: c.protocol,
    }
}

impl View for Component {
    type V = ComponentView;

    open spec fn view(&self) -> ComponentView {
        component_view(*self)
    }
}

/// The views of `components`, in order.
pub open spec fn component_views(components: Seq<Component>) -> Seq<ComponentView> {
    Seq::new(components.len(), |i: int| components[i]@)
}

impl ComponentView {
    /// A component that says `text`, in no style, with nothing behind it.
    pub open spec fn plain_text(text: Seq<char>) -> ComponentView {
        ComponentView {
            style: StyleView::plain(),
            content: ContentView::Text { text },
            extra: Seq::empty(),
            protocol: DEFAULT_PROTOCOL,
        }
    }

    /// A component that says `text` in `style`, with nothing behind it.
    pub open spec fn part(text: Seq<char>, style: StyleView, protocol: i32) -> ComponentView {
        ComponentView { style, content: ContentView::Text { text }, extra: Seq::empty(), protocol }
    }

    /// This component and all that follow it, sent under `protocol`.
    pub open spec fn with_protocol(self, protocol: i32) -> ComponentView
        decreases self,
    {
        ComponentView {
            protocol,
            extra: Seq::new(
                self.extra.len(),
                |i: int|
                    if 0 <= i < self.extra.len() {
                        self.extra[i].with_protocol(protocol)
                    } else {
                        arbitrary()
                    },
            ),
            ..self
        }
    }

    /// Whether this component and all that follow it are sent under one
    /// protocol number.
    pub open spec fn uniform(self) -> bool
        decreases self,
    {
        forall|i: int|
            0 <= i < self.extra.len() ==> (#[trigger] self.extra[i]).protocol == self.protocol
                && self.extra[i].uniform()
    }
}

/// A component told its protocol number is sent under that number through
/// and through.
pub proof fn lemma_with_protocol_uniform(c: ComponentView, protocol: i32)
    ensures
        c.with_protocol(protocol).uniform(),
        c.with_protocol(protocol).protocol == protocol,
    decreases c,
{
    let r = c.with_protocol(protocol);
    assert forall|i: int| 0 <= i < r.extra.len() implies (#[trigger] r.extra[i]).protocol
        == r.protocol && r.extra[i].uniform() by {
        lemma_with_protocol_uniform(c.extra[i], protocol);
    }
}

impl Component {
    /// A component that says `content`, in no style, with nothing behind
    /// it, for the default protocol number.
    pub fn new(content: Content) -> (component: Component)
        ensures
            component.content == content,
            component.style@ == StyleView::plain(),
            component.extra@.len() == 0,
            component.protocol == DEFAULT_PROTOCOL,
    {
        Component { style: Style::default(), content, extra: Vec::new(), protocol: DEFAULT_PROTOCOL }
    }

    /// A component that says the literal `text`.
    pub fn text(text: &str) -> (component: Component)
        ensures
            component@ == ComponentView::plain_text(text@),
    {
        let component = Component::new(Content::Text { text: text.to_owned() });
        assert(component@.extra =~= Seq::empty());
        component
    }

    /// A component that says the literal `text` in `style`.
    pub fn styled(text: String, style: Style, protocol: i32) -> (component: Component)
        ensures
            component@ == ComponentView::part(text@, style@, protocol),
    {
        let component = Component { style, content: Content::Text { text }, extra: Vec::new(), protocol };
        assert(component@.extra =~= Seq::empty());
        component
    }

    /// Puts `child` behind this component. The child, and all that follow
    /// it, are from then on sent under this component's protocol number.
    pub fn append(self, child: Component) -> (component: Component)
        ensures
            component@ == (ComponentView {
                extra: self@.extra.push(child@.with_protocol(self@.protocol)),
                ..self@
            }),
    {
        let mut this = self;
        let child = child.protocol(this.protocol);
        this.extra.push(child);
        assert(this@.extra =~= self@.extra.push(child@));
        this
    }

    /// Tells this component, and all that follow it, the protocol number
    /// they are sent under.
    pub fn protocol(self, protocol: i32) -> (component: Component)
        ensures
            component@ == self@.with_protocol(protocol),
        decreases self,
    {
        let Component { style, content, extra, protocol: _ } = self;
        let ghost children = extra@;
        let mut told: Vec<Component> = Vec::new();
        for child in it: extra.into_iter()
            invariant
                it.seq() == children,
                children == self.extra@,
                told@.len() == it.index(),
                forall|k: int|
                    0 <= k < told@.len() ==> (#[trigger] told@[k])@ == children[k]@.with_protocol(
                        protocol,
                    ),
        {
            proof {
                broadcast use vstd::std_specs::vec::axiom_vec_index_decreases;

                assert(child == self.extra@[it.index() as int]);
            }
            told.push(child.protocol(protocol));
        }
        let component = Component { style, content, extra: told, protocol };
        assert(component@.extra =~= self@.with_protocol(protocol).extra);
        component
    }

    /// This component in the colour `color`.
    pub fn color(self, color: Color) -> (component: Component)
        ensures
            component@ == (ComponentView {
                style: StyleView { color: Some(color), ..self@.style },
                ..self@
            }),
    {
        let mut this = self;
        this.style.color = Some(color);
        this
    }

    /// This component, said to be bold or not.
    pub fn bold(self, bold: bool) -> (component: Component)
        ensures
            component@ == (ComponentView {
                style: StyleView { bold: Some(bold), ..self@.style },
                ..self@
            }),
    {
        let mut this = self;
        this.style.bold = Some(bold);
        this
    }

    /// This component, said to be italic or not.
    pub fn italic(self, italic: bool) -> (component: Component)
        ensures
            component@ == (ComponentView {
                style: StyleView { italic: Some(italic), ..self@.style },
                ..self@
            }),
    {
        let mut this = self;
        this.style.italic = Some(italic);
        this
    }

    /// This component, said to be underlined or not.
    pub fn underlined(self, underlined: bool) -> (component: Component)
        ensures
            component@ == (ComponentView {
                style: StyleView { underlined: Some(underlined), ..self@.style },
                ..self@
            }),
    {
        let mut this = self;
        this.style.underlined = Some(underlined);
        this
    }

    /// This component, said to be struck through or not.
    pub fn strikethrough(self, strikethrough: bool) -> (component: Component)
        ensures
            component@ == (ComponentView {
                style: StyleView { strikethrough: Some(strikethrough), ..self@.style },
                ..self@
            }),
    {
        let mut this = self;
        this.style.strikethrough = Some(strikethrough);
        this
    }

    /// This component, said to be obfuscated or not.
    pub fn obfuscated(self, obfuscated: bool) -> (component: Component)
        ensures
            component@ == (ComponentView {
                style: StyleView { obfuscated: Some(obfuscated), ..self@.style },
                ..self@
            }),
    {
        let mut this = self;
        this.style.obfuscated = Some(obfuscated);
        this
    }

    /// This component in the font `font`.
    pub fn font(self, font: String) -> (component: Component)
        ensures
            component@ == (ComponentView {
                style: StyleView { font: Some(font@), ..self@.style },
                ..self@
            }),
    {
        let mut this = self;
        this.style.font = Some(font);
        this
    }
}

impl vstd::std_specs::ops::AddSpecImpl for Component {
    open spec fn obeys_add_spec() -> bool {
        false
    }

    open spec fn add_req(self, rhs: Component) -> bool {
        true
    }

    open spec fn add_spec(self, rhs: Component) -> Component {
        arbitrary()
    }
}

impl core::ops::Add for Component {
    type Output = Component;

    /// This component with `other` behind it.
    fn add(self, other: Component) -> (component: Component)
        ensures
            component@ == (ComponentView {
                extra: self@.extra.push(other@.with_protocol(self@.protocol)),
                ..self@
            }),
    {
        self.append(other)
    }
}

} // verus!
