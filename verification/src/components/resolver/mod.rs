//! The tags of the markup: what stands between `<` and `>` and what it
//! does to the text that follows.

pub mod gradient;
pub mod style;

use crate::components::colors::{parse_chars, parse_color, Color};
use crate::components::resolver::gradient::GradientTag;
use crate::components::resolver::style::StyleTag;
use crate::components::{component_views, Component, ComponentView, Style, StyleView};
use crate::text::{
    find_char, find_from, lemma_find_shift, spells, str_chars, trim, trimmed,
};
use vstd::prelude::*;

verus! {

/// What a tag is.
#[derive(Debug)]
pub enum Tag {
    /// Lays a style over the one in force.
    Style(StyleTag),
    /// Colours the text up to `</gradient>` from one colour to another.
    Gradient(GradientTag),
    /// Takes the last style off again.
    Close,
    /// Goes back to the plain style.
    Reset,
    /// No tag at all.
    Invalid,
}

/// A tag as contracts see it.
pub enum TagView {
    Style(StyleView),
    Gradient { start: Color, end: Color },
    Close,
    Reset,
    Invalid,
}

impl View for Tag {
    type V = TagView;

    open spec fn view(&self) -> TagView {
        match self {
            Tag::Style(tag) => TagView::Style(tag.style@),
            Tag::Gradient(tag) => TagView::Gradient { start: tag.start, end: tag.end },
            Tag::Close => TagView::Close,
            Tag::Reset => TagView::Reset,
            Tag::Invalid => TagView::Invalid,
        }
    }
}

/// Reads tags.
pub struct TagResolver;

/// What a tag works on: the text, the place in it behind the tag, the
/// styles in force with the latest last, the components made so far and the
/// protocol number they are made for.
pub struct ResolverContext {
    pub text: Vec<char>,
    pub cursor: usize,
    pub style_stack: Vec<Style>,
    pub out: Vec<Component>,
    pub protocol_version: i32,
}

/// A [`ResolverContext`] as contracts see it.
pub struct ResolverContextView {
    pub text: Seq<char>,
    pub cursor: int,
    pub style_stack: Seq<StyleView>,
    pub out: Seq<ComponentView>,
    pub protocol_version: i32,
}

/// The views of `styles`, in order.
pub open spec fn style_views(styles: Seq<Style>) -> Seq<StyleView> {
    Seq::new(styles.len(), |i: int| styles[i]@)
}

impl View for ResolverContext {
    type V = ResolverContextView;

    open spec fn view(&self) -> ResolverContextView {
        ResolverContextView {
            text: self.text@,
            cursor: self.cursor as int,
            style_stack: style_views(self.style_stack@),
            out: component_views(self.out@),
            protocol_version: self.protocol_version,
        }
    }
}

impl ResolverContextView {
    /// The style in force: the last on the stack, or the plain style where
    /// the stack is empty.
    pub open spec fn style(self) -> StyleView {
        top_style(self.style_stack)
    }

    /// Whether the place behind the tag lies in the text.
    pub open spec fn well_formed(self) -> bool {
        0 <= self.cursor <= self.text.len()
    }
}

/// The last of `stack`, or the plain style where there is none.
pub open spec fn top_style(stack: Seq<StyleView>) -> StyleView {
    if stack.len() > 0 {
        stack.last()
    } else {
        StyleView::plain()
    }
}

/// What a tag does.
pub trait Resolver {
    /// The context after the tag has done its work.
    spec fn resolved(&self, ctx: ResolverContextView) -> ResolverContextView;

    /// Does the tag's work on `ctx` and gives the place in the text from
    /// which reading goes on.
    fn resolve(&self, ctx: &mut ResolverContext) -> (cursor: usize)
        requires
            old(ctx)@.well_formed(),
        ensures
            final(ctx)@ == self.resolved(old(ctx)@),
            cursor == final(ctx)@.cursor,
            old(ctx)@.cursor <= cursor <= old(ctx)@.text.len(),
    ;
}

/// The style with nothing but the colour `c`.
pub open spec fn color_style(c: Color) -> StyleView {
    StyleView { color: Some(c), ..StyleView::plain() }
}

/// The style a tag names, if it names one: a colour, or one of the five
/// decorations under one of its names.
pub open spec fn style_of(content: Seq<char>) -> Option<StyleView> {
    let name = trimmed(content);
    match parse_color(name) {
        Ok(c) => Some(color_style(c)),
        Err(_) => if name == "bold"@ || name == "b"@ {
            Some(StyleView { bold: Some(true), ..StyleView::plain() })
        } else if name == "italic"@ || name == "i"@ {
            Some(StyleView { italic: Some(true), ..StyleView::plain() })
        } else if name == "underlined"@ || name == "underline"@ || name == "u"@ {
            Some(StyleView { underlined: Some(true), ..StyleView::plain() })
        } else if name == "strikethrough"@ || name == "st"@ || name == "strike"@ || name == "s"@ {
            Some(StyleView { strikethrough: Some(true), ..StyleView::plain() })
        } else if name == "obfuscated"@ || name == "obf"@ {
            Some(StyleView { obfuscated: Some(true), ..StyleView::plain() })
        } else {
            None
        },
    }
}

/// What a tag that begins with `gradient` is: the colours are what stands
/// between its first and second colon and between its second and its third,
/// or its end.
pub open spec fn gradient_of(content: Seq<char>) -> TagView {
    let first = find_from(content, ':', 0);
    let second = find_from(content, ':', first + 1);
    let third = find_from(content, ':', second + 1);
    if first >= content.len() || second >= content.len() {
        TagView::Invalid
    } else {
        match (
            parse_color(content.subrange(first + 1, second)),
            parse_color(content.subrange(second + 1, third)),
        ) {
            (Ok(start), Ok(end)) => TagView::Gradient { start, end },
            _ => TagView::Invalid,
        }
    }
}

/// What the tag with `content` between its brackets is.
pub open spec fn resolve_tag(content: Seq<char>) -> TagView {
    if content.len() > 0 && content[0] == '/' {
        TagView::Close
    } else if content == "reset"@ || content == "r"@ {
        TagView::Reset
    } else if "gradient"@.is_prefix_of(content) {
        gradient_of(content)
    } else {
        match style_of(content) {
            Some(style) => TagView::Style(style),
            None => TagView::Invalid,
        }
    }
}

fn decorated(chars: &Vec<char>, from: usize, to: usize) -> (style: Option<Style>)
    requires
        from <= to <= chars@.len(),
    ensures
        ({
            let name = chars@.subrange(from as int, to as int);
            let plain = StyleView::plain();
            if name == "bold"@ || name == "b"@ {
                style is Some && style->0@ == (StyleView { bold: Some(true), ..plain })
            } else if name == "italic"@ || name == "i"@ {
                style is Some && style->0@ == (StyleView { italic: Some(true), ..plain })
            } else if name == "underlined"@ || name == "underline"@ || name == "u"@ {
                style is Some && style->0@ == (StyleView { underlined: Some(true), ..plain })
            } else if name == "strikethrough"@ || name == "st"@ || name == "strike"@ || name
                == "s"@ {
                style is Some && style->0@ == (StyleView { strikethrough: Some(true), ..plain })
            } else if name == "obfuscated"@ || name == "obf"@ {
                style is Some && style->0@ == (StyleView { obfuscated: Some(true), ..plain })
            } else {
                style is None
            }
        }),
{
    let mut style = Style::default();
    if spells(chars, from, to, "bold") || spells(chars, from, to, "b") {
        style.bold = Some(true);
        Some(style)
    } else if spells(chars, from, to, "italic") || spells(chars, from, to, "i") {
        style.italic = Some(true);
        Some(style)
    } else if spells(chars, from, to, "underlined") || spells(chars, from, to, "underline")
        || spells(chars, from, to, "u") {
        style.underlined = Some(true);
        Some(style)
    } else if spells(chars, from, to, "strikethrough") || spells(chars, from, to, "st") || spells(
        chars,
        from,
        to,
        "strike",
    ) || spells(chars, from, to, "s") {
        style.strikethrough = Some(true);
        Some(style)
    } else if spells(chars, from, to, "obfuscated") || spells(chars, from, to, "obf") {
        style.obfuscated = Some(true);
        Some(style)
    } else {
        None
    }
}

/// The style that the characters from `from` up to `to` name.
pub(crate) fn style_in(chars: &Vec<char>, from: usize, to: usize) -> (style: Option<Style>)
    requires
        from <= to <= chars@.len(),
    ensures
        match style_of(chars@.subrange(from as int, to as int)) {
            Some(s) => style is Some && style->0@ == s,
            None => style is None,
        },
{
    let (a, b) = trim(chars, from, to);
    match parse_chars(chars, a, b) {
        Ok(color) => {
            let mut style = Style::default();
            style.color = Some(color);
            Some(style)
        },
        Err(_) => decorated(chars, a, b),
    }
}

fn gradient_in(chars: &Vec<char>, from: usize, to: usize) -> (tag: Tag)
    requires
        from <= to <= chars@.len(),
    ensures
        tag@ == gradient_of(chars@.subrange(from as int, to as int)),
{
    let ghost content = chars@.subrange(from as int, to as int);
    let first = find_char(chars, ':', from, to);
    if first >= to {
        return Tag::Invalid;
    }
    let second = find_char(chars, ':', first + 1, to);
    proof {
        lemma_find_shift(chars@, ':', from as int, to as int, first + 1);
    }
    if second >= to {
        return Tag::Invalid;
    }
    let third = find_char(chars, ':', second + 1, to);
    proof {
        lemma_find_shift(chars@, ':', from as int, to as int, second + 1);
        assert(chars@.subrange(first + 1, second as int) =~= content.subrange(
            first - from + 1,
            second - from,
        ));
        assert(chars@.subrange(second + 1, third as int) =~= content.subrange(
            second - from + 1,
            third - from,
        ));
    }
    match (parse_chars(chars, first + 1, second), parse_chars(chars, second + 1, third)) {
        (Ok(start), Ok(end)) => Tag::Gradient(GradientTag { start, end }),
        _ => Tag::Invalid,
    }
}

/// What the tag is whose content are the characters from `from` up to `to`.
pub(crate) fn resolve_in(chars: &Vec<char>, from: usize, to: usize) -> (tag: Tag)
    requires
        from <= to <= chars@.len(),
    ensures
        tag@ == resolve_tag(chars@.subrange(from as int, to as int)),
{
    let ghost content = chars@.subrange(from as int, to as int);
    if from < to && chars[from] == '/' {
        return Tag::Close;
    }
    if spells(chars, from, to, "reset") || spells(chars, from, to, "r") {
        return Tag::Reset;
    }
    let word = str_chars("gradient");
    if to - from >= word.len() && spells(chars, from, from + word.len(), "gradient") {
        assert(content.subrange(0, word@.len() as int) =~= chars@.subrange(
            from as int,
            from + word@.len(),
        ));
        return gradient_in(chars, from, to);
    }
    proof {
        if "gradient"@.is_prefix_of(content) {
            assert(content.subrange(0, word@.len() as int) =~= chars@.subrange(
                from as int,
                from + word@.len(),
            ));
        }
    }
    match style_in(chars, from, to) {
        Some(style) => Tag::Style(StyleTag { style }),
        None => Tag::Invalid,
    }
}

impl TagResolver {
    /// What the tag with `content` between its brackets is.
    pub fn resolve(content: &str) -> (tag: Tag)
        ensures
            tag@ == resolve_tag(content@),
    {
        let chars = str_chars(content);
        assert(chars@.subrange(0, chars@.len() as int) =~= content@);
        resolve_in(&chars, 0, chars.len())
    }

    /// The style that `content` names, if it names one.
    pub fn parse_style(content: &str) -> (style: Option<Style>)
        ensures
            match style_of(content@) {
                Some(s) => style is Some && style->0@ == s,
                None => style is None,
            },
    {
        let chars = str_chars(content);
        assert(chars@.subrange(0, chars@.len() as int) =~= content@);
        style_in(&chars, 0, chars.len())
    }
}

} // verus!
