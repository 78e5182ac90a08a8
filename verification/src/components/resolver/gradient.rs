//! The gradient tag: the text up to `</gradient>`, one component to a
//! character, coloured from one colour to another.

use crate::components::colors::Color;
use crate::components::resolver::{
    style_views, top_style, Resolver, ResolverContext, ResolverContextView,
};
use crate::components::{
    component_views, Component, ComponentView, Style, StyleView, HEX_COLOR_PROTOCOL,
};
use crate::text::{find_letters, find_word, str_chars, string_of};
use vstd::prelude::*;

verus! {

/// A tag that colours the text that follows it from `start` to `end`.
#[derive(Debug, Clone, Copy)]
pub struct GradientTag {
    pub start: Color,
    pub end: Color,
}

/// The value at step `i` of `last` on the straight way from `a` to `b`,
/// rounded down.
pub open spec fn blend(a: u8, b: u8, i: int, last: int) -> u8 {
    ((a * last + (b - a) * i) / last) as u8
}

/// The colour at step `i` of `last` on the straight way from `start` to
/// `end`, channel by channel.
pub open spec fn gradient_color(start: Color, end: Color, i: int, last: int) -> Color {
    Color {
        r: blend(start.r, end.r, i, last),
        g: blend(start.g, end.g, i, last),
        b: blend(start.b, end.b, i, last),
    }
}

/// `base` in the colour `color`.
pub open spec fn colored(base: StyleView, color: Color) -> StyleView {
    StyleView { color: Some(color), ..base }
}

/// The components a gradient over `text` gives.
///
/// No text gives none. One character, or a protocol that knows the palette
/// only, gives one component with the whole text in the first colour.
/// Otherwise each character is a component of its own, the first in the
/// first colour, the last in the last, those between on the straight way
/// from the one to the other.
pub open spec fn gradient_parts(
    text: Seq<char>,
    start: Color,
    end: Color,
    base: StyleView,
    protocol: i32,
) -> Seq<ComponentView> {
    if text.len() == 0 {
        Seq::empty()
    } else if text.len() == 1 || protocol < HEX_COLOR_PROTOCOL {
        seq![ComponentView::part(text, colored(base, start), protocol)]
    } else {
        Seq::new(
            text.len(),
            |i: int|
                ComponentView::part(
                    seq![text[i]],
                    colored(base, gradient_color(start, end, i, text.len() - 1)),
                    protocol,
                ),
        )
    }
}

/// The tag that ends a gradient.
pub open spec fn close_tag() -> Seq<char> {
    "</gradient>"@
}

fn blend_channel(a: u8, b: u8, i: usize, last: usize) -> (v: u8)
    requires
        0 < last,
        i <= last,
    ensures
        v == blend(a, b, i as int, last as int),
{
    assert(0 <= a * last <= 255 * last) by (nonlinear_arith)
        requires
            0 <= a <= 255,
            0 < last,
    ;
    let whole: i128 = a as i128 * last as i128;
    let step: i128 = b as i128 - a as i128;
    assert(-255 * last <= step * i <= 255 * last) by (nonlinear_arith)
        requires
            -255 <= step <= 255,
            0 <= i <= last,
    ;
    assert(0 <= a * last + step * i <= 255 * last) by (nonlinear_arith)
        requires
            -255 <= step <= 255,
            0 <= a <= 255,
            0 <= a + step <= 255,
            0 <= i <= last,
    ;
    let sum: i128 = whole + step * i as i128;
    assert(0 <= sum / (last as i128) <= 255) by (nonlinear_arith)
        requires
            0 <= sum <= 255 * last,
            0 < last,
    ;
    (sum / last as i128) as u8
}

/// The components of a gradient over the characters of `chars` from
/// `from` up to `to`.
pub(crate) fn gradient_over(
    chars: &Vec<char>,
    from: usize,
    to: usize,
    start: Color,
    end: Color,
    base: &Style,
    protocol: i32,
) -> (parts: Vec<Component>)
    requires
        from <= to <= chars@.len(),
    ensures
        component_views(parts@) == gradient_parts(
            chars@.subrange(from as int, to as int),
            start,
            end,
            base@,
            protocol,
        ),
{
    let ghost text = chars@.subrange(from as int, to as int);
    let mut parts: Vec<Component> = Vec::new();
    let n: usize = to - from;
    if n == 0 {
        assert(component_views(parts@) =~= Seq::empty());
        return parts;
    }
    if n == 1 || protocol < HEX_COLOR_PROTOCOL {
        let mut style = base.clone();
        style.color = Some(start);
        parts.push(Component::styled(string_of(chars, from, to), style, protocol));
        assert(component_views(parts@) =~= gradient_parts(text, start, end, base@, protocol));
        return parts;
    }
    let mut i: usize = 0;
    while i < n
        invariant
            i <= n,
            n == to - from,
            n >= 2,
            from <= to <= chars@.len(),
            text == chars@.subrange(from as int, to as int),
            parts@.len() == i,
            forall|k: int|
                0 <= k < i ==> (#[trigger] parts@[k])@ == ComponentView::part(
                    seq![text[k]],
                    colored(base@, gradient_color(start, end, k, n - 1)),
                    protocol,
                ),
        decreases n - i,
    {
        let color = Color {
            r: blend_channel(start.r, end.r, i, n - 1),
            g: blend_channel(start.g, end.g, i, n - 1),
            b: blend_channel(start.b, end.b, i, n - 1),
        };
        let mut style = base.clone();
        style.color = Some(color);
        let letter = string_of(chars, from + i, from + i + 1);
        assert(letter@ =~= seq![text[i as int]]);
        parts.push(Component::styled(letter, style, protocol));
        i += 1;
    }
    assert(component_views(parts@) =~= gradient_parts(text, start, end, base@, protocol));
    parts
}

/// The components a gradient from `start` to `end` over `text` gives, in
/// the style `base` but for the colour.
pub fn create_gradient(
    text: &str,
    start: Color,
    end: Color,
    base: Style,
    protocol_version: i32,
) -> (parts: Vec<Component>)
    ensures
        component_views(parts@) == gradient_parts(text@, start, end, base@, protocol_version),
{
    let chars = str_chars(text);
    assert(chars@.subrange(0, chars@.len() as int) =~= text@);
    gradient_over(&chars, 0, chars.len(), start, end, &base, protocol_version)
}

/// What a gradient tag does. Where `</gradient>` follows, the text up to
/// it becomes the components of the gradient, and reading goes on behind
/// it. Where it does not follow, nothing changes.
pub open spec fn gradient_resolved(
    start: Color,
    end: Color,
    ctx: ResolverContextView,
) -> ResolverContextView {
    let close = find_word(ctx.text, close_tag(), ctx.cursor);
    if close < ctx.text.len() {
        ResolverContextView {
            out: ctx.out + gradient_parts(
                ctx.text.subrange(ctx.cursor, close),
                start,
                end,
                ctx.style(),
                ctx.protocol_version,
            ),
            cursor: close + close_tag().len(),
            ..ctx
        }
    } else {
        ctx
    }
}

impl Resolver for GradientTag {
    open spec fn resolved(&self, ctx: ResolverContextView) -> ResolverContextView {
        gradient_resolved(self.start, self.end, ctx)
    }

    fn resolve(&self, ctx: &mut ResolverContext) -> (cursor: usize) {
        let word = str_chars("</gradient>");
        let close = find_letters(&ctx.text, &word, ctx.cursor);
        if close >= ctx.text.len() {
            return ctx.cursor;
        }
        let n: usize = ctx.style_stack.len();
        let base = if n > 0 {
            assert(style_views(ctx.style_stack@).last() == ctx.style_stack@[n - 1]@);
            ctx.style_stack[n - 1].clone()
        } else {
            Style::default()
        };
        let mut parts = gradient_over(
            &ctx.text,
            ctx.cursor,
            close,
            self.start,
            self.end,
            &base,
            ctx.protocol_version,
        );
        let ghost added = component_views(parts@);
        ctx.out.append(&mut parts);
        assert(component_views(ctx.out@) =~= component_views(old(ctx).out@) + added);
        ctx.cursor = close + word.len();
        ctx.cursor
    }
}

} // verus!
