//! The two markups a component is read from: the tags between `<` and `>`
//! and the older codes behind `&` or `§`.

use crate::components::colors::{legacy_char_color, Color};
use crate::components::resolver::gradient::{close_tag, gradient_resolved};
use crate::components::resolver::style::style_resolved;
use crate::components::resolver::{
    resolve_in, resolve_tag, style_views, top_style, Resolver, ResolverContext,
    ResolverContextView, Tag, TagView,
};
use crate::components::{
    component_views, get_protocol_version, Component, ComponentView, Content, ContentView, Style,
    StyleView, DEFAULT_PROTOCOL,
};
use crate::text::{
    ascii_lower, find_char, find_from, lemma_find_from_bounds, lemma_find_word_bounds, str_chars,
    string_of, to_ascii_lower,
};
use vstd::prelude::*;

verus! {

/// Whether `c` begins a legacy code.
pub open spec fn is_escape(c: char) -> bool {
    c == '&' || c == '\u{a7}'
}

/// Whether `code` is a legacy code: a colour, one of the five decorations
/// `k` to `o`, or `r`.
pub open spec fn is_legacy_code(code: char) -> bool {
    legacy_char_color(code) is Some || ('k' <= code && code <= 'o') || code == 'r'
}

/// The style in force behind the legacy code `code`, where `style` was in
/// force before it. A colour drops every decoration; a decoration comes on
/// top of what there was; `r` goes back to the plain style.
pub open spec fn legacy_style(style: StyleView, code: char) -> StyleView {
    match legacy_char_color(code) {
        Some(color) => StyleView { color: Some(color), ..StyleView::plain() },
        None => if code == 'l' {
            StyleView { bold: Some(true), ..style }
        } else if code == 'm' {
            StyleView { italic: Some(true), ..style }
        } else if code == 'n' {
            StyleView { underlined: Some(true), ..style }
        } else if code == 'o' {
            StyleView { strikethrough: Some(true), ..style }
        } else if code == 'k' {
            StyleView { obfuscated: Some(true), ..style }
        } else if code == 'r' {
            StyleView::plain()
        } else {
            style
        },
    }
}

/// The text from `start` up to `end` as one component, where there is any.
pub open spec fn segment(text: Seq<char>, start: int, end: int, style: StyleView, protocol: i32) -> Seq<
    ComponentView,
> {
    if start < end {
        seq![ComponentView::part(text.subrange(start, end), style, protocol)]
    } else {
        Seq::empty()
    }
}

/// The components that `text` gives from `i` on, where the text from
/// `start` up to `i` is read and not yet made a component, and `style` is
/// in force.
pub open spec fn legacy_parts(text: Seq<char>, i: int, start: int, style: StyleView) -> Seq<
    ComponentView,
>
    decreases text.len() - i,
{
    if i < 0 || i >= text.len() {
        segment(text, start, text.len() as int, style, DEFAULT_PROTOCOL)
    } else if is_escape(text[i]) && i + 1 < text.len() && is_legacy_code(ascii_lower(text[i + 1])) {
        segment(text, start, i, style, DEFAULT_PROTOCOL) + legacy_parts(
            text,
            i + 2,
            i + 2,
            legacy_style(style, ascii_lower(text[i + 1])),
        )
    } else {
        legacy_parts(text, i + 1, start, style)
    }
}

/// The component that the legacy markup `text` gives: an empty text with
/// one component behind it for each stretch of text between codes.
pub open spec fn legacy_component(text: Seq<char>) -> ComponentView {
    ComponentView {
        extra: legacy_parts(text, 0, 0, StyleView::plain()),
        ..ComponentView::plain_text(Seq::empty())
    }
}

/// The literal `<` as a component in the style in force.
pub open spec fn stray_bracket(ctx: ResolverContextView) -> ComponentView {
    ComponentView::part(seq!['<'], ctx.style(), ctx.protocol_version)
}

/// What reading up to and including the next `<`, and the tag it opens,
/// does. The text before the `<` becomes a component. A `<` that no `>`
/// follows, or whose content is no tag, becomes a component itself, and
/// reading goes on right behind it.
pub open spec fn modern_step(ctx: ResolverContextView) -> ResolverContextView {
    let start = find_from(ctx.text, '<', ctx.cursor);
    let end = find_from(ctx.text, '>', start);
    let flushed = ResolverContextView {
        out: ctx.out + segment(ctx.text, ctx.cursor, start, ctx.style(), ctx.protocol_version),
        ..ctx
    };
    let stray = ResolverContextView {
        out: flushed.out.push(stray_bracket(ctx)),
        cursor: start + 1,
        ..flushed
    };
    let behind = ResolverContextView { cursor: end + 1, ..flushed };
    if end >= ctx.text.len() {
        stray
    } else {
        match resolve_tag(ctx.text.subrange(start + 1, end)) {
            TagView::Style(style) => style_resolved(style, behind),
            TagView::Gradient { start, end } => gradient_resolved(start, end, behind),
            TagView::Close => ResolverContextView {
                style_stack: if behind.style_stack.len() > 1 {
                    behind.style_stack.drop_last()
                } else {
                    behind.style_stack
                },
                ..behind
            },
            TagView::Reset => ResolverContextView {
                style_stack: seq![StyleView::plain()],
                ..behind
            },
            TagView::Invalid => stray,
        }
    }
}

/// What reading all tags from the cursor on does.
pub open spec fn modern_run(ctx: ResolverContextView) -> ResolverContextView
    decreases ctx.text.len() - ctx.cursor,
{
    let next = modern_step(ctx);
    if find_from(ctx.text, '<', ctx.cursor) >= ctx.text.len() {
        ctx
    } else if next.text == ctx.text && ctx.cursor < next.cursor <= ctx.text.len() {
        modern_run(next)
    } else {
        ctx
    }
}

/// The component that the markup `text` gives for `protocol`: an empty
/// text with the components behind it that the tags and the text between
/// them give, the text behind the last tag being the last.
pub open spec fn modern_component(text: Seq<char>, protocol: i32) -> ComponentView {
    let done = modern_run(
        ResolverContextView {
            text,
            cursor: 0,
            style_stack: seq![StyleView::plain()],
            out: Seq::empty(),
            protocol_version: protocol,
        },
    );
    ComponentView {
        extra: done.out + segment(
            done.text,
            done.cursor,
            done.text.len() as int,
            done.style(),
            protocol,
        ),
        protocol,
        ..ComponentView::plain_text(Seq::empty())
    }
}

/// Each step of reading tags goes forward in the text it reads and stays
/// within it: reading a text ends.
pub proof fn lemma_modern_step_advances(ctx: ResolverContextView)
    requires
        ctx.well_formed(),
        find_from(ctx.text, '<', ctx.cursor) < ctx.text.len(),
    ensures
        modern_step(ctx).text == ctx.text,
        modern_step(ctx).protocol_version == ctx.protocol_version,
        ctx.cursor < modern_step(ctx).cursor <= ctx.text.len(),
        modern_run(ctx) == modern_run(modern_step(ctx)),
{
    let start = find_from(ctx.text, '<', ctx.cursor);
    lemma_find_from_bounds(ctx.text, '<', ctx.cursor);
    lemma_find_from_bounds(ctx.text, '>', start);
    let end = find_from(ctx.text, '>', start);
    if end < ctx.text.len() {
        lemma_find_word_bounds(ctx.text, close_tag(), end + 1);
    }
}

/// The stack of styles never runs empty: a closing tag does not take the
/// last style off it, and a reset leaves the plain style on it.
pub proof fn lemma_modern_step_keeps_base(ctx: ResolverContextView)
    requires
        ctx.style_stack.len() >= 1,
    ensures
        modern_step(ctx).style_stack.len() >= 1,
{
}

fn legacy_code(style: Style, code: char) -> (next: Style)
    requires
        is_legacy_code(code),
    ensures
        next@ == legacy_style(style@, code),
{
    match Color::from_legacy_char(code) {
        Some(color) => {
            let mut next = Style::default();
            next.color = Some(color);
            next
        },
        None => {
            let mut next = style;
            if code == 'l' {
                next.bold = Some(true);
            } else if code == 'm' {
                next.italic = Some(true);
            } else if code == 'n' {
                next.underlined = Some(true);
            } else if code == 'o' {
                next.strikethrough = Some(true);
            } else if code == 'k' {
                next.obfuscated = Some(true);
            } else {
                next = Style::default();
            }
            next
        },
    }
}

fn is_code(code: char) -> (known: bool)
    ensures
        known == is_legacy_code(code),
{
    Color::from_legacy_char(code).is_some() || ('k' <= code && code <= 'o') || code == 'r'
}

/// Puts the characters from `start` up to `end` behind `out` as one
/// component, where there are any.
fn push_segment(
    out: &mut Vec<Component>,
    chars: &Vec<char>,
    start: usize,
    end: usize,
    style: &Style,
    protocol: i32,
)
    requires
        start <= chars@.len(),
        end <= chars@.len(),
    ensures
        component_views(final(out)@) == component_views(old(out)@) + segment(
            chars@,
            start as int,
            end as int,
            style@,
            protocol,
        ),
{
    if start < end {
        out.push(Component::styled(string_of(chars, start, end), style.clone(), protocol));
    }
    assert(component_views(out@) =~= component_views(old(out)@) + segment(
        chars@,
        start as int,
        end as int,
        style@,
        protocol,
    ));
}

/// The style in force: the last on the stack.
fn current_style(stack: &Vec<Style>) -> (style: Style)
    ensures
        style@ == top_style(style_views(stack@)),
{
    let n: usize = stack.len();
    if n > 0 {
        assert(style_views(stack@).last() == stack@[n - 1]@);
        stack[n - 1].clone()
    } else {
        Style::default()
    }
}

fn push_stray(ctx: &mut ResolverContext, at: usize)
    requires
        at < old(ctx)@.text.len(),
    ensures
        final(ctx)@ == (ResolverContextView {
            out: old(ctx)@.out.push(stray_bracket(old(ctx)@)),
            cursor: at + 1,
            ..old(ctx)@
        }),
{
    let total: usize = ctx.text.len();
    let style = current_style(&ctx.style_stack);
    ctx.out.push(Component::styled("<".to_owned(), style, ctx.protocol_version));
    proof {
        reveal_strlit("<");
        assert("<"@ =~= seq!['<']);
        assert(component_views(ctx.out@) =~= old(ctx)@.out.push(stray_bracket(old(ctx)@)));
    }
    ctx.cursor = at + 1;
}

/// Reads up to and including the next `<` and the tag it opens.
fn step(ctx: &mut ResolverContext, start: usize)
    requires
        old(ctx)@.well_formed(),
        start == find_from(old(ctx)@.text, '<', old(ctx)@.cursor),
        start < old(ctx)@.text.len(),
        old(ctx)@.text[start as int] == '<',
    ensures
        final(ctx)@ == modern_step(old(ctx)@),
        final(ctx)@.well_formed(),
        final(ctx)@.text == old(ctx)@.text,
        final(ctx)@.protocol_version == old(ctx)@.protocol_version,
        old(ctx)@.cursor < final(ctx)@.cursor,
{
    let ghost before = ctx@;
    let style = current_style(&ctx.style_stack);
    let total: usize = ctx.text.len();
    push_segment(&mut ctx.out, &ctx.text, ctx.cursor, start, &style, ctx.protocol_version);
    let ghost flushed = ctx@;
    let end = find_char(&ctx.text, '>', start + 1, total);
    assert(ctx.text@.subrange(0, total as int) =~= ctx.text@);
    assert(end == find_from(ctx.text@, '>', start as int));
    if end >= total {
        push_stray(ctx, start);
        return ;
    }
    let tag = resolve_in(&ctx.text, start + 1, end);
    match tag {
        Tag::Style(tag) => {
            ctx.cursor = end + 1;
            tag.resolve(ctx);
        },
        Tag::Gradient(tag) => {
            ctx.cursor = end + 1;
            tag.resolve(ctx);
        },
        Tag::Close => {
            if ctx.style_stack.len() > 1 {
                ctx.style_stack.pop();
                assert(style_views(ctx.style_stack@) =~= flushed.style_stack.drop_last());
            }
            ctx.cursor = end + 1;
        },
        Tag::Reset => {
            ctx.style_stack.clear();
            ctx.style_stack.push(Style::default());
            assert(style_views(ctx.style_stack@) =~= seq![StyleView::plain()]);
            ctx.cursor = end + 1;
        },
        Tag::Invalid => {
            push_stray(ctx, start);
        },
    }
}

impl Component {
    /// Reads the markup `text` for a client that speaks `protocol`.
    pub fn modern_text_as_protocol(text: &str, protocol: i32) -> (component: Component)
        ensures
            component@ == modern_component(text@, protocol),
    {
        let chars = str_chars(text);
        let mut stack: Vec<Style> = Vec::new();
        stack.push(Style::default());
        let mut ctx = ResolverContext {
            text: chars,
            cursor: 0,
            style_stack: stack,
            out: Vec::new(),
            protocol_version: protocol,
        };
        let total: usize = ctx.text.len();
        proof {
            assert(ctx@.style_stack =~= seq![StyleView::plain()]);
            assert(ctx@.out =~= Seq::empty());
        }
        let ghost first = ctx@;
        loop
            invariant
                ctx@.well_formed(),
                ctx@.text == text@,
                ctx@.protocol_version == protocol,
                total == ctx@.text.len(),
                modern_run(first) == modern_run(ctx@),
            ensures
                ctx@ == modern_run(first),
                ctx@.well_formed(),
                ctx@.text == text@,
                ctx@.protocol_version == protocol,
            decreases total - ctx.cursor,
        {
            let start = find_char(&ctx.text, '<', ctx.cursor, total);
            assert(ctx.text@.subrange(0, total as int) =~= ctx.text@);
            if start >= total {
                break ;
            }
            step(&mut ctx, start);
        }
        let style = current_style(&ctx.style_stack);
        push_segment(&mut ctx.out, &ctx.text, ctx.cursor, total, &style, protocol);
        let component = Component {
            style: Style::default(),
            content: Content::Text { text: String::new() },
            extra: ctx.out,
            protocol,
        };
        assert(component@.extra =~= modern_component(text@, protocol).extra);
        component
    }

    /// Reads the markup `text` for a client that speaks this server's
    /// protocol.
    pub fn modern_text(text: &str) -> (component: Component)
        ensures
            component@ == modern_component(text@, 774),
    {
        Component::modern_text_as_protocol(text, get_protocol_version())
    }

    /// Reads the legacy markup `text`: codes are a `&` or `§` and the
    /// character behind it, in either case.
    pub fn legacy_text(text: &str) -> (component: Component)
        ensures
            component@ == legacy_component(text@),
    {
        let chars = str_chars(text);
        let total: usize = chars.len();
        let mut out: Vec<Component> = Vec::new();
        let mut style = Style::default();
        let mut i: usize = 0;
        let mut start: usize = 0;
        let ghost whole = legacy_parts(text@, 0, 0, StyleView::plain());
        assert(component_views(out@) =~= Seq::empty());
        while i < total
            invariant
                start <= i <= total,
                total == chars@.len(),
                chars@ == text@,
                whole == component_views(out@) + legacy_parts(
                    chars@,
                    i as int,
                    start as int,
                    style@,
                ),
            decreases total - i,
        {
            let c = chars[i];
            if (c == '&' || c == '\u{a7}') && i + 1 < total {
                let code = to_ascii_lower(chars[i + 1]);
                if is_code(code) {
                    let ghost before = component_views(out@);
                    let ghost rest = legacy_parts(
                        chars@,
                        i + 2,
                        i + 2,
                        legacy_style(style@, code),
                    );
                    push_segment(&mut out, &chars, start, i, &style, DEFAULT_PROTOCOL);
                    assert(before + (segment(
                        chars@,
                        start as int,
                        i as int,
                        style@,
                        DEFAULT_PROTOCOL,
                    ) + rest) =~= component_views(out@) + rest);
                    style = legacy_code(style, code);
                    i += 2;
                    start = i;
                    continue ;
                }
            }
            i += 1;
        }
        push_segment(&mut out, &chars, start, total, &style, DEFAULT_PROTOCOL);
        let component = Component {
            style: Style::default(),
            content: Content::Text { text: String::new() },
            extra: out,
            protocol: DEFAULT_PROTOCOL,
        };
        assert(component@.extra =~= whole);
        component
    }
}

} // verus!
