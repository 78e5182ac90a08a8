//! The tags that name a colour or a decoration.

use crate::components::resolver::{style_views, top_style, Resolver, ResolverContext, ResolverContextView};
use crate::components::{Style, StyleView};
use vstd::prelude::*;

verus! {

/// A tag that lays `style` over the style in force.
#[derive(Debug)]
pub struct StyleTag {
    pub style: Style,
}

/// What a style tag does: the style in force with `style` laid over it
/// comes last on the stack; nothing else changes.
pub open spec fn style_resolved(style: StyleView, ctx: ResolverContextView) -> ResolverContextView {
    ResolverContextView { style_stack: ctx.style_stack.push(ctx.style().merged(style)), ..ctx }
}

impl Resolver for StyleTag {
    open spec fn resolved(&self, ctx: ResolverContextView) -> ResolverContextView {
        style_resolved(self.style@, ctx)
    }

    fn resolve(&self, ctx: &mut ResolverContext) -> (cursor: usize) {
        let n: usize = ctx.style_stack.len();
        let style = if n > 0 {
            assert(style_views(ctx.style_stack@).last() == ctx.style_stack@[n - 1]@);
            ctx.style_stack[n - 1].merge(&self.style)
        } else {
            Style::default().merge(&self.style)
        };
        ctx.style_stack.push(style);
        assert(style_views(ctx.style_stack@) =~= style_views(old(ctx).style_stack@).push(style@));
        ctx.cursor
    }
}

} // verus!
