//! A component as JSON.
//!
//! A component is an object. Its content comes first: `text`, or
//! `translate` with the arguments under `with` where there are any. The
//! fields of its style follow, each only where the style says something.
//! The components behind it come last, under `extra`, only where there are
//! any. A colour is written as `#rrggbb` for a protocol that knows such
//! colours and as the nearest name of the palette for an older one.

use crate::components::colors::{hex_text, legacy_name, Color};
use crate::components::{Component, ComponentView, Content, ContentView, StyleView, HEX_COLOR_PROTOCOL};
use crate::json::{json_text, Json, JsonView, Member, MemberView};
use vstd::prelude::*;

verus! {

/// The views of `members`, in order.
pub open spec fn member_views(members: Seq<Member>) -> Seq<MemberView> {
    Seq::new(members.len(), |i: int| members[i]@)
}

/// The member `key` with the text `value`.
pub open spec fn text_member(key: Seq<char>, value: Seq<char>) -> MemberView {
    MemberView { key, value: JsonView::Text(value) }
}

/// The member `key` with `flag`, where the style sets the flag.
pub open spec fn flag_members(key: Seq<char>, flag: Option<bool>) -> Seq<MemberView> {
    match flag {
        Some(b) => seq![MemberView { key, value: JsonView::Bool(b) }],
        None => Seq::empty(),
    }
}

/// How `color` is written for `protocol`.
pub open spec fn color_text(color: Color, protocol: i32) -> Seq<char> {
    if protocol >= HEX_COLOR_PROTOCOL {
        hex_text(color)
    } else {
        legacy_name(color)
    }
}

/// The members a style gives, for a component sent under `protocol`.
pub open spec fn style_members(style: StyleView, protocol: i32) -> Seq<MemberView> {
    (match style.color {
        Some(c) => seq![text_member("color"@, color_text(c, protocol))],
        None => Seq::empty(),
    }) + flag_members("bold"@, style.bold) + flag_members("italic"@, style.italic) + flag_members(
        "underlined"@,
        style.underlined,
    ) + flag_members("strikethrough"@, style.strikethrough) + flag_members(
        "obfuscated"@,
        style.obfuscated,
    ) + (match style.font {
        Some(f) => seq![text_member("font"@, f)],
        None => Seq::empty(),
    })
}

/// The JSON of each of `components`, in order.
pub open spec fn components_json(components: Seq<ComponentView>) -> Seq<JsonView>
    decreases components, 0nat,
{
    Seq::new(
        components.len(),
        |i: int|
            if 0 <= i < components.len() {
                component_json(components[i])
            } else {
                JsonView::Null
            },
    )
}

/// The members a content gives.
pub open spec fn content_members(content: ContentView) -> Seq<MemberView>
    decreases content, 0nat,
{
    match content {
        ContentView::Text { text } => seq![text_member("text"@, text)],
        ContentView::Translatable { key, with } => if with.len() == 0 {
            seq![text_member("translate"@, key)]
        } else {
            seq![
                text_member("translate"@, key),
                MemberView { key: "with"@, value: JsonView::Array(components_json(with)) },
            ]
        },
        ContentView::Selector { .. } => Seq::empty(),
    }
}

/// The members for the components behind a component.
pub open spec fn extra_members(extra: Seq<ComponentView>) -> Seq<MemberView>
    decreases extra, 1nat,
{
    if extra.len() == 0 {
        Seq::empty()
    } else {
        seq![MemberView { key: "extra"@, value: JsonView::Array(components_json(extra)) }]
    }
}

/// A component as a JSON value.
pub open spec fn component_json(c: ComponentView) -> JsonView
    decreases c, 0nat,
{
    JsonView::Object(
        content_members(c.content) + style_members(c.style, c.protocol) + extra_members(c.extra),
    )
}

pub(crate) fn push_member(members: &mut Vec<Member>, key: &str, value: Json)
    ensures
        member_views(final(members)@) == member_views(old(members)@).push(
            MemberView { key: key@, value: value@ },
        ),
{
    members.push(Member { key: key.to_owned(), value });
    assert(member_views(members@) =~= member_views(old(members)@).push(
        MemberView { key: key@, value: value@ },
    ));
}

fn push_flag(members: &mut Vec<Member>, key: &str, flag: Option<bool>)
    ensures
        member_views(final(members)@) == member_views(old(members)@) + flag_members(key@, flag),
{
    match flag {
        Some(b) => {
            push_member(members, key, Json::Bool(b));
            assert(member_views(members@) =~= member_views(old(members)@) + flag_members(
                key@,
                flag,
            ));
        },
        None => {
            assert(member_views(members@) =~= member_views(old(members)@) + flag_members(
                key@,
                flag,
            ));
        },
    }
}

fn list_json(components: &Vec<Component>) -> (list: Json)
    ensures
        list@ == JsonView::Array(components_json(crate::components::component_views(components@))),
    decreases components, 0nat,
{
    let mut items: Vec<Json> = Vec::new();
    let mut i: usize = 0;
    while i < components.len()
        invariant
            i <= components@.len(),
            items@.len() == i,
            forall|k: int| 0 <= k < i ==> (#[trigger] items@[k])@ == component_json(components@[k]@),
        decreases components@.len() - i,
    {
        proof {
            broadcast use vstd::std_specs::vec::axiom_vec_index_decreases;

        }
        items.push(components[i].to_json_value());
        i += 1;
    }
    let list = Json::Array(items);
    assert(list@->Array_0 =~= components_json(crate::components::component_views(components@)));
    list
}

fn push_content(members: &mut Vec<Member>, content: &Content, Ghost(whole): Ghost<Component>)
    requires
        whole.content == *content,
    ensures
        member_views(final(members)@) == member_views(old(members)@) + content_members(whole@.content),
    decreases whole, 0nat,
{
    match content {
        Content::Text { text } => {
            push_member(members, "text", Json::Text(text.clone()));
        },
        Content::Translatable { key, with } => {
            push_member(members, "translate", Json::Text(key.clone()));
            if with.len() > 0 {
                let arguments = list_json(with);
                assert(crate::components::component_views(with@) =~= whole@.content->with);
                push_member(members, "with", arguments);
            } else {
                assert(whole@.content->with.len() == 0);
            }
        },
        Content::Selector { .. } => {},
    }
    assert(member_views(members@) =~= member_views(old(members)@) + content_members(
        whole@.content,
    ));
}

fn push_color(members: &mut Vec<Member>, color: Option<Color>, protocol: i32)
    ensures
        member_views(final(members)@) == member_views(old(members)@) + (match color {
            Some(c) => seq![text_member("color"@, color_text(c, protocol))],
            None => Seq::empty(),
        }),
{
    match color {
        Some(c) => {
            let text = if protocol >= HEX_COLOR_PROTOCOL {
                c.to_hex_string()
            } else {
                c.to_legacy_name().to_owned()
            };
            push_member(members, "color", Json::Text(text));
            assert(member_views(members@) =~= member_views(old(members)@) + seq![
                text_member("color"@, color_text(c, protocol)),
            ]);
        },
        None => {
            assert(member_views(members@) =~= member_views(old(members)@) + Seq::empty());
        },
    }
}

fn push_font(members: &mut Vec<Member>, font: &Option<String>)
    ensures
        member_views(final(members)@) == member_views(old(members)@) + (match *font {
            Some(f) => seq![text_member("font"@, f@)],
            None => Seq::empty(),
        }),
{
    match font {
        Some(f) => {
            push_member(members, "font", Json::Text(f.clone()));
            assert(member_views(members@) =~= member_views(old(members)@) + seq![
                text_member("font"@, f@),
            ]);
        },
        None => {
            assert(member_views(members@) =~= member_views(old(members)@) + Seq::empty());
        },
    }
}

fn push_style(members: &mut Vec<Member>, style: &crate::components::Style, protocol: i32)
    ensures
        member_views(final(members)@) == member_views(old(members)@) + style_members(
            style@,
            protocol,
        ),
{
    push_color(members, style.color, protocol);
    push_flag(members, "bold", style.bold);
    push_flag(members, "italic", style.italic);
    push_flag(members, "underlined", style.underlined);
    push_flag(members, "strikethrough", style.strikethrough);
    push_flag(members, "obfuscated", style.obfuscated);
    push_font(members, &style.font);
    proof {
        lemma_regroup(
            member_views(old(members)@),
            match style@.color {
                Some(c) => seq![text_member("color"@, color_text(c, protocol))],
                None => Seq::empty(),
            },
            flag_members("bold"@, style@.bold),
            flag_members("italic"@, style@.italic),
            flag_members("underlined"@, style@.underlined),
            flag_members("strikethrough"@, style@.strikethrough),
            flag_members("obfuscated"@, style@.obfuscated),
            match style@.font {
                Some(f) => seq![text_member("font"@, f)],
                None => Seq::empty(),
            },
        );
    }
}

/// Seven sequences put behind a first one, one after the other, are the
/// seven joined and put behind the first.
proof fn lemma_regroup<A>(
    m: Seq<A>,
    a: Seq<A>,
    b: Seq<A>,
    c: Seq<A>,
    d: Seq<A>,
    e: Seq<A>,
    f: Seq<A>,
    g: Seq<A>,
)
    ensures
        m + a + b + c + d + e + f + g == m + (a + b + c + d + e + f + g),
{
    assert(m + a + b + c + d + e + f + g =~= m + (a + b + c + d + e + f + g));
}

impl Component {
    /// This component as a JSON value.
    pub fn to_json_value(&self) -> (j: Json)
        ensures
            j@ == component_json(self@),
        decreases self, 1nat,
    {
        let mut members: Vec<Member> = Vec::new();
        assert(member_views(members@) =~= Seq::empty());
        push_content(&mut members, &self.content, Ghost(*self));
        push_style(&mut members, &self.style, self.protocol);
        if self.extra.len() > 0 {
            let followers = list_json(&self.extra);
            assert(crate::components::component_views(self.extra@) =~= self@.extra);
            push_member(&mut members, "extra", followers);
        }
        assert(member_views(members@) =~= content_members(self@.content) + style_members(
            self@.style,
            self@.protocol,
        ) + extra_members(self@.extra));
        let j = Json::Object(members);
        assert(j@->Object_0 =~= member_views(members@));
        j
    }

    /// This component as JSON text.
    pub fn to_json(&self) -> (text: String)
        ensures
            text@ == json_text(component_json(self@)),
    {
        self.to_json_value().render()
    }
}

} // verus!
