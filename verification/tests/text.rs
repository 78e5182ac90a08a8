use iridium::components::colors::Color;
use iridium::components::resolver::gradient::create_gradient;
use iridium::components::resolver::{Tag, TagResolver};
use iridium::components::{Component, Content, Style};

fn text_of(component: &Component) -> String {
    match &component.content {
        Content::Text { text } => text.clone(),
        _ => panic!("not a text component"),
    }
}

fn plain() -> Style {
    Style::default()
}

fn red() -> Color {
    Color { r: 0xff, g: 0x55, b: 0x55 }
}

fn green() -> Color {
    Color { r: 0x55, g: 0xff, b: 0x55 }
}

#[test]
fn legacy_green_hello() {
    let component = Component::legacy_text("&ahello");
    assert_eq!(text_of(&component), "");
    assert_eq!(component.extra.len(), 1);
    assert_eq!(component.extra[0].style.color, Some(green()));
    assert_eq!(text_of(&component.extra[0]), "hello");
    assert_eq!(component.extra[0].style.bold, None);
}

#[test]
fn legacy_section_sign_and_upper_case_code() {
    let component = Component::legacy_text("§Chello");
    assert_eq!(component.extra.len(), 1);
    assert_eq!(component.extra[0].style.color, Some(red()));
    assert_eq!(text_of(&component.extra[0]), "hello");
}

#[test]
fn legacy_without_codes_is_one_plain_part() {
    let component = Component::legacy_text("plain text");
    assert_eq!(component.extra.len(), 1);
    assert_eq!(component.extra[0].style, plain());
    assert_eq!(text_of(&component.extra[0]), "plain text");
}

#[test]
fn legacy_empty_text_has_no_parts() {
    assert!(Component::legacy_text("").extra.is_empty());
    assert!(Component::legacy_text("&a").extra.is_empty());
}

#[test]
fn legacy_color_resets_decorations() {
    let component = Component::legacy_text("&lbold&cred");
    assert_eq!(component.extra.len(), 2);
    assert_eq!(component.extra[0].style.bold, Some(true));
    assert_eq!(component.extra[0].style.color, None);
    assert_eq!(text_of(&component.extra[0]), "bold");
    assert_eq!(component.extra[1].style.bold, None);
    assert_eq!(component.extra[1].style.color, Some(red()));
    assert_eq!(text_of(&component.extra[1]), "red");
}

#[test]
fn legacy_decorations_stack_on_color() {
    let component = Component::legacy_text("&c&l&m&n&o&kx");
    assert_eq!(component.extra.len(), 1);
    let style = &component.extra[0].style;
    assert_eq!(style.color, Some(red()));
    assert_eq!(style.bold, Some(true));
    assert_eq!(style.italic, Some(true));
    assert_eq!(style.underlined, Some(true));
    assert_eq!(style.strikethrough, Some(true));
    assert_eq!(style.obfuscated, Some(true));
}

#[test]
fn legacy_reset_goes_back_to_plain() {
    let component = Component::legacy_text("&c&la&rb");
    assert_eq!(component.extra.len(), 2);
    assert_eq!(component.extra[1].style, plain());
    assert_eq!(text_of(&component.extra[1]), "b");
}

#[test]
fn legacy_unknown_code_is_text() {
    let component = Component::legacy_text("a&zb & c&");
    assert_eq!(component.extra.len(), 1);
    assert_eq!(text_of(&component.extra[0]), "a&zb & c&");
}

#[test]
fn legacy_parts_use_default_protocol() {
    let component = Component::legacy_text("&ahello");
    assert_eq!(component.protocol, 754);
    assert_eq!(component.extra[0].protocol, 754);
}

#[test]
fn modern_red_bold_nesting() {
    let component = Component::modern_text("<red>a<bold>b</bold>c");
    assert_eq!(component.extra.len(), 3);
    for part in &component.extra {
        assert_eq!(part.style.color, Some(red()));
    }
    assert_eq!(text_of(&component.extra[0]), "a");
    assert_eq!(text_of(&component.extra[1]), "b");
    assert_eq!(text_of(&component.extra[2]), "c");
    assert_eq!(component.extra[0].style.bold, None);
    assert_eq!(component.extra[1].style.bold, Some(true));
    assert_eq!(component.extra[2].style.bold, None);
}

#[test]
fn modern_text_uses_server_protocol() {
    let component = Component::modern_text("<red>a");
    assert_eq!(component.protocol, 774);
    assert_eq!(component.extra[0].protocol, 774);
}

#[test]
fn modern_plain_text_is_one_part() {
    let component = Component::modern_text_as_protocol("just text", 47);
    assert_eq!(component.protocol, 47);
    assert_eq!(component.extra.len(), 1);
    assert_eq!(text_of(&component.extra[0]), "just text");
    assert_eq!(component.extra[0].style, plain());
    assert_eq!(component.extra[0].protocol, 47);
}

#[test]
fn modern_empty_text_has_no_parts() {
    assert!(Component::modern_text("").extra.is_empty());
    assert!(Component::modern_text("<red>").extra.is_empty());
}

#[test]
fn modern_hex_colors() {
    let component = Component::modern_text("<#ff0000>a<#0f0>b");
    assert_eq!(component.extra.len(), 2);
    assert_eq!(component.extra[0].style.color, Some(Color { r: 255, g: 0, b: 0 }));
    assert_eq!(component.extra[1].style.color, Some(Color { r: 0, g: 255, b: 0 }));
}

#[test]
fn modern_decoration_aliases() {
    for (tag, pick) in [
        ("bold", 0),
        ("b", 0),
        ("italic", 1),
        ("i", 1),
        ("underlined", 2),
        ("underline", 2),
        ("u", 2),
        ("strikethrough", 3),
        ("st", 3),
        ("strike", 3),
        ("s", 3),
        ("obfuscated", 4),
        ("obf", 4),
    ] {
        let component = Component::modern_text(&format!("<{}>x", tag));
        assert_eq!(component.extra.len(), 1, "tag {}", tag);
        let style = &component.extra[0].style;
        let flags = [style.bold, style.italic, style.underlined, style.strikethrough, style.obfuscated];
        for (i, flag) in flags.iter().enumerate() {
            if i == pick {
                assert_eq!(*flag, Some(true), "tag {}", tag);
            } else {
                assert_eq!(*flag, None, "tag {}", tag);
            }
        }
    }
}

#[test]
fn modern_close_never_pops_base_style() {
    let component = Component::modern_text("</x></y>a<red>b</red></red>c");
    assert_eq!(component.extra.len(), 3);
    assert_eq!(component.extra[0].style, plain());
    assert_eq!(component.extra[1].style.color, Some(red()));
    assert_eq!(component.extra[2].style, plain());
}

#[test]
fn modern_reset_clears_the_stack() {
    let component = Component::modern_text("<red><bold>a<reset>b<green>c<r>d");
    assert_eq!(component.extra.len(), 4);
    assert_eq!(component.extra[0].style.bold, Some(true));
    assert_eq!(component.extra[1].style, plain());
    assert_eq!(component.extra[2].style.color, Some(green()));
    assert_eq!(component.extra[3].style, plain());
}

#[test]
fn modern_later_color_overrides_and_inherits() {
    let component = Component::modern_text("<red><bold>a<green>b");
    assert_eq!(component.extra[1].style.color, Some(green()));
    assert_eq!(component.extra[1].style.bold, Some(true));
}

#[test]
fn modern_unrecognized_tag_emits_bracket() {
    let component = Component::modern_text("a<nope>b");
    let texts: Vec<String> = component.extra.iter().map(text_of).collect();
    assert_eq!(texts, vec!["a", "<", "nope>b"]);
}

#[test]
fn modern_unclosed_bracket_emits_bracket() {
    let component = Component::modern_text("a < b");
    let texts: Vec<String> = component.extra.iter().map(text_of).collect();
    assert_eq!(texts, vec!["a ", "<", " b"]);
}

#[test]
fn modern_tag_is_not_greedy_past_unmatched_delimiter() {
    let component = Component::modern_text("x<y<red>z");
    let texts: Vec<String> = component.extra.iter().map(text_of).collect();
    assert_eq!(texts, vec!["x", "<", "y", "z"]);
    assert_eq!(component.extra[3].style.color, Some(red()));
}

#[test]
fn modern_gradient_two_letters() {
    let component = Component::modern_text_as_protocol("<gradient:#ff0000:#0000ff>ab</gradient>", 735);
    assert_eq!(component.extra.len(), 2);
    assert_eq!(text_of(&component.extra[0]), "a");
    assert_eq!(text_of(&component.extra[1]), "b");
    assert_eq!(component.extra[0].style.color, Some(Color { r: 255, g: 0, b: 0 }));
    assert_eq!(component.extra[1].style.color, Some(Color { r: 0, g: 0, b: 255 }));
}

#[test]
fn modern_gradient_before_hex_colors_is_one_part() {
    let component = Component::modern_text_as_protocol("<gradient:#ff0000:#0000ff>ab</gradient>", 734);
    assert_eq!(component.extra.len(), 1);
    assert_eq!(text_of(&component.extra[0]), "ab");
    assert_eq!(component.extra[0].style.color, Some(Color { r: 255, g: 0, b: 0 }));
}

#[test]
fn modern_gradient_keeps_ambient_style_and_goes_on_behind() {
    let component = Component::modern_text_as_protocol("<bold><gradient:red:blue>abc</gradient>d", 774);
    assert_eq!(component.extra.len(), 4);
    for part in &component.extra {
        assert_eq!(part.style.bold, Some(true));
    }
    assert_eq!(component.extra[0].style.color, Some(red()));
    assert_eq!(component.extra[1].style.color, Some(Color { r: 0xaa, g: 0x55, b: 0xaa }));
    assert_eq!(component.extra[2].style.color, Some(Color { r: 0x55, g: 0x55, b: 0xff }));
    assert_eq!(component.extra[3].style.color, None);
    assert_eq!(text_of(&component.extra[3]), "d");
}

#[test]
fn modern_gradient_without_close_is_ignored() {
    let component = Component::modern_text("<gradient:red:blue>abc");
    assert_eq!(component.extra.len(), 1);
    assert_eq!(text_of(&component.extra[0]), "abc");
    assert_eq!(component.extra[0].style, plain());
}

#[test]
fn modern_gradient_with_bad_color_is_no_tag() {
    let component = Component::modern_text("<gradient:nope:blue>a");
    let texts: Vec<String> = component.extra.iter().map(text_of).collect();
    assert_eq!(texts, vec!["<", "gradient:nope:blue>a"]);
}

#[test]
fn modern_gradient_splits_by_scalar() {
    let component = Component::modern_text_as_protocol("<gradient:#000000:#ffffff>aé😀</gradient>", 774);
    let texts: Vec<String> = component.extra.iter().map(text_of).collect();
    assert_eq!(texts, vec!["a", "é", "😀"]);
    assert_eq!(component.extra[1].style.color, Some(Color { r: 127, g: 127, b: 127 }));
}

#[test]
fn gradient_interpolates_linearly() {
    let parts = create_gradient(
        "abcde",
        Color { r: 0, g: 100, b: 255 },
        Color { r: 200, g: 0, b: 255 },
        Style::default(),
        774,
    );
    let colors: Vec<Color> = parts.iter().map(|p| p.style.color.unwrap()).collect();
    assert_eq!(
        colors,
        vec![
            Color { r: 0, g: 100, b: 255 },
            Color { r: 50, g: 75, b: 255 },
            Color { r: 100, g: 50, b: 255 },
            Color { r: 150, g: 25, b: 255 },
            Color { r: 200, g: 0, b: 255 },
        ]
    );
}

#[test]
fn gradient_rounds_down() {
    let parts = create_gradient(
        "abc",
        Color { r: 255, g: 0, b: 0 },
        Color { r: 0, g: 255, b: 1 },
        Style::default(),
        774,
    );
    assert_eq!(parts[1].style.color, Some(Color { r: 127, g: 127, b: 0 }));
}

#[test]
fn gradient_edge_cases() {
    let start = Color { r: 1, g: 2, b: 3 };
    let end = Color { r: 4, g: 5, b: 6 };
    assert!(create_gradient("", start, end, Style::default(), 774).is_empty());
    let one = create_gradient("x", start, end, Style::default(), 774);
    assert_eq!(one.len(), 1);
    assert_eq!(one[0].style.color, Some(start));
    let old = create_gradient("xyz", start, end, Style::default(), 47);
    assert_eq!(old.len(), 1);
    assert_eq!(text_of(&old[0]), "xyz");
    assert_eq!(old[0].protocol, 47);
}

#[test]
fn tag_resolver_kinds() {
    assert!(matches!(TagResolver::resolve("/bold"), Tag::Close));
    assert!(matches!(TagResolver::resolve("/"), Tag::Close));
    assert!(matches!(TagResolver::resolve("reset"), Tag::Reset));
    assert!(matches!(TagResolver::resolve("r"), Tag::Reset));
    assert!(matches!(TagResolver::resolve("nope"), Tag::Invalid));
    assert!(matches!(TagResolver::resolve(""), Tag::Invalid));
    assert!(matches!(TagResolver::resolve("gradient"), Tag::Invalid));
    assert!(matches!(TagResolver::resolve("gradient:red"), Tag::Invalid));
    match TagResolver::resolve("gradient:red:#00f") {
        Tag::Gradient(tag) => {
            assert_eq!(tag.start, red());
            assert_eq!(tag.end, Color { r: 0, g: 0, b: 255 });
        }
        _ => panic!("no gradient"),
    }
    match TagResolver::resolve(" bold ") {
        Tag::Style(tag) => assert_eq!(tag.style.bold, Some(true)),
        _ => panic!("no style"),
    }
    match TagResolver::resolve("dark_purple") {
        Tag::Style(tag) => assert_eq!(tag.style.color, Some(Color { r: 170, g: 0, b: 170 })),
        _ => panic!("no style"),
    }
}

#[test]
fn parse_style_names() {
    assert_eq!(TagResolver::parse_style("bold").unwrap().bold, Some(true));
    assert_eq!(TagResolver::parse_style("#123456").unwrap().color, Some(Color { r: 0x12, g: 0x34, b: 0x56 }));
    assert_eq!(TagResolver::parse_style("red").unwrap().color, Some(red()));
    assert!(TagResolver::parse_style("nothing").is_none());
}

#[test]
fn style_merge_overrides_present_fields() {
    let base = Style { color: Some(red()), bold: Some(true), font: Some("a".to_string()), ..Style::default() };
    let over = Style { color: Some(green()), italic: Some(false), ..Style::default() };
    let merged = base.merge(&over);
    assert_eq!(merged.color, Some(green()));
    assert_eq!(merged.bold, Some(true));
    assert_eq!(merged.italic, Some(false));
    assert_eq!(merged.font, Some("a".to_string()));
    assert_eq!(merged.underlined, None);
    assert_eq!(base.merge(&Style::default()), base);
}

#[test]
fn style_clone_is_equal() {
    let style = Style { color: Some(red()), font: Some("f".to_string()), obfuscated: Some(true), ..Style::default() };
    assert_eq!(style.clone(), style);
}

#[test]
fn component_builders() {
    let component = Component::text("hi")
        .color(green())
        .bold(true)
        .italic(false)
        .underlined(true)
        .strikethrough(false)
        .obfuscated(true)
        .font("minecraft:default".to_string());
    assert_eq!(text_of(&component), "hi");
    assert_eq!(component.protocol, 754);
    assert!(component.extra.is_empty());
    assert_eq!(
        component.style,
        Style {
            color: Some(green()),
            bold: Some(true),
            italic: Some(false),
            underlined: Some(true),
            strikethrough: Some(false),
            obfuscated: Some(true),
            font: Some("minecraft:default".to_string()),
        }
    );
}

#[test]
fn component_new_keeps_content() {
    let component = Component::new(Content::Translatable { key: "k".to_string(), with: vec![] });
    assert_eq!(component.content, Content::Translatable { key: "k".to_string(), with: vec![] });
    assert_eq!(component.style, plain());
    assert_eq!(component.protocol, 754);
}

#[test]
fn protocol_propagates_to_descendants() {
    let leaf = Component::text("leaf");
    let middle = Component::text("middle").append(leaf);
    let root = Component::text("root").append(middle).protocol(47);
    assert_eq!(root.protocol, 47);
    assert_eq!(root.extra[0].protocol, 47);
    assert_eq!(root.extra[0].extra[0].protocol, 47);
}

#[test]
fn append_gives_child_the_parent_protocol() {
    let child = Component::text("child").append(Component::text("grandchild")).protocol(5);
    let root = Component::text("root").protocol(760).append(child);
    assert_eq!(root.extra.len(), 1);
    assert_eq!(root.extra[0].protocol, 760);
    assert_eq!(root.extra[0].extra[0].protocol, 760);
    assert_eq!(text_of(&root.extra[0]), "child");
}

#[test]
fn plus_appends() {
    let root = Component::text("a").protocol(47) + Component::text("b");
    assert_eq!(root.extra.len(), 1);
    assert_eq!(text_of(&root.extra[0]), "b");
    assert_eq!(root.extra[0].protocol, 47);
}
