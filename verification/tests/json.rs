use iridium::components::colors::Color;
use iridium::components::{Component, Content};
use iridium::json::{Json, Member};
use serde_json::Value;

fn parsed(text: &str) -> Value {
    serde_json::from_str(text).unwrap()
}

fn member(key: &str, value: Json) -> Member {
    Member { key: key.to_string(), value }
}

#[test]
fn json_scalars() {
    assert_eq!(Json::Null.render(), "null");
    assert_eq!(Json::Bool(true).render(), "true");
    assert_eq!(Json::Bool(false).render(), "false");
    assert_eq!(Json::Number(0).render(), "0");
    assert_eq!(Json::Number(7).render(), "7");
    assert_eq!(Json::Number(774).render(), "774");
    assert_eq!(Json::Number(-12).render(), "-12");
    assert_eq!(Json::Number(i64::MAX).render(), "9223372036854775807");
    assert_eq!(Json::Number(i64::MIN).render(), "-9223372036854775808");
    assert_eq!(Json::text("hi").render(), "\"hi\"");
}

#[test]
fn json_strings_are_quoted_by_the_json_crate() {
    for text in ["", "plain", "with \"quotes\"", "back\\slash", "line\nbreak\ttab", "§c é 😀", "\u{1}"] {
        let rendered = Json::text(text).render();
        assert_ne!(rendered, text);
        assert_eq!(rendered, serde_json::to_string(text).unwrap());
        assert_eq!(parsed(&rendered), Value::String(text.to_string()));
    }
}

#[test]
fn json_arrays_and_objects_are_compact() {
    assert_eq!(Json::Array(vec![]).render(), "[]");
    assert_eq!(Json::Object(vec![]).render(), "{}");
    assert_eq!(Json::Array(vec![Json::Number(1)]).render(), "[1]");
    assert_eq!(Json::Array(vec![Json::Number(1), Json::Null, Json::Bool(true)]).render(), "[1,null,true]");
    assert_eq!(Json::Object(vec![member("a", Json::Number(1))]).render(), "{\"a\":1}");
    assert_eq!(
        Json::Object(vec![member("b", Json::Array(vec![Json::text("x"), Json::Object(vec![])])), member("a", Json::Null)])
            .render(),
        "{\"b\":[\"x\",{}],\"a\":null}"
    );
}

#[test]
fn json_output_parses_back() {
    let value = Json::Object(vec![
        member("key with \"quote\"", Json::Array(vec![Json::Number(-5), Json::text("a\nb")])),
        member("nested", Json::Object(vec![member("deep", Json::Array(vec![Json::Array(vec![])]))])),
    ]);
    let text = value.render();
    let back = parsed(&text);
    assert_eq!(back["key with \"quote\""][0], Value::from(-5));
    assert_eq!(back["key with \"quote\""][1], Value::from("a\nb"));
    assert_eq!(back["nested"]["deep"][0], Value::Array(vec![]));
    let mut appended = "x".to_string();
    value.write_to(&mut appended);
    assert_eq!(appended, format!("x{}", text));
}

#[test]
fn component_text_only() {
    assert_eq!(Component::text("hello").to_json(), "{\"text\":\"hello\"}");
}

#[test]
fn component_style_fields_only_when_present() {
    let component = Component::text("x").bold(true).italic(false);
    assert_eq!(component.to_json(), "{\"text\":\"x\",\"bold\":true,\"italic\":false}");
    let all = Component::text("x")
        .protocol(774)
        .color(Color { r: 1, g: 2, b: 3 })
        .bold(true)
        .italic(true)
        .underlined(false)
        .strikethrough(true)
        .obfuscated(false)
        .font("f".to_string());
    assert_eq!(
        all.to_json(),
        "{\"text\":\"x\",\"color\":\"#010203\",\"bold\":true,\"italic\":true,\"underlined\":false,\"strikethrough\":true,\"obfuscated\":false,\"font\":\"f\"}"
    );
}

#[test]
fn component_color_is_hex_from_protocol_735() {
    let purple = Color { r: 0x69, g: 0x2a, b: 0xa8 };
    let modern = Component::text("x").protocol(735).color(purple);
    assert_eq!(parsed(&modern.to_json())["color"], "#692aa8");
    let newer = Component::text("x").protocol(774).color(purple);
    assert_eq!(parsed(&newer.to_json())["color"], "#692aa8");
}

#[test]
fn component_color_is_palette_name_before_protocol_735() {
    let purple = Color { r: 0x69, g: 0x2a, b: 0xa8 };
    let legacy = Component::text("x").protocol(734).color(purple);
    assert_eq!(parsed(&legacy.to_json())["color"], "dark_purple");
    let old = Component::text("x").protocol(47).color(purple);
    assert_eq!(old.to_json(), "{\"text\":\"x\",\"color\":\"dark_purple\"}");
}

#[test]
fn component_extra_only_when_non_empty() {
    let alone = parsed(&Component::text("a").to_json());
    assert!(alone.get("extra").is_none());
    let with_child = parsed(&Component::text("a").append(Component::text("b").bold(true)).to_json());
    assert_eq!(with_child["extra"].as_array().unwrap().len(), 1);
    assert_eq!(with_child["extra"][0]["text"], "b");
    assert_eq!(with_child["extra"][0]["bold"], true);
}

#[test]
fn component_children_use_their_own_protocol() {
    let child = Component::text("c").color(Color { r: 255, g: 0, b: 0 });
    let mut root = Component::text("r").protocol(774);
    let mut old_child = child;
    old_child.protocol = 47;
    root.extra.push(old_child);
    let json = parsed(&root.to_json());
    assert_eq!(json["extra"][0]["color"], "dark_red");
}

#[test]
fn component_translatable() {
    let bare = Component::new(Content::Translatable { key: "chat.type.text".to_string(), with: vec![] });
    assert_eq!(bare.to_json(), "{\"translate\":\"chat.type.text\"}");
    let filled = Component::new(Content::Translatable {
        key: "k".to_string(),
        with: vec![Component::text("a"), Component::text("b").bold(true)],
    });
    assert_eq!(
        filled.to_json(),
        "{\"translate\":\"k\",\"with\":[{\"text\":\"a\"},{\"text\":\"b\",\"bold\":true}]}"
    );
}

#[test]
fn component_selector_has_no_content_field() {
    let selector = Component::new(Content::Selector { key: "@a".to_string(), separator: None }).bold(true);
    assert_eq!(selector.to_json(), "{\"bold\":true}");
}

#[test]
fn component_json_value_matches_text() {
    let component = Component::modern_text("<red>a<bold>b");
    assert_eq!(component.to_json_value().render(), component.to_json());
}

#[test]
fn gradient_rendering_at_protocol_760() {
    let motd = Component::modern_text_as_protocol("<gradient:#ff0000:#0000ff>AB</gradient>", 760);
    let json = parsed(&motd.to_json());
    let extra = json["extra"].as_array().unwrap();
    assert_eq!(extra.len(), 2);
    assert_eq!(extra[0], parsed("{\"text\":\"A\",\"color\":\"#ff0000\"}"));
    assert_eq!(extra[1], parsed("{\"text\":\"B\",\"color\":\"#0000ff\"}"));
}

#[test]
fn legacy_text_with_color_at_old_protocol() {
    let reason = Component::legacy_text("&cInvalid version").protocol(47);
    let json = parsed(&reason.to_json());
    assert_eq!(json["text"], "");
    assert_eq!(json["extra"][0]["text"], "Invalid version");
    assert_eq!(json["extra"][0]["color"], "red");
}
