use iridium::components::colors::{palette_color, palette_label, Color};

const NAMES: [&str; 16] = [
    "black", "dark_blue", "dark_green", "dark_aqua", "dark_red", "dark_purple", "gold", "gray",
    "dark_gray", "blue", "green", "aqua", "red", "light_purple", "yellow", "white",
];

#[test]
fn palette_has_the_sixteen_legacy_colors() {
    let expected = [
        (0x00, 0x00, 0x00),
        (0x00, 0x00, 0xaa),
        (0x00, 0xaa, 0x00),
        (0x00, 0xaa, 0xaa),
        (0xaa, 0x00, 0x00),
        (0xaa, 0x00, 0xaa),
        (0xff, 0xaa, 0x00),
        (0xaa, 0xaa, 0xaa),
        (0x55, 0x55, 0x55),
        (0x55, 0x55, 0xff),
        (0x55, 0xff, 0x55),
        (0x55, 0xff, 0xff),
        (0xff, 0x55, 0x55),
        (0xff, 0x55, 0xff),
        (0xff, 0xff, 0x55),
        (0xff, 0xff, 0xff),
    ];
    for i in 0..16 {
        let (r, g, b) = expected[i];
        assert_eq!(palette_color(i), Color { r, g, b });
        assert_eq!(palette_label(i), NAMES[i]);
    }
}

#[test]
fn nearest_palette_name_of_purple() {
    assert_eq!(Color { r: 0x69, g: 0x2a, b: 0xa8 }.to_legacy_name(), "dark_purple");
}

#[test]
fn palette_colors_name_themselves() {
    for i in 0..16 {
        assert_eq!(palette_color(i).to_legacy_name(), NAMES[i]);
    }
}

#[test]
fn nearest_palette_name_takes_first_of_equally_near() {
    // Halfway between black and dark_blue; black comes first.
    assert_eq!(Color { r: 0, g: 0, b: 0x55 }.to_legacy_name(), "black");
    // Halfway between dark_green and dark_aqua.
    assert_eq!(Color { r: 0, g: 0xaa, b: 0x55 }.to_legacy_name(), "dark_green");
}

#[test]
fn nearest_palette_name_agrees_with_search() {
    for r in (0..=255u16).step_by(17) {
        for g in (0..=255u16).step_by(51) {
            for b in (0..=255u16).step_by(15) {
                let color = Color { r: r as u8, g: g as u8, b: b as u8 };
                let mut best = 0;
                let mut best_distance = i32::MAX;
                for i in 0..16 {
                    let p = palette_color(i);
                    let d = (r as i32 - p.r as i32).pow(2)
                        + (g as i32 - p.g as i32).pow(2)
                        + (b as i32 - p.b as i32).pow(2);
                    if d < best_distance {
                        best = i;
                        best_distance = d;
                    }
                }
                assert_eq!(color.to_legacy_name(), NAMES[best]);
            }
        }
    }
}

#[test]
fn hex_string_is_lower_case_with_hash() {
    assert_eq!(Color { r: 0x69, g: 0x2a, b: 0xa8 }.to_hex_string(), "#692aa8");
    assert_eq!(Color { r: 0, g: 0, b: 0 }.to_hex_string(), "#000000");
    assert_eq!(Color { r: 255, g: 255, b: 255 }.to_hex_string(), "#ffffff");
    assert_eq!(Color { r: 0x0a, g: 0xb0, b: 0x01 }.to_hex_string(), "#0ab001");
}

#[test]
fn color_new_sets_channels() {
    assert_eq!(Color::new(1, 2, 3), Color { r: 1, g: 2, b: 3 });
}

#[test]
fn color_from_six_digits() {
    assert_eq!(Color::from("#692aa8"), Ok(Color { r: 0x69, g: 0x2a, b: 0xa8 }));
    assert_eq!(Color::from("692AA8"), Ok(Color { r: 0x69, g: 0x2a, b: 0xa8 }));
    assert_eq!(Color::from("##ff0000"), Ok(Color { r: 255, g: 0, b: 0 }));
}

#[test]
fn color_from_three_digits_doubles_them() {
    assert_eq!(Color::from("#f0a"), Ok(Color { r: 0xff, g: 0x00, b: 0xaa }));
    assert_eq!(Color::from("123"), Ok(Color { r: 0x11, g: 0x22, b: 0x33 }));
}

#[test]
fn color_from_name() {
    assert_eq!(Color::from("red"), Ok(Color { r: 0xff, g: 0x55, b: 0x55 }));
    assert_eq!(Color::from("yellow"), Ok(Color { r: 0xff, g: 0xff, b: 0x55 }));
    assert_eq!(Color::from("#gold"), Ok(Color { r: 0xff, g: 0xaa, b: 0x00 }));
    for i in 0..16 {
        assert_eq!(Color::from(NAMES[i]), Ok(palette_color(i)));
        assert_eq!(Color::from_name(NAMES[i]), Some(palette_color(i)));
    }
    assert_eq!(Color::from_name("Red"), None);
    assert_eq!(Color::from_name(""), None);
    assert_eq!(Color::from_name("#red"), None);
}

#[test]
fn color_from_errors() {
    assert_eq!(Color::from("#gg0000"), Err("invalid red".to_string()));
    assert_eq!(Color::from("#00gg00"), Err("invalid green".to_string()));
    assert_eq!(Color::from("#0000gg"), Err("invalid blue".to_string()));
    assert_eq!(Color::from("#x00"), Err("invalid red".to_string()));
    assert_eq!(Color::from("#0x0"), Err("invalid green".to_string()));
    assert_eq!(Color::from("#00x"), Err("invalid blue".to_string()));
    assert_eq!(
        Color::from("#12345"),
        Err("invalid hex color, expected 3 or 6 characters (12345)".to_string())
    );
    assert_eq!(
        Color::from(""),
        Err("invalid hex color, expected 3 or 6 characters ()".to_string())
    );
    assert_eq!(Color::from("+1+2+3"), Err("invalid red".to_string()));
}

#[test]
fn color_from_hex_string_round_trip() {
    for color in [Color { r: 0, g: 0, b: 0 }, Color { r: 1, g: 0x7f, b: 0xfe }, Color { r: 255, g: 255, b: 255 }] {
        assert_eq!(Color::from(&color.to_hex_string()), Ok(color));
    }
}

#[test]
fn color_from_legacy_char() {
    let codes = "0123456789abcdef";
    for (i, c) in codes.chars().enumerate() {
        assert_eq!(Color::from_legacy_char(c), Some(palette_color(i)));
    }
    assert_eq!(Color::from_legacy_char('g'), None);
    assert_eq!(Color::from_legacy_char('A'), None);
    assert_eq!(Color::from_legacy_char('r'), None);
}

#[test]
fn color_from_str() {
    assert_eq!(Color::from_str("green"), Ok(Color { r: 0x55, g: 0xff, b: 0x55 }));
    assert_eq!(Color::from_str("#00ff00"), Ok(Color { r: 0, g: 255, b: 0 }));
    assert_eq!(Color::from_str("#0f0"), Ok(Color { r: 0, g: 255, b: 0 }));
    assert_eq!(Color::from_str("00ff00"), Err("unknown color: 00ff00".to_string()));
    assert_eq!(Color::from_str("#00ff0"), Err("unknown color: #00ff0".to_string()));
    assert_eq!(Color::from_str("#gg0000"), Err("invalid red".to_string()));
}
