use chat_component::color::{
    color_from_str, color_to_string, default_color_to_string, Color, DefaultColor, HexColor,
    HexColorError,
};

#[test]
fn hex_color_lowercases() {
    let c = HexColor::new_hex("#0F0F0F").unwrap();
    assert_eq!(c.get_hex(), "#0f0f0f");
    let c = HexColor::new_hex("#abcdef").unwrap();
    assert_eq!(c.get_hex(), "#abcdef");
    let c = HexColor::new_hex("#AbCdEf").unwrap();
    assert_eq!(c.get_hex(), "#abcdef");
}

#[test]
fn hex_color_forms_interconvert() {
    let c = HexColor::new_hex("#0f0f0f").unwrap();
    assert_eq!(c.get_rgb(), (15, 15, 15));
    let c = HexColor::new_rgb(255, 0, 16);
    assert_eq!(c.get_hex(), "#ff0010");
    assert_eq!(c.get_rgb(), (255, 0, 16));
    let c = HexColor::new_rgb(0, 0, 0);
    assert_eq!(c.get_hex(), "#000000");
}

#[test]
fn hex_color_errors() {
    assert_eq!(
        HexColor::new_hex("#12345").unwrap_err(),
        HexColorError::HexValueTooSmall
    );
    assert_eq!(
        HexColor::new_hex("#1234567").unwrap_err(),
        HexColorError::HexValueTooLong
    );
    assert_eq!(
        HexColor::new_hex("#12345g").unwrap_err(),
        HexColorError::HexValueContainsBadCharacters
    );
    assert_eq!(
        HexColor::new_hex("x123456").unwrap_err(),
        HexColorError::HexValueContainsBadCharacters
    );
    assert_eq!(
        HexColor::new_hex("").unwrap_err(),
        HexColorError::HexValueTooSmall
    );
}

#[test]
fn default_color_wire_names() {
    assert_eq!(default_color_to_string(DefaultColor::Black), "black");
    assert_eq!(
        default_color_to_string(DefaultColor::LightPurple),
        "light_purple"
    );
    assert_eq!(default_color_to_string(DefaultColor::DarkAqua), "dark_aqua");
    assert_eq!(
        color_to_string(&Color::Default(DefaultColor::Black)),
        "black"
    );
}

#[test]
fn color_reads_back_by_content() {
    match color_from_str("light_purple") {
        Some(Color::Default(dc)) => assert_eq!(dc, DefaultColor::LightPurple),
        other => panic!("expected the palette color, got {:?}", other),
    }
    match color_from_str("#A0b1C2") {
        Some(Color::Hex(h)) => assert_eq!(h.get_rgb(), (0xa0, 0xb1, 0xc2)),
        other => panic!("expected a hex color, got {:?}", other),
    }
    assert!(color_from_str("no_such_color").is_none());
    assert!(color_from_str("#12345").is_none());
}

#[test]
fn color_wire_round_trips() {
    let c = Color::Hex(HexColor::new_rgb(1, 2, 3));
    let wire = color_to_string(&c);
    assert_eq!(wire, "#010203");
    match color_from_str(wire.as_str()) {
        Some(Color::Hex(h)) => assert_eq!(h.get_rgb(), (1, 2, 3)),
        other => panic!("expected a hex color, got {:?}", other),
    }
    let wire = color_to_string(&Color::Default(DefaultColor::Gold));
    match color_from_str(wire.as_str()) {
        Some(Color::Default(dc)) => assert_eq!(dc, DefaultColor::Gold),
        other => panic!("expected the palette color, got {:?}", other),
    }
}
