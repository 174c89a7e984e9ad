use chat_component::codec::{click_to_json, component_from_json, component_to_json,
    component_to_string, round_trippable, ComponentError};
use chat_component::color::{Color, DefaultColor, HexColor};
use chat_component::component::{
    components_equal, BaseComponent, ClickEvent, Component, CowList, HoverEvent, HoverText,
    KeyBindComponent, Score, ScoreComponent, ScoreName, SelectorComponent, Style, TextComponent,
    TranslatableComponent,
};
use chat_component::identifier::Identifier;
use chat_component::json::Json;
use chat_component::render::render_to_string;

fn text(t: &str) -> Component {
    Component::Text(TextComponent {
        text: t.to_string(),
        base: BaseComponent::new(),
    })
}

fn make_children() -> Vec<Component> {
    vec![text("one"), text("two")]
}

#[test]
fn text_component_serializes_flat() {
    let mut base = BaseComponent::new();
    base.bold = Some(true);
    base.color = Some(Color::Hex(HexColor::new_hex("#ffffff").unwrap()));
    let c = Component::Text(TextComponent {
        text: "hello".to_string(),
        base,
    });
    assert_eq!(
        component_to_string(&c),
        "{\"text\":\"hello\",\"bold\":true,\"color\":\"#ffffff\"}"
    );
}

#[test]
fn change_page_serializes_tagged() {
    let e = ClickEvent::ChangePage(100);
    let j = click_to_json(&e);
    assert_eq!(
        render_to_string(&j),
        "{\"action\":\"change_page\",\"value\":100}"
    );
}

#[test]
fn keybind_wins_over_other_variants() {
    let j = Json::Obj(vec![(
        "keybind".to_string(),
        Json::Str("key.jump".to_string()),
    )]);
    match component_from_json(&j) {
        Ok(Component::KeyBind(k)) => assert_eq!(k.key_bind, "key.jump"),
        other => panic!("expected the key bind variant, got {:?}", other),
    }
}

#[test]
fn text_has_priority_over_translate() {
    let j = Json::Obj(vec![
        ("text".to_string(), Json::Str("a".to_string())),
        ("translate".to_string(), Json::Str("b".to_string())),
    ]);
    match component_from_json(&j) {
        Ok(Component::Text(t)) => assert_eq!(t.text, "a"),
        other => panic!("expected the text variant, got {:?}", other),
    }
}

#[test]
fn bare_style_object_reads_as_base() {
    let j = Json::Obj(vec![("bold".to_string(), Json::Bool(true))]);
    match component_from_json(&j) {
        Ok(Component::Base(b)) => assert_eq!(b.bold, Some(true)),
        other => panic!("expected the style-only variant, got {:?}", other),
    }
    let j = Json::Obj(Vec::new());
    assert!(matches!(component_from_json(&j), Ok(Component::Base(_))));
}

#[test]
fn no_variant_matches() {
    assert_eq!(
        component_from_json(&Json::Str("plain".to_string())).unwrap_err(),
        ComponentError::NoMatchingVariant
    );
    let j = Json::Obj(vec![(
        "bold".to_string(),
        Json::Str("not a boolean".to_string()),
    )]);
    assert_eq!(
        component_from_json(&j).unwrap_err(),
        ComponentError::NoMatchingVariant
    );
}

#[test]
fn round_trip_of_rich_tree() {
    let mut inner = TranslatableComponent {
        translate: "chat.type.text".to_string(),
        with: CowList::new(),
        base: BaseComponent::new(),
    };
    inner.add_arg(text("Alice"));
    let mut base = BaseComponent::new();
    base.italic = Some(false);
    base.font = Some(Identifier::new_partial("minecraft", "uniform").unwrap());
    base.color = Some(Color::Default(DefaultColor::Gold));
    base.insertion = Some("hi".to_string());
    base.click_event = Some(ClickEvent::OpenUrl("https://example.invalid".to_string()));
    base.hover_event = Some(HoverEvent::ShowText(HoverText::Plain("peek".to_string())));
    base.add_extra(Component::Translatable(inner));
    base.add_extra(Component::Score(ScoreComponent {
        score: Score {
            name: ScoreName::Literal("Alice".to_string()),
            objective: "kills".to_string(),
            value: Json::UInt(3),
        },
        base: BaseComponent::new(),
    }));
    base.add_extra(Component::Selector(SelectorComponent {
        selector: "@a".to_string(),
        base: BaseComponent::new(),
    }));
    base.add_extra(Component::KeyBind(KeyBindComponent {
        key_bind: "key.jump".to_string(),
        base: BaseComponent::new(),
    }));
    let c = Component::Text(TextComponent {
        text: "hello".to_string(),
        base,
    });

    let wire = component_to_json(&c);
    let back = component_from_json(&wire).expect("the written tree must read back");
    assert!(components_equal(&c, &back));
    let wire_again = component_to_json(&back);
    assert_eq!(render_to_string(&wire), render_to_string(&wire_again));
    assert!(matches!(back, Component::Text(_)));
}

#[test]
fn score_null_value_is_omitted() {
    let c = Component::Score(ScoreComponent {
        score: Score {
            name: ScoreName::Literal("alice".to_string()),
            objective: "kills".to_string(),
            value: Json::Null,
        },
        base: BaseComponent::new(),
    });
    assert_eq!(
        component_to_string(&c),
        "{\"score\":{\"name\":\"alice\",\"objective\":\"kills\"}}"
    );
    let wire = component_to_json(&c);
    match component_from_json(&wire) {
        Ok(Component::Score(sc)) => {
            assert!(matches!(sc.score.value, Json::Null));
            assert_eq!(sc.score.objective, "kills");
        },
        other => panic!("expected the score variant, got {:?}", other),
    }
}

#[test]
fn uuid_score_name_renders_hyphenated() {
    let c = Component::Score(ScoreComponent {
        score: Score {
            name: ScoreName::Uuid(0x123456789abcdef0123456789abcdef0),
            objective: "deaths".to_string(),
            value: Json::Null,
        },
        base: BaseComponent::new(),
    });
    assert_eq!(
        component_to_string(&c),
        "{\"score\":{\"name\":\"12345678-9abc-def0-1234-56789abcdef0\",\"objective\":\"deaths\"}}"
    );
}

#[test]
fn translatable_args_serialize_under_with() {
    let mut tr = TranslatableComponent {
        translate: "chat.type.text".to_string(),
        with: CowList::new(),
        base: BaseComponent::new(),
    };
    tr.add_arg(text("Alice"));
    let c = Component::Translatable(tr);
    assert_eq!(
        component_to_string(&c),
        "{\"translate\":\"chat.type.text\",\"with\":[{\"text\":\"Alice\"}]}"
    );
}

#[test]
fn hover_event_serializes_tagged() {
    let mut base = BaseComponent::new();
    base.hover_event = Some(HoverEvent::ShowText(HoverText::Plain("peek".to_string())));
    let c = Component::Text(TextComponent {
        text: "x".to_string(),
        base,
    });
    assert_eq!(
        component_to_string(&c),
        "{\"text\":\"x\",\"hoverEvent\":{\"action\":\"show_text\",\"value\":\"peek\"}}"
    );
}

#[test]
fn mutation_materializes_borrowed_list_once() {
    let source = make_children();
    let n = source.len();
    let mut base = BaseComponent::new();
    base.add_extras(CowList::borrowed(source));
    assert!(!base.get_extra().owned_storage());
    assert_eq!(base.get_extra().len(), n);

    base.add_extra(text("three"));
    assert!(base.get_extra().owned_storage());
    assert_eq!(base.get_extra().len(), n + 1);

    // The data the borrowed list stood for is untouched.
    let original = make_children();
    assert_eq!(original.len(), n);

    base.add_extra(text("four"));
    assert!(base.get_extra().owned_storage());
    assert_eq!(base.get_extra().len(), n + 2);
}

#[test]
fn set_decoration_touches_one_boolean() {
    let mut base = BaseComponent::new();
    base.set_decoration(Style::Bold, true);
    assert_eq!(base.bold, Some(true));
    assert_eq!(base.italic, None);
    base.set_decoration(Style::Random, true);
    assert_eq!(base.obfuscated, Some(true));
    assert_eq!(base.bold, Some(true));
    base.set_decoration(Style::Italic, false);
    assert_eq!(base.italic, Some(false));
}

#[test]
fn reset_forces_the_whole_style_over() {
    let mut base = BaseComponent::new();
    base.bold = Some(true);
    base.color = Some(Color::Default(DefaultColor::Red));
    base.reset();
    assert_eq!(base.bold, Some(false));
    assert_eq!(base.italic, Some(false));
    assert_eq!(base.underlined, Some(false));
    assert_eq!(base.strikethrough, Some(false));
    assert_eq!(base.obfuscated, Some(false));
    assert!(base.color.is_none());
    let mut other = BaseComponent::new();
    other.set_decoration(Style::Reset, true);
    assert_eq!(other.bold, Some(false));
    assert!(other.color.is_none());
}

#[test]
fn components_convert_into_the_sum_type() {
    let t: Component = TextComponent {
        text: "a".to_string(),
        base: BaseComponent::new(),
    }
    .into();
    assert!(matches!(t, Component::Text(_)));
    let b: Component = BaseComponent::new().into();
    assert!(matches!(b, Component::Base(_)));
}

#[test]
fn font_identifier_round_trips() {
    let mut base = BaseComponent::new();
    base.font = Some(Identifier::new_partial("minecraft", "uniform").unwrap());
    let c = Component::Text(TextComponent {
        text: "x".to_string(),
        base,
    });
    assert_eq!(
        component_to_string(&c),
        "{\"text\":\"x\",\"font\":\"minecraft:uniform\"}"
    );
    let wire = component_to_json(&c);
    match component_from_json(&wire) {
        Ok(Component::Text(t)) => {
            let font = t.base.font.expect("the font must read back");
            assert_eq!(font.get_partial(), ("minecraft", "uniform"));
        },
        other => panic!("expected the text variant, got {:?}", other),
    }
}

#[test]
fn round_trippable_check_matches_behavior() {
    let c = text("plain");
    assert!(round_trippable(&c));

    let with_uuid = Component::Score(ScoreComponent {
        score: Score {
            name: ScoreName::Uuid(7),
            objective: "kills".to_string(),
            value: Json::Null,
        },
        base: BaseComponent::new(),
    });
    assert!(!round_trippable(&with_uuid));
    // The written form still reads, but the name comes back as the
    // hyphenated literal rather than a UUID.
    let wire = component_to_json(&with_uuid);
    match component_from_json(&wire) {
        Ok(Component::Score(sc)) => match sc.score.name {
            ScoreName::Literal(s) => {
                assert_eq!(s, "00000000-0000-0000-0000-000000000007")
            },
            other => panic!("expected a literal name, got {:?}", other),
        },
        other => panic!("expected the score variant, got {:?}", other),
    }
}

#[test]
fn extra_children_serialize_in_order() {
    let mut base = BaseComponent::new();
    base.add_extra(text("a"));
    base.add_extra(text("b"));
    let c = Component::Text(TextComponent {
        text: "x".to_string(),
        base,
    });
    assert_eq!(
        component_to_string(&c),
        "{\"text\":\"x\",\"extra\":[{\"text\":\"a\"},{\"text\":\"b\"}]}"
    );
}

#[test]
fn colors_compare_by_value() {
    let a = HexColor::new_hex("#0F0F0F").unwrap();
    let b = HexColor::new_rgb(15, 15, 15);
    assert_eq!(a, b);
    assert_eq!(Color::Hex(a), Color::Hex(b));
    let c = HexColor::new_rgb(0, 0, 0);
    assert_ne!(HexColor::new_rgb(15, 15, 15), c);
    assert_ne!(
        Color::Default(DefaultColor::White),
        Color::Hex(HexColor::new_rgb(255, 255, 255))
    );
}

#[test]
fn equality_ignores_storage_forms() {
    // A borrowed and an owned child list with the same components.
    let mut a = BaseComponent::new();
    a.add_extras(CowList::borrowed(make_children()));
    let mut b = BaseComponent::new();
    b.add_extras(CowList::owned_from(make_children()));
    assert!(components_equal(
        &Component::Base(a),
        &Component::Base(b)
    ));

    // A split and a full identifier with the same parts.
    let mut a = BaseComponent::new();
    a.font = Some(Identifier::new_partial("minecraft", "uniform").unwrap());
    let mut b = BaseComponent::new();
    b.font = Some(Identifier::new_fulled("minecraft:uniform").unwrap());
    assert!(components_equal(
        &Component::Base(a),
        &Component::Base(b)
    ));

    let plain = Component::Base(BaseComponent::new());
    assert!(!components_equal(&plain, &text("x")));
}
