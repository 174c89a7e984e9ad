use chat_component::identifier::{Identifier, IdentifierError, IdentifierInner};

#[test]
pub fn identifier_constructor() {
    {
        let good_identifier = Identifier::new_fulled("minecraft:grass_block").unwrap();
        assert_eq!(good_identifier.get_fulled(), "minecraft:grass_block");
        assert_eq!(good_identifier.get_partial(), ("minecraft", "grass_block"));
        assert_eq!(
            good_identifier,
            Identifier::from_inner(IdentifierInner::Fulled("minecraft:grass_block".to_string()))
                .unwrap()
        );
    }
    {
        assert_eq!(
            Identifier::new_partial("minecraft", "grass_block"),
            Identifier::new_fulled("minecraft:grass_block")
        );
    }
    {
        assert_eq!(
            Identifier::new_fulled("minecraft:grass_block:"),
            Err(IdentifierError::FulledContainsMoreThanOneDoubleDot)
        );
        assert_eq!(
            Identifier::new_fulled("minecraft_grass_block"),
            Err(IdentifierError::FulledContainsNoDoubleDot)
        );
        assert_eq!(
            Identifier::new_partial("minecraft", "grass_block:"),
            Err(IdentifierError::ValueContainsDoubleDot)
        );
        assert_eq!(
            Identifier::new_partial("minecraft:", "grass_block"),
            Err(IdentifierError::KeyContainsDoubleDot)
        );
    }
    {
        assert_eq!(
            Identifier::new_with_default("grass_block", "minecraft"),
            Identifier::new_fulled("minecraft:grass_block")
        );
        assert_eq!(
            Identifier::new_with_default("other:grass_block", "minecraft"),
            Identifier::new_fulled("other:grass_block")
        );
    }
}

#[test]
fn into() {
    {
        let identifier = Identifier::new_fulled("minecraft:grass_block").unwrap();
        assert_eq!(identifier.get_fulled(), "minecraft:grass_block");
        assert_eq!(identifier.get_partial(), ("minecraft", "grass_block"));
    }
    {
        let identifier = Identifier::new_partial("minecraft", "grass_block").unwrap();
        assert_eq!(identifier.get_fulled(), "minecraft:grass_block".to_string());
        assert_eq!(identifier.get_partial(), ("minecraft", "grass_block"));
    }
}

#[test]
fn into_owned_forms() {
    let identifier = Identifier::new_fulled("minecraft:stone").unwrap();
    assert!(identifier.is_fulled());
    assert!(!identifier.is_partial());
    assert_eq!(identifier.clone().into_fulled(), "minecraft:stone");
    assert_eq!(
        identifier.into_partial(),
        ("minecraft".to_string(), "stone".to_string())
    );
    let identifier = Identifier::new_partial("minecraft", "stone").unwrap();
    assert!(identifier.is_partial());
    assert_eq!(identifier.into_fulled(), "minecraft:stone");
}

#[test]
fn partial_and_fulled_compare_equal() {
    let a = Identifier::new_partial("ns", "thing").unwrap();
    let b = Identifier::new_fulled("ns:thing").unwrap();
    assert_eq!(a, b);
    assert_eq!(a.get_fulled(), "ns:thing");
    let c = Identifier::new_fulled("ns:other").unwrap();
    assert_ne!(a, c);
}

#[test]
fn with_default_rejects_bad_default() {
    assert_eq!(
        Identifier::new_with_default("value", "bad:key"),
        Err(IdentifierError::KeyContainsDoubleDot)
    );
    assert_eq!(
        Identifier::new_with_default("a:b:c", "ns"),
        Err(IdentifierError::FulledContainsMoreThanOneDoubleDot)
    );
}
