use spawning_drunagor::game::{Color, Content, GameLanguage, Level, Number, Special};

#[test]
fn packs_have_names_in_both_languages() {
    assert_eq!(Content::Core.name(GameLanguage::En), "Core");
    assert_eq!(Content::Core.name(GameLanguage::De), "Grundspiel");
    assert_eq!(Content::DesertOfTheHellscar.name(GameLanguage::En), "Desert of the Hellscar");
    assert_eq!(Content::DesertOfTheHellscar.name(GameLanguage::De), "Wüste der Narben");
    assert_eq!(Content::MonsterPack1.name(GameLanguage::De), "Neue Helden & neue Monster");
    assert_eq!(Content::Apocalypse.name(GameLanguage::De), "Apocalypse*");
    assert_eq!(Content::TheShadowWorld.name(GameLanguage::En), "The Shadow World");
    assert_eq!(Content::TheShadowWorld.ident(), "TheShadowWorld");
}

#[test]
fn the_core_pack_sorts_first() {
    assert_eq!(Content::Core.order_name(GameLanguage::En), "!first");
    assert_eq!(Content::Core.order_name(GameLanguage::De), "!first");
    assert_eq!(Content::Apocalypse.order_name(GameLanguage::En), "Apocalypse");
    assert_eq!(Content::SpoilsOfWar.order_name(GameLanguage::De), "Kriegsbeute");
    assert_eq!(Content::Core.ordinal(), 0);
    assert_eq!(Content::TheShadowWorld.ordinal(), 9);
    for n in 0..10u8 {
        let pack = Content::from_ordinal(n).unwrap();
        assert_eq!(pack.ordinal(), n);
        let ident: Vec<char> = pack.ident().chars().collect();
        assert_eq!(Content::parse(&ident), Some(pack));
        for m in 0..n {
            let other = Content::from_ordinal(m).unwrap();
            assert!(other.order_name(GameLanguage::En) < pack.order_name(GameLanguage::En));
        }
    }
    assert_eq!(Content::from_ordinal(10), None);
    let unknown: Vec<char> = "core".chars().collect();
    assert_eq!(Content::parse(&unknown), None);
}

#[test]
fn color_classes_have_names_short_forms_and_prefixes() {
    assert_eq!(Color::White.name(GameLanguage::En), "White");
    assert_eq!(Color::White.name(GameLanguage::De), "Weiß");
    assert_eq!(Color::Black.name(GameLanguage::De), "Schwarz");
    assert_eq!(Color::Commander.name(GameLanguage::De), "Kommandant");
    assert_eq!(Color::Gray.short(GameLanguage::En), "GM");
    assert_eq!(Color::Black.short(GameLanguage::En), "BM");
    assert_eq!(Color::Black.short(GameLanguage::De), "SM");
    assert_eq!(Color::Commander.short(GameLanguage::En), "Commander");
    assert_eq!(Color::Black.prefix(GameLanguage::En), "B");
    assert_eq!(Color::Black.prefix(GameLanguage::De), "S");
    assert_eq!(Color::Commander.prefix(GameLanguage::En), "C");
    assert_eq!(Color::Commander.prefix(GameLanguage::De), "K");
    assert!(Color::Special.is_any_special());
    assert!(Color::SpecialCommander.is_any_special());
    assert!(!Color::Commander.is_any_special());
    for n in 0..6u8 {
        let color = Color::from_ordinal(n).unwrap();
        let ident: Vec<char> = color.ident().chars().collect();
        assert_eq!(Color::parse(&ident), Some(color));
    }
    assert_eq!(Color::from_ordinal(6), None);
    let unknown: Vec<char> = "Grey".chars().collect();
    assert_eq!(Color::parse(&unknown), None);
}

#[test]
fn special_units_have_names_monsters_and_colors() {
    assert_eq!(Special::UndeadKing.name(GameLanguage::En), "Undead King");
    assert_eq!(Special::UndeadKing.name(GameLanguage::De), "Untoter König");
    assert_eq!(Special::CommanderBrute.name(GameLanguage::En), "Brute");
    assert_eq!(Special::DireExecutioner.name(GameLanguage::De), "Henker des Schreckens");
    assert_eq!(Special::UndeadKing.monster(), None);
    assert_eq!(Special::CommanderBrute.monster(), None);
    assert_eq!(Special::UndeadKingsMinion.monster(), Some("Skeleton Archer"));
    assert_eq!(Special::MurderousApparition.monster(), Some("Shadow Vampire"));
    assert_eq!(Special::ManifestationOfWrath.monster(), Some("Shadow Knight"));
    assert_eq!(Special::TormentOfEnvy.monster(), Some("Abomination"));
    assert_eq!(Special::DrifterApparition.monster(), Some("Executioner"));
    assert_eq!(Special::DireExecutioner.monster(), Some("Executioner"));
    assert_eq!(Special::UndeadKing.color(), Some(Color::SpecialCommander));
    assert_eq!(Special::CommanderBrute.color(), Some(Color::SpecialCommander));
    assert_eq!(Special::TormentOfEnvy.color(), None);
    for n in 0..8u8 {
        let unit = Special::from_ordinal(n).unwrap();
        let name: Vec<char> = unit.name(GameLanguage::En).chars().collect();
        assert_eq!(Special::parse(&name), Some(unit));
    }
    assert_eq!(Special::from_ordinal(8), None);
}

#[test]
fn level_tiers_have_codes_and_names() {
    assert_eq!(Level::Rookie.id(), "Ro");
    assert_eq!(Level::Fighter.id(), "Fi");
    assert_eq!(Level::Veteran.id(), "Ve");
    assert_eq!(Level::Champion.id(), "Ch");
    assert_eq!(Level::Special(None).id(), "Sp");
    assert_eq!(Level::Rookie.name(GameLanguage::De), "Novize");
    assert_eq!(Level::Fighter.name(GameLanguage::De), "Kämpfer");
    assert_eq!(Level::Champion.name(GameLanguage::En), "Champion");
    assert_eq!(Level::Champion.name(GameLanguage::De), "Meister");
    assert_eq!(Level::Special(None).name(GameLanguage::En), "");
    assert_eq!(Level::Special(Some(Special::TormentOfEnvy)).name(GameLanguage::De), "Qual der Gier");
}

#[test]
fn player_count_numbers_run_from_one_to_five() {
    assert_eq!(Number::from_digit('1'), Some(Number::One));
    assert_eq!(Number::from_digit('5'), Some(Number::Five));
    assert_eq!(Number::from_digit('0'), None);
    assert_eq!(Number::from_digit('6'), None);
    assert_eq!(Number::Three.value(), 3);
    assert_eq!(Number::Five.value(), 5);
}
