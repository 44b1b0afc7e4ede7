use spawning_drunagor::error::ErrorKind;
use spawning_drunagor::game::{Color, Content, GameLanguage, Level, Number, Special};
use spawning_drunagor::monster::{monster, MonsterCatalog, MONSTERS};
use spawning_drunagor::pool::ContentSet;
use spawning_drunagor::setup::{setup, SpecialDefault};
use spawning_drunagor::slot::{MonsterRef, SlotRequest};
use spawning_drunagor::store::{toggle_content, SelectStore};

fn catalog() -> MonsterCatalog {
    monster(
        "h\nCore,M1,Gray,self,M1\nCore,M2,Gray,self,M2\nCore,W1,White,self,W1\nCore,Archon,Commander,self,Archon\nCore,Skeleton Archer,White,self,Skelettbogenschütze\nApocalypse,W2,White,self,W2\n",
    )
    .unwrap()
}

fn kind_of(text: &str) -> ErrorKind {
    setup(&catalog(), text, SpecialDefault::NoColor).unwrap_err().kind
}

#[test]
fn a_row_with_decreasing_slot_numbers_is_rejected() {
    assert!(setup(&catalog(), "Core,1,X,Y,G2Ro,M1,G1Ro,M2", SpecialDefault::NoColor).is_err());
    let error = setup(&catalog(), "Core,1,X,Y,G2 Ro,M1,G1 Ro,M2", SpecialDefault::NoColor).unwrap_err();
    assert_eq!(error.kind, ErrorKind::NumberDecreased);
    assert_eq!(error.line, 0);
    assert_eq!(error.field, "G1 Ro");
    assert_eq!(error.message(), "number decreased: \"G1 Ro\"");
    assert!(setup(&catalog(), "Core,1,X,Y,G1 Ro,M1,G2 Ro,M2", SpecialDefault::NoColor).is_ok());
    assert!(setup(&catalog(), "Core,1,X,Y,G2 Ro,M1,G2 Ro,M2", SpecialDefault::NoColor).is_ok());
}

#[test]
fn a_row_is_read_into_a_preset() {
    let presets = setup(
        &catalog(),
        "Core,1,First Blood,Erstes Blut,Exclude,M2,C1,Archon,W1 Ro,,G3 Ve,M1,,\nshort,row\nApocalypse,12,Later,Danach\n",
        SpecialDefault::NoColor,
    )
    .unwrap();
    assert_eq!(presets.setups.len(), 2);
    let first = &presets.setups[0];
    assert_eq!(first.content, Content::Core);
    assert_eq!(first.chapter, 1);
    assert_eq!(first.name(GameLanguage::En), "First Blood");
    assert_eq!(first.name(GameLanguage::De), "Erstes Blut");
    assert_eq!(
        first.items,
        vec![
            SlotRequest {
                number: None,
                color: None,
                level: Level::Special(None),
                monster: Some(MonsterRef::Listed(1)),
                exclude: true,
                preset: true,
            },
            SlotRequest {
                number: Some(Number::One),
                color: Some(Color::Commander),
                level: Level::Special(None),
                monster: Some(MonsterRef::Listed(3)),
                exclude: false,
                preset: true,
            },
            SlotRequest {
                number: Some(Number::One),
                color: Some(Color::White),
                level: Level::Rookie,
                monster: None,
                exclude: false,
                preset: false,
            },
            SlotRequest {
                number: Some(Number::Three),
                color: Some(Color::Gray),
                level: Level::Veteran,
                monster: Some(MonsterRef::Listed(0)),
                exclude: false,
                preset: true,
            },
        ]
    );
    let second = &presets.setups[1];
    assert_eq!(second.content, Content::Apocalypse);
    assert_eq!(second.chapter, 12);
    assert!(second.items.is_empty());
    assert_eq!(presets.lookup(Content::Core, 1, 0), Some(0));
    assert_eq!(presets.lookup(Content::Core, 1, 1), None);
    assert_eq!(presets.lookup(Content::Apocalypse, 12, 0), Some(1));
    assert_eq!(presets.lookup(Content::Apocalypse, 1, 0), None);
}

#[test]
fn a_special_unit_binds_its_slot() {
    let text = "Core,2,X,Y,S1,*Undead King,S2,*Undead King's Minion,C3,*Brute";
    let presets = setup(&catalog(), text, SpecialDefault::NoColor).unwrap();
    let items = &presets.setups[0].items;
    assert_eq!(items[0].color, Some(Color::SpecialCommander));
    assert_eq!(items[0].level, Level::Special(Some(Special::UndeadKing)));
    assert_eq!(items[0].monster, Some(MonsterRef::PureSpecial));
    assert!(items[0].preset);
    assert_eq!(items[1].color, None);
    assert_eq!(items[1].level, Level::Special(Some(Special::UndeadKingsMinion)));
    assert_eq!(items[1].monster, Some(MonsterRef::Listed(4)));
    assert_eq!(items[2].color, Some(Color::SpecialCommander));
    assert_eq!(items[2].level, Level::Special(Some(Special::CommanderBrute)));
    let presets = setup(&catalog(), text, SpecialDefault::Commander).unwrap();
    let items = &presets.setups[0].items;
    assert_eq!(items[0].color, Some(Color::SpecialCommander));
    assert_eq!(items[1].color, Some(Color::Commander));
    let text = "Core,2,X,Y,W1 Fi,*Undead King's Minion,G2 Ro,*Brute";
    let presets = setup(&catalog(), text, SpecialDefault::Commander).unwrap();
    let items = &presets.setups[0].items;
    assert_eq!(items[0].color, Some(Color::White));
    assert_eq!(items[0].level, Level::Special(Some(Special::UndeadKingsMinion)));
    assert_eq!(items[0].monster, Some(MonsterRef::Listed(4)));
    assert_eq!(items[1].color, Some(Color::SpecialCommander));
    assert_eq!(items[1].level, Level::Special(Some(Special::CommanderBrute)));
    assert_eq!(items[1].monster, Some(MonsterRef::PureSpecial));
}

#[test]
fn every_kind_of_error_in_a_row_is_told() {
    assert_eq!(kind_of("Core,1,X,Y,G,M1"), ErrorKind::FieldTooShort);
    assert_eq!(kind_of("Core,1,X,Y,G12 Ro,M1"), ErrorKind::MalformedSlot);
    assert_eq!(kind_of("Core,1,X,Y,X1 Ro,M1"), ErrorKind::UnknownColorCode);
    assert_eq!(kind_of("Core,1,X,Y,G6 Ro,M1"), ErrorKind::UnknownNumber);
    assert_eq!(kind_of("Core,1,X,Y,G0 Ro,M1"), ErrorKind::UnknownNumber);
    assert_eq!(kind_of("Core,1,X,Y,G1,M1"), ErrorKind::UnknownRegularLevel);
    assert_eq!(kind_of("Core,1,X,Y,G1 Rookie,M1"), ErrorKind::UnknownRegularLevel);
    assert_eq!(kind_of("Core,1,X,Y,C1 Ro,Archon"), ErrorKind::UnknownSpecialLevel);
    assert_eq!(kind_of("Core,1,X,Y,S1 Ve,*Undead King"), ErrorKind::UnknownSpecialLevel);
    assert_eq!(kind_of("Core,1,X,Y,S1,"), ErrorKind::SpecialWithoutMonster);
    assert_eq!(kind_of("Core,1,X,Y,G1 Ro,Nobody"), ErrorKind::UnknownMonster);
    assert_eq!(kind_of("Core,1,X,Y,S1,*Torment of Envy"), ErrorKind::UnknownMonster);
    assert_eq!(kind_of("Core,1,X,Y,S1,*Nobody"), ErrorKind::UnknownSpecial);
    assert_eq!(kind_of("Core,1,X,Y,W1 Ro,M1"), ErrorKind::ColorMismatch);
    assert_eq!(kind_of("Core,1,X,Y,C1,M1"), ErrorKind::ColorMismatch);
    assert_eq!(kind_of("Nowhere,1,X,Y,G1 Ro,M1"), ErrorKind::UnknownContent);
    assert_eq!(kind_of("Core,one,X,Y,G1 Ro,M1"), ErrorKind::UnknownChapter);
    assert_eq!(kind_of("Core,,X,Y"), ErrorKind::UnknownChapter);
    assert_eq!(kind_of("Core,99999999999999999999,X,Y"), ErrorKind::UnknownChapter);
    assert_eq!(kind_of("Core,+,X,Y"), ErrorKind::UnknownChapter);
    assert_eq!(kind_of("Core,++1,X,Y"), ErrorKind::UnknownChapter);
    assert_eq!(kind_of("Core,-1,X,Y"), ErrorKind::UnknownChapter);
    assert_eq!(kind_of("Core,1+,X,Y"), ErrorKind::UnknownChapter);
    assert_eq!(kind_of("Core,2,X,Y\nCore,1,X,Y"), ErrorKind::WrongOrder);
    assert_eq!(kind_of("Apocalypse,1,X,Y\nCore,7,X,Y"), ErrorKind::WrongOrder);
    let error = setup(&catalog(), "Core,1,A,B\n\nCore,1,C,D\nCore,0,E,F\n", SpecialDefault::NoColor)
        .unwrap_err();
    assert_eq!(error.kind, ErrorKind::WrongOrder);
    assert_eq!(error.line, 3);
    assert_eq!(error.field, "E");
    let error = setup(&catalog(), "Core,1,A,B\r\nCore,2,C,D,G1 Ro,Nobody\r\n", SpecialDefault::NoColor)
        .unwrap_err();
    assert_eq!(error.kind, ErrorKind::UnknownMonster);
    assert_eq!(error.line, 1);
    assert_eq!(error.field, "Nobody");
}

#[test]
fn the_first_error_of_a_row_is_the_one_of_its_roster() {
    assert_eq!(kind_of("Nowhere,one,X,Y,G1 Ro,Nobody"), ErrorKind::UnknownMonster);
    assert_eq!(kind_of("Nowhere,one,X,Y,G1 Ro,M1"), ErrorKind::UnknownContent);
}

#[test]
fn a_loaded_preset_is_put_out_without_its_exclusion() {
    let catalog = catalog();
    let presets = setup(
        &catalog,
        "Core,1,Start,Anfang,Exclude,W1,C1,Archon,W1 Ro,",
        SpecialDefault::NoColor,
    )
    .unwrap();
    let at = presets.lookup(Content::Core, 1, 0).unwrap();
    let mut enabled = ContentSet::new();
    enabled.insert(Content::Core);
    let mut store = SelectStore::new();
    for _ in 0..20 {
        store.load(presets.get(at).unwrap(), GameLanguage::De, &enabled, &catalog);
        assert_eq!(store.selected.len(), 3);
        assert_eq!(store.output.len(), 2);
        assert_eq!(store.output[0], store.selected[1]);
        assert!(store.output[0].preset);
        assert_eq!(store.output[0].color, Some(Color::Commander));
        assert_eq!(store.output[0].monster, Some(MonsterRef::Listed(3)));
        assert!(!store.output[1].preset);
        assert_eq!(store.output[1].color, Some(Color::White));
        assert_eq!(store.output[1].monster, Some(MonsterRef::Listed(4)));
        let shown = store.setup.as_ref().unwrap();
        assert_eq!(shown.content, Content::Core);
        assert_eq!(shown.chapter, 1);
        assert_eq!(shown.name, "Anfang");
    }
}

#[test]
fn drawing_again_keeps_what_the_preset_fixed() {
    let catalog = monster(MONSTERS).unwrap();
    let presets = setup(
        &catalog,
        "Core,3,Ambush,Hinterhalt,C1,Bane,G1 Ro,Executioner,W2 Fi,,W2 Fi,,G3 Ch,",
        SpecialDefault::NoColor,
    )
    .unwrap();
    let mut enabled = ContentSet::new();
    enabled.insert(Content::Core);
    enabled.insert(Content::Awakenings);
    let mut store = SelectStore::new();
    store.load(&presets.setups[0], GameLanguage::En, &enabled, &catalog);
    let first = store.output.clone();
    assert_eq!(first.len(), 5);
    let mut changed = false;
    for _ in 0..40 {
        store.randomize(&enabled, &catalog);
        assert_eq!(store.output.len(), 5);
        assert_eq!(store.setup.as_ref().unwrap().name, "Ambush");
        for (now, before) in store.output.iter().zip(first.iter()) {
            assert_eq!(now.preset, before.preset);
            assert_eq!(now.color, before.color);
            assert_eq!(now.level, before.level);
            assert_eq!(now.number, before.number);
            if before.preset {
                assert_eq!(now, before);
            } else if now != before {
                changed = true;
            }
        }
    }
    assert!(changed, "forty shuffles changed no open slot");
}

#[test]
fn disabling_a_pack_frees_the_slots_bound_to_its_monsters() {
    let catalog = catalog();
    let mut enabled = ContentSet::new();
    enabled.insert(Content::Core);
    enabled.insert(Content::Apocalypse);
    let mut store = SelectStore::new();
    store.add(Some(Number::One), Color::White, Level::Rookie, Some(MonsterRef::Listed(5)), &enabled, &catalog);
    store.add(None, Color::Gray, Level::Fighter, Some(MonsterRef::Listed(0)), &enabled, &catalog);
    assert_eq!(store.output, store.selected);
    toggle_content(&mut enabled, &mut store, Content::Apocalypse, &catalog);
    assert!(!enabled.contains(Content::Apocalypse));
    assert!(enabled.contains(Content::Core));
    assert_eq!(store.selected[0].monster, None);
    assert_eq!(store.selected[0].color, Some(Color::White));
    assert_eq!(store.selected[0].level, Level::Rookie);
    assert_eq!(store.selected[0].number, Some(Number::One));
    assert_eq!(store.selected[1].monster, Some(MonsterRef::Listed(0)));
    assert_eq!(store.output.len(), 2);
    assert_eq!(store.output[1], store.selected[1]);
    match store.output[0].monster {
        Some(MonsterRef::Listed(id)) => {
            assert_eq!(catalog.monsters[id].content, Content::Core);
            assert_eq!(catalog.monsters[id].color, Color::White);
        }
        _ => panic!("the freed slot was not served"),
    }
    assert!(store.setup.is_none());
    toggle_content(&mut enabled, &mut store, Content::Core, &catalog);
    assert!(!enabled.contains(Content::Core));
    assert_eq!(store.selected[1].monster, None);
    assert!(store.output.is_empty());
}

#[test]
fn slots_are_added_and_removed() {
    let catalog = catalog();
    let mut enabled = ContentSet::new();
    enabled.insert(Content::Core);
    let mut store = SelectStore::new();
    assert!(store.selected.is_empty() && store.output.is_empty() && store.setup.is_none());
    store.add(Some(Number::Two), Color::Gray, Level::Veteran, None, &enabled, &catalog);
    store.add(None, Color::Gray, Level::Veteran, None, &enabled, &catalog);
    assert_eq!(store.selected.len(), 2);
    assert_eq!(
        store.selected[0],
        SlotRequest {
            number: Some(Number::Two),
            color: Some(Color::Gray),
            level: Level::Veteran,
            monster: None,
            exclude: false,
            preset: false,
        }
    );
    assert_eq!(store.output.len(), 2);
    assert_ne!(store.output[0].monster, store.output[1].monster);
    store.add(None, Color::Gray, Level::Rookie, None, &enabled, &catalog);
    assert_eq!(store.selected.len(), 3);
    assert!(store.output.is_empty());
    assert!(!store.remove(3, &enabled, &catalog));
    assert_eq!(store.selected.len(), 3);
    assert!(store.remove(0, &enabled, &catalog));
    assert_eq!(store.selected.len(), 2);
    assert_eq!(store.selected[0].number, None);
    assert_eq!(store.selected[1].level, Level::Rookie);
    assert_eq!(store.output.len(), 2);
}

#[test]
fn a_commander_slot_takes_no_rank() {
    let catalog = catalog();
    let mut enabled = ContentSet::new();
    enabled.insert(Content::Core);
    let mut store = SelectStore::new();
    store.add(Some(Number::One), Color::Commander, Level::Veteran, None, &enabled, &catalog);
    store.add(None, Color::Black, Level::Veteran, None, &enabled, &catalog);
    store.add(None, Color::Special, Level::Special(Some(Special::UndeadKing)), None, &enabled, &catalog);
    assert_eq!(store.selected[0].level, Level::Special(None));
    assert_eq!(store.selected[0].color, Some(Color::Commander));
    assert_eq!(store.selected[1].level, Level::Veteran);
    assert_eq!(store.selected[2].level, Level::Special(Some(Special::UndeadKing)));
    assert!(store.output.is_empty());
    assert!(store.remove(2, &enabled, &catalog));
    assert!(store.remove(1, &enabled, &catalog));
    assert_eq!(store.output.len(), 1);
    assert_eq!(store.output[0].monster, Some(MonsterRef::Listed(3)));
    assert_eq!(store.output[0].level, Level::Special(None));
}

#[test]
fn a_plus_sign_may_precede_the_chapter() {
    let presets = setup(&catalog(), "Core,+7,X,Y\nCore,+007,X,Y\nCore,8,X,Y", SpecialDefault::NoColor)
        .unwrap();
    assert_eq!(presets.setups[0].chapter, 7);
    assert_eq!(presets.setups[1].chapter, 7);
    assert_eq!(presets.setups[2].chapter, 8);
    for text in ["0", "+0", "12", "+12", "18446744073709551615"] {
        let row = format!("Core,{text},X,Y");
        let expected: u64 = text.parse().unwrap();
        assert_eq!(setup(&catalog(), &row, SpecialDefault::NoColor).unwrap().setups[0].chapter, expected);
    }
}

#[test]
fn the_errors_of_a_preset_quote_the_field() {
    let error = setup(&catalog(), "Core,1,X,Y,X1 Ro,M1", SpecialDefault::NoColor).unwrap_err();
    assert_eq!(error.message(), "unknown color: \"X1 Ro\"");
    let error = setup(&catalog(), "Core,1,X,Y,G1 Ro,Nobody", SpecialDefault::NoColor).unwrap_err();
    assert_eq!(error.message(), "unknown monster: \"Nobody\"");
    let error = setup(&catalog(), "Nowhere,1,X,Y", SpecialDefault::NoColor).unwrap_err();
    assert_eq!(error.message(), "Unknown content: Nowhere");
}
