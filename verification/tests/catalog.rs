use std::collections::HashSet;
use spawning_drunagor::error::ErrorKind;
use spawning_drunagor::game::{Color, Content};
use spawning_drunagor::monster::{monster, MONSTERS};

#[test]
fn monster_reads_rows_after_the_heading() {
    let text = "Content,Name,Color,Miniature,German\nCore,Abomination,Black,self,Abscheulichkeit\nApocalypse,Dream Titan,Black,Abomination,Dream Titan\n";
    let catalog = monster(text).unwrap();
    assert_eq!(catalog.monsters.len(), 2);
    assert_eq!(catalog.monsters[0].name_en, "Abomination");
    assert_eq!(catalog.monsters[0].name_de, "Abscheulichkeit");
    assert_eq!(catalog.monsters[0].content, Content::Core);
    assert_eq!(catalog.monsters[0].color, Color::Black);
    assert_eq!(catalog.monsters[0].miniature, None);
    assert_eq!(catalog.monsters[1].miniature, Some("Abomination".to_string()));
}

#[test]
fn monster_rejects_two_rows_with_one_english_name() {
    let text = "h\nCore,Bane,Commander,self,Bane\nCore,Archon,Commander,self,Archon\nApocalypse,Bane,White,self,Fluch\n";
    let error = monster(text).unwrap_err();
    assert_eq!(error.kind, ErrorKind::DuplicateMonster);
    assert_eq!(error.line, 3);
    assert_eq!(error.field, "Bane");
    assert_eq!(error.message(), "Duplicate monster name: Bane");
}

#[test]
fn test() {
    let catalog = monster(MONSTERS).unwrap();
    assert_eq!(catalog.monsters.len(), 44);
    let mut x = HashSet::new();
    for m in &catalog.monsters {
        assert!(x.insert(m.name_en.as_str()), "Duplicate monster name");
    }
}

#[test]
fn monster_names_the_field_that_is_no_pack_or_no_color() {
    let error = monster("h\nCore,A,White,self,A\nKern,B,White,self,B\n").unwrap_err();
    assert_eq!(error.kind, ErrorKind::UnknownContent);
    assert_eq!(error.line, 2);
    assert_eq!(error.field, "Kern");
    assert_eq!(error.message(), "Unknown content: Kern");
    let error = monster("h\nCore,A,Grey,self,A\nKern,B,White,self,B\n").unwrap_err();
    assert_eq!(error.kind, ErrorKind::UnknownColor);
    assert_eq!(error.line, 1);
    assert_eq!(error.field, "Grey");
    assert_eq!(error.message(), "Unknown color: Grey");
}

#[test]
fn monster_passes_over_the_heading_and_short_lines() {
    let catalog = monster("Core,A,White,self,A\n\nCore,B\nCore,B,Special,self,B,more,fields\n").unwrap();
    assert_eq!(catalog.monsters.len(), 1);
    assert_eq!(catalog.monsters[0].name_en, "B");
    assert_eq!(catalog.monsters[0].color, Color::Special);
    assert_eq!(monster("").unwrap().monsters.len(), 0);
    assert_eq!(monster("Core,A,White,self,A").unwrap().monsters.len(), 0);
    let trimmed = monster("h\nCore,A,White,self,\n").unwrap();
    assert_eq!(trimmed.monsters.len(), 0);
}

#[test]
fn monster_rejects_a_reference_to_no_monster() {
    let error = monster("h\nCore,A,White,B,A\n").unwrap_err();
    assert_eq!(error.kind, ErrorKind::DanglingReference);
    assert_eq!(error.line, 1);
    assert_eq!(error.field, "B");
    assert_eq!(error.message(), "Unknown miniature: B");
    assert!(monster("h\nCore,A,White,B,A\nCore,B,White,self,B\n").is_ok());
    assert!(monster("h\nCore,A,White,A,A\n").is_ok());
}

#[test]
fn monster_rejects_a_reference_through_another() {
    let error =
        monster("h\nCore,A,White,self,A\nCore,B,White,A,B\nCore,C,White,B,C\n").unwrap_err();
    assert_eq!(error.kind, ErrorKind::NestedReference);
    assert_eq!(error.line, 3);
    assert_eq!(error.field, "B");
    assert_eq!(error.message(), "Miniature of a miniature: B");
    let error = monster("h\nCore,A,White,B,A\nCore,B,White,A,B\n").unwrap_err();
    assert_eq!(error.kind, ErrorKind::NestedReference);
    assert_eq!(error.line, 1);
}

#[test]
fn the_catalog_finds_a_monster_by_its_english_name() {
    let catalog = monster(MONSTERS).unwrap();
    assert_eq!(catalog.len(), 44);
    assert_eq!(catalog.find("Abomination"), Some(0));
    assert_eq!(catalog.find("Shadow Pain"), Some(43));
    assert_eq!(catalog.find("Abscheulichkeit"), None);
    let found = catalog.get(catalog.find("Skeleton Archer").unwrap()).unwrap();
    assert_eq!(found.name(spawning_drunagor::game::GameLanguage::De), "Skelettbogenschütze");
    assert_eq!(found.name(spawning_drunagor::game::GameLanguage::En), "Skeleton Archer");
    assert_eq!(found.color, Color::White);
    assert!(catalog.get(44).is_none());
}
