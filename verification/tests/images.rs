use spawning_drunagor::error::ErrorKind;
use spawning_drunagor::game::{Color, Content};
use spawning_drunagor::image::{
    check_images, hex_digit, image, image_source, image_target, name_to_ident, target_of, Image,
};
use spawning_drunagor::monster::Monster;

fn creature(content: Content, name: &str, miniature: Option<&str>) -> Monster {
    Monster {
        content,
        name_en: name.to_string(),
        color: Color::White,
        miniature: miniature.map(|m| m.to_string()),
        name_de: name.to_string(),
    }
}

#[test]
fn an_identifier_keeps_letters_and_numbers_only() {
    assert_eq!(name_to_ident("Shadow Cultist"), "ShadowCultist");
    assert_eq!(name_to_ident("Undead King's Minion"), "UndeadKingsMinion");
    assert_eq!(name_to_ident("Monster Pack 1"), "MonsterPack1");
    assert_eq!(name_to_ident("Skelettbogenschütze"), "Skelettbogenschütze");
    assert_eq!(name_to_ident(" -,'!"), "");
    assert_eq!(name_to_ident(""), "");
}

#[test]
fn a_pack_gives_the_prefix_of_its_pictures() {
    assert_eq!(Content::Core.image_prefix(), "Co");
    assert_eq!(Content::Apocalypse.image_prefix(), "Ap");
    assert_eq!(Content::Awakenings.image_prefix(), "Aw");
    assert_eq!(Content::DesertOfTheHellscar.image_prefix(), "De");
    assert_eq!(Content::FallenSisters.image_prefix(), "Fa");
    assert_eq!(Content::MonsterPack1.image_prefix(), "Mo");
    assert_eq!(Content::RiseOfTheUndeadDragon.image_prefix(), "Ri");
    assert_eq!(Content::SpoilsOfWar.image_prefix(), "Sp");
    assert_eq!(Content::TheRuinOfLuccanor.image_prefix(), "Ru");
    assert_eq!(Content::TheShadowWorld.image_prefix(), "Sh");
}

#[test]
fn a_picture_is_looked_for_under_prefix_and_identifier() {
    let knight = creature(Content::Core, "Shadow Knight", None);
    assert_eq!(image_source(&knight), Some("CoShadowKnight.jpeg".to_string()));
    let guardian = creature(Content::TheShadowWorld, "Shadow Guardian", None);
    assert_eq!(image_source(&guardian), Some("ShShadowGuardian.jpeg".to_string()));
    let copy = creature(Content::Core, "Dire Executioner", Some("Executioner"));
    assert_eq!(image_source(&copy), None);
}

#[test]
fn a_picture_is_stored_under_the_start_of_its_digest() {
    assert_eq!(image_target(b""), "d41d8cd9.jpeg");
    assert_eq!(image_target(b"abc"), "90015098.jpeg");
    assert_eq!(image_target(b"The quick brown fox jumps over the lazy dog"), "9e107d9d.jpeg");
    let digest = [0x00, 0x0f, 0xa5, 0xff, 1, 2, 3, 4, 5, 6, 7, 8, 9, 10, 11, 12];
    assert_eq!(target_of(&digest), "000fa5ff.jpeg");
    let digits: String = (0..16u8).map(hex_digit).collect();
    assert_eq!(digits, "0123456789abcdef");
}

#[test]
fn a_monster_has_a_picture_where_it_has_a_miniature_and_a_file() {
    let knight = creature(Content::Core, "Shadow Knight", None);
    let picture = image(&knight, Some(b"abc")).unwrap();
    assert_eq!(picture.source, "CoShadowKnight.jpeg");
    assert_eq!(picture.target, "90015098.jpeg");
    assert!(image(&knight, None).is_none());
    let copy = creature(Content::Core, "Dire Executioner", Some("Executioner"));
    assert!(image(&copy, Some(b"abc")).is_none());
}

#[test]
fn two_pictures_under_one_file_name_are_rejected() {
    let picture = |source: &str, target: &str| {
        Some(Image { source: source.to_string(), target: target.to_string() })
    };
    let distinct = vec![picture("a", "1.jpeg"), None, picture("b", "2.jpeg"), None];
    assert!(check_images(&distinct).is_ok());
    assert!(check_images(&Vec::new()).is_ok());
    let clash = vec![
        picture("a", "1.jpeg"),
        None,
        picture("b", "2.jpeg"),
        picture("c", "1.jpeg"),
        picture("d", "2.jpeg"),
    ];
    let error = check_images(&clash).unwrap_err();
    assert_eq!(error.kind, ErrorKind::DuplicateImage);
    assert_eq!(error.line, 3);
    assert_eq!(error.field, "1.jpeg");
    assert_eq!(error.message(), "Duplicate image: 1.jpeg");
}
