use spawning_drunagor::game::{Color, Content, Level, Number};
use spawning_drunagor::monster::{monster, MonsterCatalog, MONSTERS};
use spawning_drunagor::pool::{available, unbound, ContentSet};
use spawning_drunagor::select::{assign, compute, compute_seeded, compute_with, order};
use spawning_drunagor::store::SelectStore;
use spawning_drunagor::slot::{MonsterRef, SlotRequest};
use std::collections::HashSet;

fn small_catalog() -> MonsterCatalog {
    monster("heading\nCore,A,White,self,A\nCore,B,White,self,B\nCore,C,Gray,self,C\n").unwrap()
}

fn core_only() -> ContentSet {
    let mut enabled = ContentSet::new();
    enabled.insert(Content::Core);
    enabled
}

fn open(color: Color, level: Level) -> SlotRequest {
    SlotRequest {
        number: Some(Number::One),
        color: Some(color),
        level,
        monster: None,
        exclude: false,
        preset: false,
    }
}

fn fixed(color: Color, level: Level, id: usize, preset: bool) -> SlotRequest {
    SlotRequest {
        number: Some(Number::One),
        color: Some(color),
        level,
        monster: Some(MonsterRef::Listed(id)),
        exclude: false,
        preset,
    }
}

fn listed(slot: &SlotRequest) -> usize {
    match slot.monster {
        Some(MonsterRef::Listed(id)) => id,
        _ => panic!("the slot is bound to no monster of the catalog"),
    }
}

#[test]
fn two_white_and_one_gray_are_all_served() {
    let catalog = small_catalog();
    let selection = vec![
        open(Color::White, Level::Rookie),
        open(Color::White, Level::Rookie),
        open(Color::Gray, Level::Rookie),
    ];
    for _ in 0..50 {
        let out = compute(&selection, &core_only(), &catalog).unwrap();
        assert_eq!(out.len(), 3);
        let whites: HashSet<usize> = [listed(&out[0]), listed(&out[1])].into_iter().collect();
        assert_eq!(whites, [0usize, 1usize].into_iter().collect::<HashSet<usize>>());
        assert_eq!(listed(&out[2]), 2);
        for entry in &out {
            assert!(!entry.preset);
            assert!(!entry.exclude);
            assert_eq!(entry.number, Some(Number::One));
            assert_eq!(entry.level, Level::Rookie);
        }
    }
}

#[test]
fn two_gray_fail_on_one_gray_monster() {
    let catalog = small_catalog();
    let selection = vec![open(Color::Gray, Level::Rookie), open(Color::Gray, Level::Rookie)];
    for _ in 0..20 {
        assert_eq!(compute(&selection, &core_only(), &catalog), None);
    }
}

#[test]
fn the_draw_decides_the_output() {
    let catalog = small_catalog();
    let selection = vec![
        open(Color::White, Level::Rookie),
        open(Color::Gray, Level::Rookie),
        open(Color::White, Level::Rookie),
    ];
    let out = compute_with(&selection, &catalog, vec![2, 1, 0], vec![0, 1, 2]).unwrap();
    assert_eq!(listed(&out[0]), 1);
    assert_eq!(listed(&out[1]), 2);
    assert_eq!(listed(&out[2]), 0);
    let again = compute_with(&selection, &catalog, vec![2, 1, 0], vec![0, 1, 2]).unwrap();
    assert_eq!(out, again);
    let other = compute_with(&selection, &catalog, vec![0, 1, 2], vec![0, 1, 2]).unwrap();
    assert_eq!(listed(&other[0]), 0);
    assert_eq!(listed(&other[1]), 2);
    assert_eq!(listed(&other[2]), 1);
}

#[test]
fn slots_of_one_color_and_tier_are_served_together() {
    let selection = vec![
        open(Color::White, Level::Rookie),
        open(Color::White, Level::Fighter),
        open(Color::Gray, Level::Rookie),
        open(Color::White, Level::Rookie),
    ];
    assert_eq!(order(&selection), vec![0, 3, 1, 2]);
    let catalog = monster(
        "h\nCore,W1,White,self,W1\nCore,W2,White,self,W2\nCore,W3,White,self,W3\nCore,G1,Gray,self,G1\n",
    )
    .unwrap();
    let out = assign(&selection, &catalog, vec![0, 1, 2, 3]).unwrap();
    assert_eq!(listed(&out[0]), 0);
    assert_eq!(listed(&out[3]), 1);
    assert_eq!(listed(&out[1]), 2);
    assert_eq!(listed(&out[2]), 3);
}

#[test]
fn the_second_attempt_takes_a_monster_that_is_bound_elsewhere() {
    let catalog = small_catalog();
    let selection = vec![fixed(Color::Gray, Level::Rookie, 2, false), open(Color::Gray, Level::Fighter)];
    let enabled = core_only();
    let all = available(&catalog, &enabled);
    assert_eq!(all, vec![0, 1, 2]);
    let free = unbound(&selection, &all);
    assert_eq!(free, vec![0, 1]);
    assert_eq!(assign(&selection, &catalog, free.clone()), None);
    let out = compute_with(&selection, &catalog, free, all).unwrap();
    assert_eq!(out[0], selection[0]);
    assert_eq!(listed(&out[1]), 2);
    assert!(!out[1].preset);
    let out = compute(&selection, &enabled, &catalog).unwrap();
    assert_eq!(listed(&out[1]), 2);
}

#[test]
fn an_exclusion_is_never_put_out_and_keeps_its_monster_out() {
    let catalog = small_catalog();
    let exclusion = SlotRequest {
        number: None,
        color: None,
        level: Level::Special(None),
        monster: Some(MonsterRef::Listed(0)),
        exclude: true,
        preset: true,
    };
    let selection = vec![exclusion, open(Color::White, Level::Rookie)];
    for _ in 0..30 {
        let out = compute(&selection, &core_only(), &catalog).unwrap();
        assert_eq!(out.len(), 1);
        assert!(!out[0].exclude);
        assert_eq!(listed(&out[0]), 1);
    }
    let unbound_exclusion = SlotRequest { monster: None, preset: false, ..exclusion };
    let out = compute(&[unbound_exclusion], &core_only(), &catalog).unwrap();
    assert!(out.is_empty());
}

#[test]
fn an_open_slot_without_a_color_cannot_be_served() {
    let catalog = small_catalog();
    let slot = SlotRequest {
        number: Some(Number::Two),
        color: None,
        level: Level::Special(None),
        monster: None,
        exclude: false,
        preset: true,
    };
    assert_eq!(compute(&[slot], &core_only(), &catalog), None);
}

#[test]
fn only_monsters_of_enabled_packs_are_drawn() {
    let catalog = monster(MONSTERS).unwrap();
    let mut enabled = ContentSet::new();
    enabled.insert(Content::Apocalypse);
    let selection = vec![
        open(Color::White, Level::Rookie),
        open(Color::White, Level::Veteran),
        open(Color::Gray, Level::Champion),
        open(Color::Black, Level::Rookie),
    ];
    let mut seen: HashSet<Vec<usize>> = HashSet::new();
    for _ in 0..60 {
        let out = compute(&selection, &enabled, &catalog).unwrap();
        let ids: Vec<usize> = out.iter().map(listed).collect();
        let distinct: HashSet<usize> = ids.iter().copied().collect();
        assert_eq!(distinct.len(), 4);
        for (entry, id) in out.iter().zip(ids.iter()) {
            assert_eq!(catalog.monsters[*id].content, Content::Apocalypse);
            assert_eq!(Some(catalog.monsters[*id].color), entry.color);
        }
        seen.insert(ids);
    }
    assert!(seen.len() > 1, "sixty shuffles gave one order only");
    let third_white = {
        let mut more = selection.clone();
        more.push(open(Color::White, Level::Champion));
        more
    };
    assert_eq!(compute(&third_white, &enabled, &catalog), None);
}

#[test]
fn nothing_is_drawn_where_no_pack_is_enabled() {
    let catalog = small_catalog();
    let enabled = ContentSet::new();
    assert_eq!(available(&catalog, &enabled), Vec::<usize>::new());
    assert_eq!(compute(&[open(Color::White, Level::Rookie)], &enabled, &catalog), None);
    assert_eq!(compute(&[], &enabled, &catalog), Some(vec![]));
}

#[test]
fn the_same_seed_gives_the_same_output() {
    let catalog = monster(MONSTERS).unwrap();
    let mut enabled = ContentSet::new();
    enabled.insert(Content::Core);
    enabled.insert(Content::Awakenings);
    let selection = vec![
        open(Color::White, Level::Rookie),
        fixed(Color::Gray, Level::Rookie, 3, true),
        open(Color::Gray, Level::Fighter),
        open(Color::White, Level::Rookie),
        open(Color::Commander, Level::Special(None)),
    ];
    let mut seen: HashSet<Vec<usize>> = HashSet::new();
    for seed in [0u64, 1, 2, 3, 4, 5, 6, 7, 41, 42, u64::MAX] {
        let out = compute_seeded(&selection, &enabled, &catalog, seed).unwrap();
        let again = compute_seeded(&selection, &enabled, &catalog, seed).unwrap();
        assert_eq!(out, again);
        assert_eq!(out.len(), 5);
        assert_eq!(out[1], selection[1]);
        let ids: Vec<usize> = out.iter().map(listed).collect();
        let distinct: HashSet<usize> = ids.iter().copied().collect();
        assert_eq!(distinct.len(), 5);
        for (entry, id) in out.iter().zip(ids.iter()) {
            assert!(enabled.contains(catalog.monsters[*id].content));
            assert_eq!(Some(catalog.monsters[*id].color), entry.color);
        }
        seen.insert(ids);
    }
    assert!(seen.len() > 1, "eleven seeds gave one order only");
}

#[test]
fn a_seed_decides_whether_or_not_the_first_attempt_fails() {
    let catalog = small_catalog();
    let enabled = core_only();
    let bound_gray = vec![fixed(Color::Gray, Level::Rookie, 2, false), open(Color::Gray, Level::Fighter)];
    for seed in 0..20u64 {
        let out = compute_seeded(&bound_gray, &enabled, &catalog, seed).unwrap();
        assert_eq!(out[0], bound_gray[0]);
        assert_eq!(listed(&out[1]), 2);
        let two_gray = vec![open(Color::Gray, Level::Rookie), open(Color::Gray, Level::Rookie)];
        assert_eq!(compute_seeded(&two_gray, &enabled, &catalog, seed), None);
    }
}

#[test]
fn the_state_under_a_seed_is_put_out_the_same_twice() {
    let catalog = monster(MONSTERS).unwrap();
    let mut enabled = ContentSet::new();
    enabled.insert(Content::Core);
    let mut one = SelectStore::new();
    let mut two = SelectStore::new();
    for store in [&mut one, &mut two] {
        store.add(None, Color::White, Level::Rookie, None, &enabled, &catalog);
        store.add(None, Color::Gray, Level::Veteran, None, &enabled, &catalog);
        store.add(None, Color::Gray, Level::Veteran, None, &enabled, &catalog);
        store.add(None, Color::Black, Level::Champion, None, &enabled, &catalog);
    }
    assert_eq!(one.selected, two.selected);
    let mut outputs = HashSet::new();
    for seed in 100..130u64 {
        one.output_seeded(&enabled, &catalog, seed, true);
        two.output_seeded(&enabled, &catalog, seed, true);
        assert_eq!(one.output, two.output);
        assert_eq!(one.output.len(), 4);
        assert_eq!(one.selected, two.selected);
        outputs.insert(one.output.clone());
        assert_eq!(compute_seeded(&one.selected, &enabled, &catalog, seed), Some(one.output.clone()));
    }
    assert!(outputs.len() > 1, "thirty seeds gave one output only");
    one.add(None, Color::Black, Level::Champion, None, &enabled, &catalog);
    one.add(None, Color::Black, Level::Champion, None, &enabled, &catalog);
    one.output_seeded(&enabled, &catalog, 7, false);
    assert!(one.output.is_empty());
    assert!(one.setup.is_none());
}
