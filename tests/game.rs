use skirmish::character::{Character, CharacterForm};
use skirmish::combat::{damage, resolve};
use skirmish::roster::{AttackError, Roster};
use skirmish::session::{attack_as, attack_reply, flash_text, landing, Page, Reply, SESSION_COOKIE};

fn s(text: &str) -> String {
    text.to_string()
}

fn roster_of(entries: &[(&str, &str, u8, u8, u8)]) -> Roster {
    let mut r = Roster::new();
    for (id, name, st, dx, hp) in entries {
        assert!(r.create_with(s(id), &s(name), *st, *dx, *hp));
    }
    r
}

#[test]
fn damage_is_widened() {
    assert_eq!(damage(100, 10, 0), 90);
    assert_eq!(damage(5, 50, 0), -45);
    assert_eq!(damage(255, 0, 127), 382);
    assert_eq!(damage(0, 255, -128), -383);
    assert_eq!(damage(10, 10, 1), 1);
}

#[test]
fn high_damage_slays() {
    let attacker = Character::new(s("Ann"), 100, 1, 1);
    let defender = Character::new(s("Bob"), 50, 10, 50);
    let (message, after) = resolve(&attacker, &defender, 0);
    assert_eq!(message, "Ann hits Bob. Bob is slain!");
    assert!(message.ends_with("is slain!"));
    assert!(after.is_none());
}

#[test]
fn low_damage_misses() {
    let attacker = Character::new(s("Ann"), 5, 1, 1);
    let defender = Character::new(s("Bob"), 7, 50, 20);
    let (message, after) = resolve(&attacker, &defender, 0);
    assert_eq!(message, "Ann missed Bob");
    let after = after.unwrap();
    assert_eq!(after.name, "Bob");
    assert_eq!((after.strength, after.dexterity, after.hitpoints), (7, 50, 20));
}

#[test]
fn wound_lowers_hitpoints() {
    let attacker = Character::new(s("Ann"), 30, 1, 1);
    let defender = Character::new(s("Bob"), 7, 10, 50);
    let (message, after) = resolve(&attacker, &defender, -5);
    assert_eq!(message, "Ann hits Bob");
    assert_eq!(after.unwrap().hitpoints, 35);
}

#[test]
fn damage_equal_to_hitpoints_slays() {
    let attacker = Character::new(s("Ann"), 30, 1, 1);
    let defender = Character::new(s("Bob"), 7, 10, 20);
    let (message, after) = resolve(&attacker, &defender, 0);
    assert_eq!(message, "Ann hits Bob. Bob is slain!");
    assert!(after.is_none());
}

#[test]
fn roster_attack_wounds_in_place() {
    let mut r = roster_of(&[("1", "Ann", 60, 5, 40), ("2", "Bob", 9, 10, 100)]);
    let m = r.attack_with(&s("1"), &s("2"), 0).unwrap();
    assert_eq!(m, "Ann hits Bob");
    assert_eq!(r.len(), 2);
    assert_eq!(r.get(&s("2")).unwrap().hitpoints, 50);
    let listed = r.list();
    assert_eq!(listed.len(), 2);
    assert_eq!(listed[1].0, "2");
    assert_eq!(listed[1].1.hitpoints, 50);
}

#[test]
fn roster_miss_changes_nothing() {
    let mut r = roster_of(&[("1", "Ann", 5, 5, 40), ("2", "Bob", 9, 50, 100)]);
    let m = r.attack_with(&s("1"), &s("2"), 0).unwrap();
    assert_eq!(m, "Ann missed Bob");
    assert_eq!(r.get(&s("2")).unwrap().hitpoints, 100);
    assert_eq!(r.len(), 2);
}

#[test]
fn slain_character_is_gone() {
    let mut r = roster_of(&[("1", "Ann", 100, 5, 40), ("2", "Bob", 50, 10, 50), ("3", "Cy", 1, 1, 1)]);
    let m = r.attack_with(&s("1"), &s("2"), 0).unwrap();
    assert_eq!(m, "Ann hits Bob. Bob is slain!");
    assert_eq!(r.len(), 2);
    assert!(r.get(&s("2")).is_none());
    assert!(!r.contains(&s("2")));
    assert!(r.list().iter().all(|(id, _)| id != "2"));
    let again = r.attack_with(&s("1"), &s("2"), 0);
    assert_eq!(again, Err(AttackError::UnknownTarget));
    assert!(matches!(attack_reply(again), Reply::NotFound));
    assert_eq!(r.attack_with(&s("2"), &s("3"), 0), Err(AttackError::UnknownAttacker));
}

#[test]
fn attack_errors() {
    let mut r = roster_of(&[("1", "Ann", 100, 5, 40)]);
    assert_eq!(r.attack_with(&s("9"), &s("1"), 0), Err(AttackError::UnknownAttacker));
    assert_eq!(r.attack_with(&s("1"), &s("1"), 0), Err(AttackError::SelfTarget));
    assert_eq!(r.attack_with(&s("1"), &s("9"), 0), Err(AttackError::UnknownTarget));
    assert_eq!(r.attack(&s("1"), &s("9")), Err(AttackError::UnknownTarget));
    assert_eq!(r.get(&s("1")).unwrap().hitpoints, 40);
}

#[test]
fn random_attack_always_hits() {
    let mut r = roster_of(&[("1", "Ann", 129, 5, 40), ("2", "Bob", 9, 0, 255)]);
    let m = r.attack(&s("1"), &s("2")).unwrap();
    assert!(m.starts_with("Ann hits Bob"));
    if m.ends_with("is slain!") {
        assert_eq!(r.len(), 1);
        assert!(r.get(&s("2")).is_none());
    } else {
        assert_eq!(r.len(), 2);
        assert!(r.get(&s("2")).unwrap().hitpoints < 255);
    }
}

#[test]
fn create_then_list_has_it_once() {
    let mut r = Roster::new();
    let form = CharacterForm::new(s("Zed"));
    let id = r.create(&form.name).unwrap();
    let listed = r.list();
    let found: Vec<_> = listed.iter().filter(|(i, _)| *i == id).collect();
    assert_eq!(found.len(), 1);
    assert_eq!(found[0].1.name, "Zed");
    assert!(id.parse::<u64>().is_ok());
}

#[test]
fn created_ids_are_unique() {
    let mut r = Roster::new();
    let mut ids: Vec<String> = Vec::new();
    for _ in 0..50 {
        let id = r.create(&s("")).unwrap();
        assert!(!ids.contains(&id));
        ids.push(id);
    }
    assert_eq!(r.len(), 50);
}

#[test]
fn taken_id_is_refused() {
    let mut r = roster_of(&[("7", "Ann", 1, 2, 3)]);
    assert!(!r.create_with(s("7"), &s("Bob"), 4, 5, 6));
    assert_eq!(r.len(), 1);
    assert_eq!(r.get(&s("7")).unwrap().name, "Ann");
}

#[test]
fn apply_damage_cases() {
    let mut r = roster_of(&[("1", "Ann", 1, 2, 10)]);
    assert_eq!(r.apply_damage(&s("9"), 3), None);
    assert_eq!(r.apply_damage(&s("1"), 0), Some(false));
    assert_eq!(r.get(&s("1")).unwrap().hitpoints, 10);
    assert_eq!(r.apply_damage(&s("1"), 9), Some(false));
    assert_eq!(r.get(&s("1")).unwrap().hitpoints, 1);
    assert_eq!(r.apply_damage(&s("1"), 1), Some(true));
    assert_eq!(r.len(), 0);
}

#[test]
fn empty_roster() {
    let r = Roster::new();
    assert_eq!(r.len(), 0);
    assert!(r.list().is_empty());
    assert!(r.get(&s("")).is_none());
}

#[test]
fn session_decisions() {
    assert_eq!(SESSION_COOKIE, "character_id");
    assert_eq!(landing(&Some(s("1"))), Page::Game);
    assert_eq!(landing(&None), Page::New);
    assert_eq!(Page::New.path(), "/new");
    assert_eq!(Page::Game.path(), "/game");
    assert_eq!(flash_text(Some(s("hi"))), "hi");
    assert_eq!(flash_text(None), "");
}

#[test]
fn attack_replies() {
    let mut r = roster_of(&[("1", "Ann", 100, 5, 40), ("2", "Bob", 50, 10, 50)]);
    assert_eq!(attack_as(&mut r, &None, &s("2")), Err(AttackError::UnknownAttacker));
    match attack_reply(Err(AttackError::UnknownAttacker)) {
        Reply::Redirect(p, f) => assert_eq!((p, f.as_str()), (Page::New, "")),
        Reply::NotFound => panic!("expected a redirect"),
    }
    match attack_reply(Err(AttackError::SelfTarget)) {
        Reply::Redirect(p, f) => assert_eq!((p, f.as_str()), (Page::Game, "You cannot attack yourself")),
        Reply::NotFound => panic!("expected a redirect"),
    }
    let out = attack_as(&mut r, &Some(s("1")), &s("2"));
    assert!(out.as_ref().unwrap().starts_with("Ann "));
    match attack_reply(out) {
        Reply::Redirect(p, f) => {
            assert_eq!(p, Page::Game);
            assert!(f.starts_with("Ann "));
        }
        Reply::NotFound => panic!("expected a redirect"),
    }
}

#[test]
fn slain_stays_gone_through_history() {
    let mut r = roster_of(&[("1", "Ann", 100, 5, 40), ("2", "Bob", 50, 10, 50), ("3", "Cy", 30, 0, 200)]);
    assert_eq!(r.attack_with(&s("1"), &s("2"), 0).unwrap(), "Ann hits Bob. Bob is slain!");
    let fresh = r.create(&s("Dee")).unwrap();
    assert_ne!(fresh, "2");
    assert_eq!(r.attack_with(&s("3"), &s("1"), 0).unwrap(), "Cy hits Ann");
    assert!(r.create_with(s("4"), &s("Eve"), 1, 1, 1));
    assert_eq!(r.attack_with(&s("3"), &s("4"), 0).unwrap(), "Cy hits Eve. Eve is slain!");
    assert_eq!(r.attack_with(&s("3"), &s("2"), 0), Err(AttackError::UnknownTarget));
    assert!(r.list().iter().all(|(id, _)| id != "2" && id != "4"));
    // three at first, two created, two slain
    assert_eq!(r.len(), 3);
}
