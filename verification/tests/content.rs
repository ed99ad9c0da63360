//! Checking and putting together content.

use avalon::content::{
    default_weight, known_faction, known_skill, validate, Cargo, ContentDb, Effects, FactionGate,
    Gates, Npc, SChoice, Settlement, Storylet, Terrain, Test, FACTIONS, SKILLS,
};
use avalon::load::{load, sort_by_id, sorted_toml, NpcFile, StoryletFile, WorldFile};

fn settlement(id: &str, legs: u32) -> Settlement {
    Settlement {
        id: id.to_string(),
        name: id.to_string(),
        legs,
        pay_bonus_pct: 0,
        flavor: String::new(),
    }
}

fn terrain(id: &str) -> Terrain {
    Terrain {
        id: id.to_string(),
        name: id.to_string(),
        flavor: String::new(),
        legs: 4,
        start_fuel_l: 20,
        max_fuel_l: 40,
        leg_fuel_l: 6,
        start_wear: 0,
        dc_mod: 0,
        heat_per_leg: 1,
        wear_per_leg: 1,
    }
}

fn cargo() -> Cargo {
    Cargo {
        name: "turnips".to_string(),
        qty_desc: "a sack".to_string(),
        base_pay_pence: 100,
        illicit: false,
    }
}

fn choice() -> SChoice {
    SChoice {
        label: "Go".to_string(),
        requires_cash: None,
        test: None,
        effects: Effects::default(),
        outcome: "Gone.".to_string(),
        fail_effects: None,
        fail_outcome: None,
    }
}

fn storylet(id: &str, template: &str) -> Storylet {
    Storylet {
        id: id.to_string(),
        template: template.to_string(),
        weight: default_weight(),
        requires: Gates::default(),
        title: String::new(),
        body: Vec::new(),
        choices: vec![choice()],
    }
}

fn npc(id: &str, name: &str) -> Npc {
    Npc {
        id: id.to_string(),
        name: name.to_string(),
        role: String::new(),
        faction: String::new(),
        persona: String::new(),
        barks: Vec::new(),
    }
}

fn good() -> ContentDb {
    ContentDb {
        settlements: vec![settlement("ashby", 3)],
        terrains: vec![terrain("moor")],
        cargoes: vec![cargo()],
        storylets: vec![storylet("a", "one"), storylet("b", "two"), storylet("c", "three")],
        ..ContentDb::default()
    }
}

fn complaint(db: &ContentDb) -> String {
    validate(db).unwrap_err()
}

#[test]
fn good_content_validates() {
    assert_eq!(validate(&good()), Ok(()));
    let bare = ContentDb { storylets: Vec::new(), ..good() };
    assert_eq!(validate(&bare), Ok(()));
}

#[test]
fn there_must_be_somewhere_to_go_and_something_to_carry() {
    let db = ContentDb::default();
    assert_eq!(complaint(&db), "no settlements defined\nno cargoes defined");
}

#[test]
fn legs_are_bounded() {
    let mut db = good();
    db.settlements = (3..=5).map(|n| settlement("ok", n)).collect();
    assert_eq!(validate(&db), Ok(()));
    db.settlements = vec![settlement("near", 0), settlement("ok", 5), settlement("far", 9)];
    assert_eq!(
        complaint(&db),
        "settlement near: legs must be 1..=8\nsettlement far: legs must be 1..=8"
    );
    for n in [1, 2, 6, 7, 8] {
        db.settlements = vec![settlement("ashby", n)];
        assert_eq!(complaint(&db), "settlement ashby: a run there takes 3..=5 legs");
    }
}

#[test]
fn a_run_across_a_terrain_takes_three_to_five_legs() {
    let mut db = good();
    for n in [0, 1, 2, 6, 1_000] {
        db.terrains[0].legs = n;
        assert_eq!(complaint(&db), "terrain moor: a run across it takes 3..=5 legs");
    }
    for n in 3..=5 {
        db.terrains[0].legs = n;
        assert_eq!(validate(&db), Ok(()));
    }
}

#[test]
fn a_standing_gate_names_a_faction() {
    let gate = |name: &str| Some(FactionGate { faction: name.to_string(), value: 2 });
    let mut db = good();
    db.storylets[1].requires.faction_rep_min = gate("guild");
    db.storylets[1].requires.faction_rep_max = gate("carver");
    assert_eq!(validate(&db), Ok(()));
    db.storylets[1].requires.faction_rep_min = gate("masons");
    assert_eq!(complaint(&db), "storylet b: unknown faction gate masons");
    db.storylets[1].requires.faction_rep_max = gate("elks");
    assert_eq!(
        complaint(&db),
        "storylet b: unknown faction gate elks\nstorylet b: unknown faction gate masons"
    );
}

#[test]
fn a_terrain_gate_names_a_terrain() {
    let mut db = good();
    db.storylets[2].requires.terrains = vec!["moor".to_string()];
    assert_eq!(validate(&db), Ok(()));
    db.storylets[2].requires.terrains =
        vec!["sea".to_string(), "moor".to_string(), "sky".to_string()];
    assert_eq!(
        complaint(&db),
        "storylet c: unknown terrain gate sea\nstorylet c: unknown terrain gate sky"
    );
}

#[test]
fn ids_are_not_repeated() {
    let mut db = good();
    db.storylets.push(storylet("b", "one"));
    db.storylets.push(storylet("b", "one"));
    assert_eq!(complaint(&db), "duplicate storylet id b\nduplicate storylet id b");
}

#[test]
fn there_must_be_something_to_choose() {
    let mut db = good();
    db.storylets[1].choices.clear();
    assert_eq!(complaint(&db), "storylet b: no choices");
}

#[test]
fn a_destination_gate_names_a_settlement() {
    let mut db = good();
    db.storylets[0].requires.dest = Some("ashby".to_string());
    assert_eq!(validate(&db), Ok(()));
    db.storylets[0].requires.dest = Some("atlantis".to_string());
    assert_eq!(complaint(&db), "storylet a: unknown dest gate atlantis");
}

#[test]
fn a_test_names_a_skill_and_says_what_failing_comes_to() {
    let mut db = good();
    let test = Test {
        skill: "juggling".to_string(),
        dc: 8,
        dc_wear_div: None,
        dc_susp_bump: None,
        dc_heat_bump: None,
    };
    db.storylets[2].choices.push(SChoice { test: Some(test), ..choice() });
    assert_eq!(
        complaint(&db),
        "storylet c choice 1: unknown skill juggling\nstorylet c choice 1: test without \
         fail_outcome"
    );
}

#[test]
fn effects_name_factions() {
    let mut db = good();
    let bad = |name: &str| Effects { faction: Some(name.to_string()), ..Effects::default() };
    db.storylets[0].choices[0].effects = bad("guild");
    assert_eq!(validate(&db), Ok(()));
    db.storylets[0].choices[0].effects = bad("masons");
    db.storylets[0].choices[0].fail_effects = Some(bad("elks"));
    assert_eq!(
        complaint(&db),
        "storylet a choice 0: unknown faction masons\nstorylet a choice 0: unknown faction elks"
    );
}

#[test]
fn runs_need_three_templates() {
    let mut db = good();
    db.storylets[2].template = "one".to_string();
    assert_eq!(complaint(&db), "fewer than 3 beat templates; runs will repeat");
}

#[test]
fn skills_and_factions_are_the_known_ones() {
    assert_eq!(SKILLS, ["paperwork", "spanners", "charm"]);
    assert_eq!(FACTIONS, ["collective", "guild", "carver"]);
    assert!(SKILLS.iter().all(|s| known_skill(s)));
    assert!(FACTIONS.iter().all(|s| known_faction(s)));
    assert!(!known_skill("guild") && !known_faction("charm"));
    assert_eq!(default_weight(), 1);
}

#[test]
fn the_order_of_the_files_does_not_matter() {
    let world = || WorldFile {
        settlements: vec![settlement("ashby", 3)],
        cargoes: vec![cargo()],
        banned_phrases: vec!["okay".to_string()],
        ..WorldFile::default()
    };
    let a = || StoryletFile { storylet: vec![storylet("m", "one"), storylet("b", "two")] };
    let b = || StoryletFile { storylet: vec![storylet("z", "three"), storylet("a", "one")] };
    let p = || NpcFile { npc: vec![npc("wray", "Wray")] };
    let q = || NpcFile { npc: vec![npc("arthur", "Arthur"), npc("hobbs", "Hobbs")] };
    let one = load(world(), vec![a(), b()], vec![p(), q()]).unwrap();
    let two = load(world(), vec![b(), a()], vec![q(), p()]).unwrap();
    assert_eq!(one, two);
    let ids: Vec<&str> = one.storylets.iter().map(|s| s.id.as_str()).collect();
    assert_eq!(ids, vec!["a", "b", "m", "z"]);
    let ids: Vec<&str> = one.npcs.iter().map(|n| n.id.as_str()).collect();
    assert_eq!(ids, vec!["arthur", "hobbs", "wray"]);
    assert_eq!(one.banned_phrases, vec!["okay"]);
}

#[test]
fn bad_content_is_refused_with_its_complaints() {
    let world = WorldFile { cargoes: vec![cargo()], ..WorldFile::default() };
    assert_eq!(load(world, Vec::new(), Vec::new()), Err("no settlements defined".to_string()));
}

#[test]
fn equal_ids_keep_their_order() {
    let sorted = sort_by_id(vec![
        npc("b", "first"),
        npc("a", "second"),
        npc("b", "third"),
        npc("a", "fourth"),
    ]);
    let names: Vec<&str> = sorted.iter().map(|n| n.name.as_str()).collect();
    assert_eq!(names, vec!["second", "fourth", "first", "third"]);
    assert_eq!(sort_by_id(sorted.clone()), sorted);
}

#[test]
fn toml_files_are_listed_by_name() {
    let names: Vec<Vec<u8>> = [
        "roads.toml",
        "notes.txt",
        "checkpoints.toml",
        ".toml",
        "toml",
        "B.toml",
        "x.TOML",
        "a.b.toml",
        "roads.toml.bak",
    ]
    .iter()
    .map(|s| s.as_bytes().to_vec())
    .collect();
    let listed = sorted_toml(&names);
    assert_eq!(listed, vec![5, 7, 2, 0]);
    // The same files as the extension that std sees.
    for (i, n) in names.iter().enumerate() {
        let text = String::from_utf8(n.clone()).unwrap();
        let is = std::path::Path::new(&text).extension().is_some_and(|x| x == "toml");
        assert_eq!(listed.contains(&i), is, "{text}");
    }
}
