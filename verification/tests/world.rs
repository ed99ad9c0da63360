//! Memories, gossip and hearings.

use avalon::content::{ContentDb, Npc, Settlement};
use avalon::dice::Dice;
use avalon::flags::FlagSet;
use avalon::hearing::scene;
use avalon::inquiry::{maybe_convene, npc_name, InqStage};
use avalon::memory::{
    add_memory, chargeable, flag_witness, memory_text, record_run_memories, retell, same_attrs,
    tell, FactAttrs, FactRec, MemoryEntry, MEMORIES_PER_NPC,
};
use avalon::mission::Event;
use avalon::panel::{pass_verdict, take_choice};
use avalon::world::{Contract, Run, Standings, WorldState};
use rand::{Rng, SeedableRng};
use rand_chacha::ChaCha8Rng;

fn settlement(id: &str) -> Settlement {
    Settlement {
        id: id.to_string(),
        name: id.to_string(),
        legs: 3,
        pay_bonus_pct: 0,
        flavor: String::new(),
    }
}

fn npc(id: &str, name: &str) -> Npc {
    Npc {
        id: id.to_string(),
        name: name.to_string(),
        role: String::new(),
        faction: String::new(),
        persona: String::new(),
        barks: Vec::new(),
    }
}

fn content() -> ContentDb {
    ContentDb {
        settlements: vec![settlement("ashby"), settlement("brack"), settlement("cold")],
        npcs: vec![npc("hobbs", "Sergeant Hobbs"), npc("tansy", "Tansy Gale")],
        ..ContentDb::default()
    }
}

fn world(illicit: bool) -> WorldState {
    WorldState {
        tick: 40,
        cash_pence: 1_000,
        guild_suspicion: 6,
        runs_completed: 3,
        run: Run {
            contract: Contract {
                cargo: "tobacco".to_string(),
                dest_id: "ashby".to_string(),
                dest_name: "Ashby".to_string(),
                illicit,
            },
        },
        flags: FlagSet::new(),
        factions: Standings::new(),
        facts: Vec::new(),
        memories: Vec::new(),
        next_memory_id: 1,
        inquiry: None,
        rng: Dice::seeded(9),
    }
}

fn flags(names: &[&str]) -> FlagSet {
    let mut f = FlagSet::new();
    for n in names {
        f.insert(n.to_string());
    }
    f
}

fn attrs() -> FactAttrs {
    FactAttrs {
        actor: "cobb".to_string(),
        action: "gate_smashed".to_string(),
        location: "ashby".to_string(),
    }
}

fn entry(npc: &str, importance: i64, tick: i64) -> MemoryEntry {
    MemoryEntry {
        id: 0,
        npc: npc.to_string(),
        kind: "observation".to_string(),
        text: format!("{npc} {importance} {tick}"),
        fact_id: None,
        asserts: None,
        importance,
        tick,
    }
}

fn narrations(events: &[Event]) -> Vec<String> {
    events
        .iter()
        .map(|e| {
            let Event::Narration { text } = e;
            text.clone()
        })
        .collect()
}

// ------------------------------------------------------------------ witnesses

#[test]
fn deeds_have_witnesses() {
    assert_eq!(flag_witness("gate_smashed"), Some(("hobbs", 8, Some("tansy"))));
    assert_eq!(flag_witness("bribed_checkpoint"), Some(("hobbs", 6, Some("carver"))));
    assert_eq!(flag_witness("helped_traveller"), Some(("wray", 6, Some("tansy"))));
    assert_eq!(flag_witness("passed_traveller"), Some(("wray", 4, None)));
    assert_eq!(flag_witness("paid_carver"), Some(("carver", 5, None)));
    assert_eq!(flag_witness("refused_carver"), Some(("carver", 6, Some("tansy"))));
    assert_eq!(flag_witness("took_salvage"), Some(("tansy", 5, Some("finch"))));
    assert_eq!(flag_witness("ran_ambush"), Some(("carver", 5, None)));
    assert_eq!(flag_witness("yielded_to_pulver"), Some(("tansy", 3, None)));
    assert_eq!(flag_witness("shaken_down"), Some(("tansy", 3, None)));
    assert_eq!(flag_witness("took_drove_lane"), Some(("finch", 3, None)));
    assert_eq!(flag_witness("owes_form_4b"), Some(("finch", 4, Some("arthur"))));
    assert_eq!(flag_witness("whistled"), None);
}

#[test]
fn some_deeds_can_be_charged() {
    assert_eq!(
        chargeable("gate_smashed"),
        Some("wilful destruction of Collective property, to wit one pole")
    );
    assert_eq!(
        chargeable("took_salvage"),
        Some("appropriation of goods in transit, forty tins thereof")
    );
    assert!(chargeable("bribed_checkpoint").is_some() && chargeable("owes_form_4b").is_some());
    assert_eq!(chargeable("paid_carver"), None);
}

#[test]
fn deeds_are_put_in_words() {
    assert_eq!(
        memory_text("gate_smashed", &attrs(), false),
        "Cobb took the barrier pole off its bracket at speed, on the ashby road."
    );
    let mut other = attrs();
    other.actor = "one of Pulver's drivers".to_string();
    assert_eq!(
        memory_text("whistled", &other, true),
        "They say one of Pulver's drivers did something on the road, out by ashby."
    );
}

// ------------------------------------------------------------------- memories

#[test]
fn memories_are_numbered() {
    let mut w = world(false);
    add_memory(&mut w, entry("hobbs", 5, 1));
    add_memory(&mut w, entry("tansy", 5, 1));
    assert_eq!(w.memories.iter().map(|m| m.id).collect::<Vec<_>>(), vec![1, 2]);
    assert_eq!(w.next_memory_id, 3);
}

#[test]
fn the_most_forgettable_memory_goes() {
    let mut w = world(false);
    add_memory(&mut w, entry("tansy", 1, 0));
    for i in 0..MEMORIES_PER_NPC as i64 {
        add_memory(&mut w, entry("hobbs", if i == 4 || i == 7 { 2 } else { 5 }, i));
    }
    assert_eq!(w.memories.len(), MEMORIES_PER_NPC + 1);
    add_memory(&mut w, entry("hobbs", 9, 99));
    // Of the two that matter least, the older one; other people keep theirs.
    assert_eq!(w.memories.len(), MEMORIES_PER_NPC + 1);
    assert!(!w.memories.iter().any(|m| m.text == "hobbs 2 4"));
    assert!(w.memories.iter().any(|m| m.text == "hobbs 2 7"));
    assert!(w.memories.iter().any(|m| m.npc == "tansy"));
    // A memory that matters least is itself dropped.
    add_memory(&mut w, entry("hobbs", 1, 100));
    assert!(!w.memories.iter().any(|m| m.text == "hobbs 1 100"));
    assert!(w.memories.windows(2).all(|p| p[0].id < p[1].id));
}

#[test]
fn of_memories_that_matter_equally_the_oldest_goes() {
    let mut w = world(false);
    for i in 0..=MEMORIES_PER_NPC as i64 {
        add_memory(&mut w, entry("hobbs", 5, 10 + i));
    }
    assert_eq!(w.memories.len(), MEMORIES_PER_NPC);
    assert_eq!(w.memories[0].text, "hobbs 5 11");
    assert_eq!(w.memories.last().unwrap().text, "hobbs 5 40");
    // Of those that are as old, the first.
    let mut w = world(false);
    for _ in 0..=MEMORIES_PER_NPC {
        add_memory(&mut w, entry("hobbs", 5, 1));
    }
    assert_eq!(w.memories[0].id, 2);
}

#[test]
fn a_run_is_recorded() {
    let c = content();
    let mut w = world(false);
    record_run_memories(&mut w, &flags(&["gate_smashed", "paid_carver", "whistled"]), &c);
    assert_eq!(w.facts.len(), 2);
    assert_eq!(w.facts[0].fact_id, "run2-gate_smashed");
    assert_eq!(w.facts[0].attrs, attrs());
    assert_eq!(w.facts[1].fact_id, "run2-paid_carver");
    let kinds: Vec<(&str, &str, i64)> = w
        .memories
        .iter()
        .map(|m| (m.npc.as_str(), m.kind.as_str(), m.importance))
        .collect();
    assert_eq!(
        kinds,
        vec![("hobbs", "observation", 8), ("tansy", "gossip", 6), ("carver", "observation", 5)]
    );
    assert_eq!(w.memories[0].asserts, Some(attrs()));
    assert_eq!(w.memories[1].fact_id, Some("run2-gate_smashed".to_string()));
    assert_eq!(w.memories[1].tick, 40);
}

#[test]
fn illicit_runs_leave_a_note_with_arthur() {
    let c = content();
    let mut w = world(true);
    w.runs_completed = 0;
    record_run_memories(&mut w, &flags(&["passed_traveller"]), &c);
    assert_eq!(w.memories[0].npc, "arthur");
    assert_eq!(w.memories[0].text, "Cobb ran tobacco to Ashby and the docket never existed.");
    assert_eq!(w.memories[0].fact_id, None);
    assert_eq!(w.memories[0].importance, 3);
    assert_eq!(w.facts[0].fact_id, "run0-passed_traveller");
}

#[test]
fn the_record_only_grows() {
    let c = content();
    let mut w = world(false);
    record_run_memories(&mut w, &flags(&["gate_smashed", "ran_ambush"]), &c);
    let before = w.facts.clone();
    w.runs_completed = 4;
    record_run_memories(&mut w, &flags(&["took_salvage"]), &c);
    assert_eq!(w.facts[..before.len()].to_vec(), before);
    assert_eq!(w.facts[2].fact_id, "run3-took_salvage");
    // Those who saw it assert what the record says.
    for m in w.memories.iter().filter(|m| m.kind == "observation") {
        let fact = w.facts.iter().find(|f| Some(&f.fact_id) == m.fact_id.as_ref()).unwrap();
        assert_eq!(m.asserts.as_ref(), Some(&fact.attrs));
    }
}

#[test]
fn tales_get_one_thing_wrong() {
    let c = content();
    let a = attrs();
    assert_eq!(retell(&a, &c.settlements, 0, 0).location, "brack");
    assert_eq!(retell(&a, &c.settlements, 0, 1).location, "cold");
    assert_eq!(retell(&a, &c.settlements, 1, 0).actor, "one of Pulver's drivers");
    assert_eq!(retell(&a, &c.settlements, 2, 0), a);
    assert_eq!(retell(&a, &Vec::new(), 0, 0), a);
    assert!(!same_attrs(&retell(&a, &c.settlements, 0, 0), &a));
}

#[test]
fn tales_follow_the_generator() {
    let c = content();
    for seed in 0..60u64 {
        let mut w = world(false);
        w.rng = Dice::seeded(seed);
        let mut rng = ChaCha8Rng::seed_from_u64(seed);
        let turn = rng.gen_range(0..3);
        let pick = if turn == 0 { rng.gen_range(0..2usize) } else { 0 };
        let tale = tell(&mut w, &attrs(), &c.settlements);
        assert_eq!(tale, retell(&attrs(), &c.settlements, turn as u32, pick as u64));
        assert!(c.settlements.iter().any(|s| s.id == tale.location));
        assert_eq!(w.rng.word_pos, rng.get_word_pos());
    }
}

// ------------------------------------------------------------------- standings

#[test]
fn standings_move_within_bounds() {
    let mut s = Standings::new();
    assert_eq!(s.get("guild"), 0);
    s.shift("guild", 3);
    s.shift("carver", -2);
    s.shift("guild", 4);
    s.shift("carver", -9);
    s.shift("collective", 1);
    assert_eq!((s.get("guild"), s.get("carver"), s.get("collective")), (5, -5, 1));
    assert_eq!(s.get("nobody"), 0);
}

// -------------------------------------------------------------------- hearings

/// A world in which a smashed gate is remembered by one who saw it and by two
/// who were told it wrong.
fn summoned() -> WorldState {
    let mut w = world(false);
    w.facts.push(FactRec { fact_id: "run2-gate_smashed".to_string(), tick: 40, attrs: attrs() });
    let wrong = FactAttrs { location: "brack".to_string(), ..attrs() };
    for (npc, kind, asserts, importance) in [
        ("tansy", "gossip", Some(wrong.clone()), 6),
        ("hobbs", "observation", Some(attrs()), 8),
        ("wray", "gossip", Some(wrong), 4),
        ("zeb", "gossip", None, 1),
    ] {
        add_memory(
            &mut w,
            MemoryEntry {
                fact_id: Some("run2-gate_smashed".to_string()),
                kind: kind.to_string(),
                asserts,
                ..entry(npc, importance, 40)
            },
        );
    }
    assert!(maybe_convene(&mut w));
    w
}

fn answer(w: &mut WorldState, idx: usize) -> Vec<String> {
    let c = content();
    assert!(scene(w, &c).choices[idx].enabled);
    let mut events = Vec::new();
    take_choice(w, idx, &c, &mut events);
    narrations(&events)
}

#[test]
fn officialdom_needs_grounds_and_appetite() {
    let c = content();
    let mut w = world(false);
    assert!(!maybe_convene(&mut w));
    record_run_memories(&mut w, &flags(&["owes_form_4b", "took_salvage", "paid_carver"]), &c);
    w.guild_suspicion = 5;
    assert!(!maybe_convene(&mut w));
    w.guild_suspicion = 6;
    assert!(maybe_convene(&mut w));
    // The graver of the two that can be charged.
    let inq = w.inquiry.as_ref().unwrap();
    assert_eq!(inq.case.attrs.action, "took_salvage");
    assert_eq!(inq.charge, "appropriation of goods in transit, forty tins thereof");
    assert_eq!(inq.witnesses, vec!["finch", "tansy"]);
    assert!(w.flags.contains("tried_run2-took_salvage"));
    assert!(!maybe_convene(&mut w));
    w.inquiry = None;
    assert!(maybe_convene(&mut w));
    assert_eq!(w.inquiry.as_ref().unwrap().case.attrs.action, "owes_form_4b");
    w.inquiry = None;
    assert!(!maybe_convene(&mut w));
}

#[test]
fn a_fact_that_nobody_remembers_is_not_tried() {
    let mut w = world(false);
    w.facts.push(FactRec { fact_id: "x".to_string(), tick: 1, attrs: attrs() });
    assert!(!maybe_convene(&mut w));
}

#[test]
fn at_most_four_witnesses_are_called() {
    let mut w = world(false);
    w.facts.push(FactRec { fact_id: "x".to_string(), tick: 1, attrs: attrs() });
    for n in ["f", "b", "e", "b", "a", "d"] {
        add_memory(&mut w, MemoryEntry { fact_id: Some("x".to_string()), ..entry(n, 5, 1) });
    }
    assert!(maybe_convene(&mut w));
    assert_eq!(w.inquiry.as_ref().unwrap().witnesses, vec!["a", "b", "d", "e"]);
}

#[test]
fn a_hearing_runs_its_course() {
    let c = content();
    let mut w = summoned();
    let s = scene(&w, &c);
    assert_eq!(s.title, "A Summons, in Triplicate");
    assert_eq!(
        s.body[1],
        "Overleaf: wilful destruction of Collective property, to wit one pole."
    );
    answer(&mut w, 0);
    let s = scene(&w, &c);
    assert_eq!(s.title, "The Corn Exchange — The Brief");
    assert_eq!(s.body[2], "WITNESSES CALLED: Sergeant Hobbs; Tansy Gale; wray; zeb.");
    answer(&mut w, 0);
    assert_eq!(scene(&w, &c).choices.len(), 5);

    // Question Tansy, who has it wrong.
    answer(&mut w, 1);
    let s = scene(&w, &c);
    assert_eq!(s.title, "The Witness: Tansy Gale");
    assert_eq!(s.body[1], "\"tansy 6 40\"");
    answer(&mut w, 0);
    let s = scene(&w, &c);
    assert!(!s.choices[1].enabled);
    assert_eq!(s.body[2], "1. Tansy Gale (gossip): \"tansy 6 40\"");
    assert_eq!(s.choices[4].label, "Challenge Tansy Gale's account against the record");
    let said = answer(&mut w, 4);
    assert_eq!(
        said,
        vec![
            "The record is consulted. The record disagrees with Tansy Gale. Finch stamps \
             something with feeling."
        ]
    );
    assert_eq!(w.inquiry.as_ref().unwrap().credibility, 1);
    let s = scene(&w, &c);
    assert!(s.body[2].ends_with("[CONTRADICTION ESTABLISHED]"));
    assert!(!s.choices[4].enabled);

    // Question Hobbs, who was there.
    answer(&mut w, 0);
    answer(&mut w, 0);
    answer(&mut w, 5);
    assert_eq!(w.inquiry.as_ref().unwrap().credibility, 0);
    assert!(scene(&w, &c).body[3].ends_with("[challenge failed]"));

    // Zeb has no version of their own, so the record agrees.
    answer(&mut w, 3);
    answer(&mut w, 0);
    assert_eq!(w.inquiry.as_ref().unwrap().claims[2].asserts, attrs());

    // The verdict.
    answer(&mut w, 7);
    let s = scene(&w, &c);
    assert_eq!(s.title, "The Determination");
    assert_eq!(s.body[1], "Contradictions established: 1.");
    assert!(s.choices[0].enabled && !s.choices[1].enabled && !s.choices[2].enabled);
    answer(&mut w, 0);
    assert_eq!(w.cash_pence, 400);
    assert_eq!(w.guild_suspicion, 3);
    let s = scene(&w, &c);
    assert_eq!(s.title, "The Record");
    assert_eq!(
        s.body[0],
        "FINDING: fault determined. Fine of £2 10s paid into the provisional fund, receipted in \
         triplicate."
    );
    let said = answer(&mut w, 0);
    assert_eq!(said, vec!["The corn exchange empties. Wychford pretends it wasn't listening."]);
    assert!(w.inquiry.is_none());
    let mut events = Vec::new();
    take_choice(&mut w, 0, &c, &mut events);
    assert!(events.is_empty());
    assert!(!maybe_convene(&mut w));
}

#[test]
fn two_contradictions_win_a_dismissal() {
    let c = content();
    let mut w = summoned();
    let canon = format!("{:?} {:?} {:?}", w.memories, w.facts, w.rng);
    answer(&mut w, 0);
    answer(&mut w, 0);
    for witness in [1, 2] {
        answer(&mut w, witness);
        answer(&mut w, 0);
    }
    answer(&mut w, 4);
    answer(&mut w, 5);
    assert_eq!(w.inquiry.as_ref().unwrap().credibility, 2);
    answer(&mut w, 6);
    assert!(scene(&w, &c).choices.iter().all(|x| x.enabled));
    answer(&mut w, 2);
    assert_eq!(w.guild_suspicion, 1);
    assert_eq!(w.factions.get("collective"), 1);
    assert_eq!(w.cash_pence, 1_000);
    assert_eq!(canon, format!("{:?} {:?} {:?}", w.memories, w.facts, w.rng));
    assert_eq!(w.inquiry.clone(), w.inquiry);
    assert_eq!(w.memories.clone(), w.memories);
    assert!(matches!(&w.inquiry.as_ref().unwrap().stage, InqStage::Closed { lines } if lines.len() == 2));
}

#[test]
fn blame_can_be_shifted() {
    let mut w = world(false);
    w.guild_suspicion = 3;
    let lines = pass_verdict(&mut w, 1);
    assert_eq!(lines.len(), 2);
    assert!(lines[0].starts_with("FINDING: fault determined against persons unknown"));
    assert_eq!(w.guild_suspicion, 0);
    assert_eq!(w.factions.get("carver"), -1);
    assert!(w.flags.contains("framed_pulver"));
}

#[test]
fn the_fine_is_all_there_is() {
    let mut w = world(false);
    w.cash_pence = 45;
    let lines = pass_verdict(&mut w, 0);
    assert_eq!(w.cash_pence, 0);
    assert!(lines[0].contains("Fine of 3s 9d paid"));
}

#[test]
fn names_fall_back_to_ids() {
    let c = content();
    assert_eq!(npc_name(&c, "hobbs"), "Sergeant Hobbs");
    assert_eq!(npc_name(&c, "zeb"), "zeb");
}
