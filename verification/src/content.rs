//! The content model: settlements, terrains, cargoes, people and storylets,
//! with the checks that a boot must pass.

use vstd::prelude::*;
use vstd::string::*;

use crate::flags::{
    ascending, inserted_all, lemma_ascending_no_duplicates, lemma_inserted_all, FlagSet,
};
use crate::text::{dec, decimal_u64, join_texts, joined, lemma_views_push, same_text, views, Text};

verus! {

// --------------------------------------------------------------------- model

/// Everything authored.
#[derive(Clone, Debug, Default, PartialEq)]
pub struct ContentDb {
    pub settlements: Vec<Settlement>,
    pub terrains: Vec<Terrain>,
    pub cargoes: Vec<Cargo>,
    pub storylets: Vec<Storylet>,
    pub npcs: Vec<Npc>,
    pub banned_phrases: Vec<String>,
}

#[derive(Clone, Debug, PartialEq)]
pub struct Settlement {
    pub id: String,
    pub name: String,
    /// Road legs from Wychford = number of beats on a run there (3..=5).
    pub legs: u32,
    /// Payment multiplier, percent.
    pub pay_bonus_pct: i64,
    pub flavor: String,
}

/// The country a run crosses, with the toll it takes on each leg.
#[derive(Clone, Debug, PartialEq)]
pub struct Terrain {
    pub id: String,
    pub name: String,
    pub flavor: String,
    /// Number of legs, and so of beats, on a run across it (3..=5).
    pub legs: u32,
    pub start_fuel_l: i64,
    pub max_fuel_l: i64,
    pub leg_fuel_l: i64,
    pub start_wear: i64,
    /// Added to the difficulty of every test.
    pub dc_mod: i64,
    pub heat_per_leg: i64,
    pub wear_per_leg: i64,
}

#[derive(Clone, Debug, PartialEq)]
pub struct Cargo {
    pub name: String,
    pub qty_desc: String,
    pub base_pay_pence: i64,
    pub illicit: bool,
}

#[derive(Clone, Debug, PartialEq)]
pub struct Npc {
    pub id: String,
    pub name: String,
    pub role: String,
    pub faction: String,
    /// Character card for dialogue prompts.
    pub persona: String,
    /// Authored fallback lines.
    pub barks: Vec<String>,
}

#[derive(Clone, Debug, PartialEq)]
pub struct Storylet {
    pub id: String,
    /// Beat family; one beat per template per run.
    pub template: String,
    pub weight: u32,
    pub requires: Gates,
    pub title: String,
    pub body: Vec<String>,
    pub choices: Vec<SChoice>,
}

/// All gates are ANDed; absent = pass. Numeric gates are inclusive bounds. The
/// gates on suspicion, destination, completed runs and factions speak of the
/// persistent world; a single run has none of these and is let past them.
#[derive(Clone, Debug, Default, PartialEq)]
pub struct Gates {
    pub min_suspicion: Option<i64>,
    pub max_suspicion: Option<i64>,
    pub min_heat: Option<i64>,
    pub max_heat: Option<i64>,
    pub min_wear: Option<i64>,
    pub max_wear: Option<i64>,
    pub illicit: Option<bool>,
    pub flag: Option<String>,
    pub not_flag: Option<String>,
    pub dest: Option<String>,
    pub min_runs: Option<u32>,
    pub faction_rep_max: Option<FactionGate>,
    pub faction_rep_min: Option<FactionGate>,
    /// Terrain ids; empty = any.
    pub terrains: Vec<String>,
}

#[derive(Clone, Debug, PartialEq)]
pub struct FactionGate {
    pub faction: String,
    pub value: i64,
}

#[derive(Clone, Debug, PartialEq)]
pub struct SChoice {
    pub label: String,
    /// Disabled (greyed, with note) unless Cobb can cover it.
    pub requires_cash: Option<i64>,
    pub test: Option<Test>,
    /// Effects + outcome prose. With a test these are the pass branch.
    pub effects: Effects,
    pub outcome: String,
    /// Fail branch (tests only).
    pub fail_effects: Option<Effects>,
    pub fail_outcome: Option<String>,
}

#[derive(Clone, Debug, PartialEq)]
pub struct Test {
    /// "paperwork" | "spanners" | "charm"
    pub skill: String,
    pub dc: i64,
    /// DC += wear / this (truck-dependent difficulty).
    pub dc_wear_div: Option<i64>,
    /// DC += this when suspicion is 4 or more.
    pub dc_susp_bump: Option<i64>,
    /// DC += this when heat is 4 or more.
    pub dc_heat_bump: Option<i64>,
}

/// What a choice does. Suspicion, ticks and factions belong to the persistent
/// world; a single run takes the rest.
#[derive(Clone, Debug, Default, PartialEq)]
pub struct Effects {
    pub cash: Option<i64>,
    pub fuel_ml: Option<i64>,
    pub wear: Option<i64>,
    pub suspicion: Option<i64>,
    pub heat: Option<i64>,
    pub ticks: Option<i64>,
    pub flag: Option<String>,
    /// Payment adjustment at delivery, percent (spoilage, sweeteners).
    pub payment_pct: Option<i64>,
    pub faction: Option<String>,
    pub faction_delta: Option<i64>,
    pub lose_cargo: Option<bool>,
}

/// The weight of a storylet that states none.
pub fn default_weight() -> (r: u32)
    ensures
        r == 1,
{
    1
}

/// The skills that a test may name.
pub const SKILLS: [&'static str; 3] = ["paperwork", "spanners", "charm"];

/// The factions that an effect or a gate may name.
pub const FACTIONS: [&'static str; 3] = ["collective", "guild", "carver"];

/// Whether `name` is a skill.
pub open spec fn is_skill(name: Text) -> bool {
    name == SKILLS[0]@ || name == SKILLS[1]@ || name == SKILLS[2]@
}

/// Whether `name` is a faction.
pub open spec fn is_faction(name: Text) -> bool {
    name == FACTIONS[0]@ || name == FACTIONS[1]@ || name == FACTIONS[2]@
}

/// Whether `name` is one of the skills.
pub fn known_skill(name: &str) -> (r: bool)
    ensures
        r == is_skill(name@),
{
    same_text(name, SKILLS[0]) || same_text(name, SKILLS[1]) || same_text(name, SKILLS[2])
}

/// Whether `name` is a faction.
pub fn known_faction(name: &str) -> (r: bool)
    ensures
        r == is_faction(name@),
{
    same_text(name, FACTIONS[0]) || same_text(name, FACTIONS[1]) || same_text(name, FACTIONS[2])
}

// ---------------------------------------------------------------- validation

/// `msg` if `cond` holds, else nothing.
pub open spec fn note(cond: bool, msg: Text) -> Seq<Text> {
    if cond {
        seq![msg]
    } else {
        Seq::empty()
    }
}

fn complain(errs: &mut Vec<String>, cond: bool, msg: String)
    ensures
        views(final(errs)@) == views(old(errs)@) + note(cond, msg@),
{
    if cond {
        proof {
            lemma_views_push(errs@, msg);
        }
        errs.push(msg);
    }
    assert(views(errs@) =~= views(old(errs)@) + note(cond, msg@));
}

/// Complaints about the leg counts of the first `n` settlements.
pub open spec fn settlement_errors(settlements: Seq<Settlement>, n: int) -> Seq<Text>
    decreases n,
{
    if n <= 0 {
        Seq::empty()
    } else {
        let s = settlements[n - 1];
        settlement_errors(settlements, n - 1) + legs_error(s)
    }
}

/// Complaint about the leg count of a settlement: one that no road has, or one
/// that makes too short or too long a run.
pub open spec fn legs_error(s: Settlement) -> Seq<Text> {
    if !(1 <= s.legs <= 8) {
        seq!["settlement "@ + s.id@ + ": legs must be 1..=8"@]
    } else {
        note(!(3 <= s.legs <= 5), "settlement "@ + s.id@ + ": a run there takes 3..=5 legs"@)
    }
}

/// Complaints about the leg counts of the first `n` terrains.
pub open spec fn terrain_errors(terrains: Seq<Terrain>, n: int) -> Seq<Text>
    decreases n,
{
    if n <= 0 {
        Seq::empty()
    } else {
        let t = terrains[n - 1];
        terrain_errors(terrains, n - 1) + note(
            !(3 <= t.legs <= 5),
            "terrain "@ + t.id@ + ": a run across it takes 3..=5 legs"@,
        )
    }
}

/// "storylet <id> choice <i>"
pub open spec fn choice_place(id: Text, i: int) -> Text {
    "storylet "@ + id + " choice "@ + dec(i)
}

/// Complaint about an effect that names a faction nobody knows.
pub open spec fn faction_error(id: Text, i: int, faction: Option<String>) -> Seq<Text> {
    match faction {
        Some(f) => note(!is_faction(f@), choice_place(id, i) + ": unknown faction "@ + f@),
        None => Seq::empty(),
    }
}

/// The faction that the fail branch names.
pub open spec fn fail_faction(c: SChoice) -> Option<String> {
    match c.fail_effects {
        Some(e) => e.faction,
        None => None,
    }
}

/// Complaints about the test of a choice.
pub open spec fn test_errors(id: Text, i: int, c: SChoice) -> Seq<Text> {
    match c.test {
        Some(t) => note(
            !is_skill(t.skill@),
            choice_place(id, i) + ": unknown skill "@ + t.skill@,
        ) + note(c.fail_outcome is None, choice_place(id, i) + ": test without fail_outcome"@),
        None => Seq::empty(),
    }
}

/// Complaints about choice `i` of the storylet `id`.
pub open spec fn choice_errors(id: Text, i: int, c: SChoice) -> Seq<Text> {
    test_errors(id, i, c) + faction_error(id, i, c.effects.faction) + faction_error(
        id,
        i,
        fail_faction(c),
    )
}

/// Complaints about the first `n` choices of the storylet `id`.
pub open spec fn choices_errors(id: Text, choices: Seq<SChoice>, n: int) -> Seq<Text>
    decreases n,
{
    if n <= 0 {
        Seq::empty()
    } else {
        choices_errors(id, choices, n - 1) + choice_errors(id, n - 1, choices[n - 1])
    }
}

/// Whether an earlier storylet has the id of storylet `k`.
pub open spec fn repeats_id(storylets: Seq<Storylet>, k: int) -> bool {
    exists|j: int| 0 <= j < k && (#[trigger] storylets[j]).id@ == storylets[k].id@
}

/// Whether some settlement has the id `id`.
pub open spec fn is_settlement(settlements: Seq<Settlement>, id: Text) -> bool {
    exists|j: int| 0 <= j < settlements.len() && (#[trigger] settlements[j]).id@ == id
}

/// Complaint about a destination gate that names no settlement.
pub open spec fn dest_error(settlements: Seq<Settlement>, st: Storylet) -> Seq<Text> {
    match st.requires.dest {
        Some(d) => note(
            !is_settlement(settlements, d@),
            "storylet "@ + st.id@ + ": unknown dest gate "@ + d@,
        ),
        None => Seq::empty(),
    }
}

/// Complaint about a gate on the standing with a faction nobody knows.
pub open spec fn faction_gate_error(id: Text, gate: Option<FactionGate>) -> Seq<Text> {
    match gate {
        Some(g) => note(
            !is_faction(g.faction@),
            "storylet "@ + id + ": unknown faction gate "@ + g.faction@,
        ),
        None => Seq::empty(),
    }
}

/// Whether some terrain has the id `id`.
pub open spec fn is_terrain(terrains: Seq<Terrain>, id: Text) -> bool {
    exists|j: int| 0 <= j < terrains.len() && (#[trigger] terrains[j]).id@ == id
}

/// Complaints about the first `n` terrain gates of the storylet `id` that name
/// no terrain.
pub open spec fn terrain_gate_errors(
    terrains: Seq<Terrain>,
    id: Text,
    gates: Seq<String>,
    n: int,
) -> Seq<Text>
    decreases n,
{
    if n <= 0 {
        Seq::empty()
    } else {
        terrain_gate_errors(terrains, id, gates, n - 1) + note(
            !is_terrain(terrains, gates[n - 1]@),
            "storylet "@ + id + ": unknown terrain gate "@ + gates[n - 1]@,
        )
    }
}

/// Complaints about the gates of a storylet.
pub open spec fn gate_errors(
    settlements: Seq<Settlement>,
    terrains: Seq<Terrain>,
    st: Storylet,
) -> Seq<Text> {
    dest_error(settlements, st) + faction_gate_error(st.id@, st.requires.faction_rep_max)
        + faction_gate_error(st.id@, st.requires.faction_rep_min) + terrain_gate_errors(
        terrains,
        st.id@,
        st.requires.terrains@,
        st.requires.terrains@.len() as int,
    )
}

/// Complaints about storylet `k`.
pub open spec fn storylet_errors(
    settlements: Seq<Settlement>,
    terrains: Seq<Terrain>,
    storylets: Seq<Storylet>,
    k: int,
) -> Seq<Text> {
    let st = storylets[k];
    note(repeats_id(storylets, k), "duplicate storylet id "@ + st.id@) + note(
        st.choices@.len() == 0,
        "storylet "@ + st.id@ + ": no choices"@,
    ) + gate_errors(settlements, terrains, st) + choices_errors(
        st.id@,
        st.choices@,
        st.choices@.len() as int,
    )
}

/// Complaints about the first `n` storylets.
pub open spec fn storylets_errors(
    settlements: Seq<Settlement>,
    terrains: Seq<Terrain>,
    storylets: Seq<Storylet>,
    n: int,
) -> Seq<Text>
    decreases n,
{
    if n <= 0 {
        Seq::empty()
    } else {
        storylets_errors(settlements, terrains, storylets, n - 1) + storylet_errors(
            settlements,
            terrains,
            storylets,
            n - 1,
        )
    }
}

/// The templates of the storylets, in order.
pub open spec fn templates(storylets: Seq<Storylet>) -> Seq<Text> {
    storylets.map_values(|st: Storylet| st.template@)
}

/// All that is wrong with the content, in the order in which it is reported.
pub open spec fn content_errors(
    settlements: Seq<Settlement>,
    terrains: Seq<Terrain>,
    cargoes: Seq<Cargo>,
    storylets: Seq<Storylet>,
) -> Seq<Text> {
    note(settlements.len() == 0, "no settlements defined"@) + note(
        cargoes.len() == 0,
        "no cargoes defined"@,
    ) + settlement_errors(settlements, settlements.len() as int) + terrain_errors(
        terrains,
        terrains.len() as int,
    ) + storylets_errors(
        settlements,
        terrains,
        storylets,
        storylets.len() as int,
    ) + note(
        storylets.len() > 0 && templates(storylets).to_set().len() < 3,
        "fewer than 3 beat templates; runs will repeat"@,
    )
}

/// All that is wrong with the content of a database.
pub open spec fn db_errors(db: ContentDb) -> Seq<Text> {
    content_errors(db.settlements@, db.terrains@, db.cargoes@, db.storylets@)
}

fn check_faction(id: &str, i: usize, faction: &Option<String>, errs: &mut Vec<String>)
    ensures
        views(final(errs)@) == views(old(errs)@) + faction_error(id@, i as int, *faction),
{
    match faction {
        Some(f) => {
            let place = name_choice(id, i);
            complain(
                errs,
                !known_faction(f.as_str()),
                place.concat(": unknown faction ").concat(f.as_str()),
            );
        },
        None => {
            assert(views(errs@) =~= views(errs@) + Seq::<Text>::empty());
        },
    }
}

fn name_choice(id: &str, i: usize) -> (r: String)
    ensures
        r@ == choice_place(id@, i as int),
{
    "storylet ".to_string().concat(id).concat(" choice ").concat(decimal_u64(i as u64).as_str())
}

fn check_choice(id: &str, i: usize, c: &SChoice, errs: &mut Vec<String>)
    ensures
        views(final(errs)@) == views(old(errs)@) + choice_errors(id@, i as int, *c),
{
    let ghost start = views(errs@);
    match &c.test {
        Some(t) => {
            complain(
                errs,
                !known_skill(t.skill.as_str()),
                name_choice(id, i).concat(": unknown skill ").concat(t.skill.as_str()),
            );
            complain(
                errs,
                c.fail_outcome.is_none(),
                name_choice(id, i).concat(": test without fail_outcome"),
            );
        },
        None => {},
    }
    assert(views(errs@) =~= start + test_errors(id@, i as int, *c));
    check_faction(id, i, &c.effects.faction, errs);
    match &c.fail_effects {
        Some(e) => {
            check_faction(id, i, &e.faction, errs);
        },
        None => {},
    }
    assert(views(errs@) =~= start + choice_errors(id@, i as int, *c));
}

fn check_faction_gate(id: &str, gate: &Option<FactionGate>, errs: &mut Vec<String>)
    ensures
        views(final(errs)@) == views(old(errs)@) + faction_gate_error(id@, *gate),
{
    match gate {
        Some(g) => {
            complain(
                errs,
                !known_faction(g.faction.as_str()),
                "storylet ".to_string().concat(id).concat(": unknown faction gate ").concat(
                    g.faction.as_str(),
                ),
            );
        },
        None => {
            assert(views(errs@) =~= views(errs@) + Seq::<Text>::empty());
        },
    }
}

fn known_terrain(terrains: &Vec<Terrain>, id: &str) -> (r: bool)
    ensures
        r == is_terrain(terrains@, id@),
{
    let mut j: usize = 0;
    while j < terrains.len()
        invariant
            j <= terrains@.len(),
            forall|q: int| 0 <= q < j ==> (#[trigger] terrains@[q]).id@ != id@,
        decreases terrains@.len() - j,
    {
        if same_text(terrains[j].id.as_str(), id) {
            assert(terrains@[j as int].id@ == id@);
            return true;
        }
        j += 1;
    }
    false
}

fn check_gates(db: &ContentDb, st: &Storylet, errs: &mut Vec<String>)
    ensures
        views(final(errs)@) == views(old(errs)@) + gate_errors(
            db.settlements@,
            db.terrains@,
            *st,
        ),
{
    let ghost start = views(errs@);
    let id = st.id.as_str();
    match &st.requires.dest {
        Some(d) => {
            complain(
                errs,
                !known_settlement(&db.settlements, d.as_str()),
                "storylet ".to_string().concat(id).concat(": unknown dest gate ").concat(
                    d.as_str(),
                ),
            );
        },
        None => {},
    }
    assert(views(errs@) =~= start + dest_error(db.settlements@, *st));
    check_faction_gate(id, &st.requires.faction_rep_max, errs);
    check_faction_gate(id, &st.requires.faction_rep_min, errs);
    let ghost gates = st.requires.terrains@;
    let ghost head = dest_error(db.settlements@, *st) + faction_gate_error(
        st.id@,
        st.requires.faction_rep_max,
    ) + faction_gate_error(st.id@, st.requires.faction_rep_min);
    assert(views(errs@) =~= start + (head + terrain_gate_errors(db.terrains@, st.id@, gates, 0)));
    let mut i: usize = 0;
    while i < st.requires.terrains.len()
        invariant
            id@ == st.id@,
            gates == st.requires.terrains@,
            i <= gates.len(),
            views(errs@) == start + (head + terrain_gate_errors(
                db.terrains@,
                st.id@,
                gates,
                i as int,
            )),
        decreases gates.len() - i,
    {
        let t = st.requires.terrains[i].as_str();
        complain(
            errs,
            !known_terrain(&db.terrains, t),
            "storylet ".to_string().concat(id).concat(": unknown terrain gate ").concat(t),
        );
        assert(views(errs@) =~= start + (head + terrain_gate_errors(
            db.terrains@,
            st.id@,
            gates,
            i + 1,
        )));
        i += 1;
    }
}

fn check_legs(s: &Settlement, errs: &mut Vec<String>)
    ensures
        views(final(errs)@) == views(old(errs)@) + legs_error(*s),
{
    let place = "settlement ".to_string().concat(s.id.as_str());
    if !(1 <= s.legs && s.legs <= 8) {
        complain(errs, true, place.concat(": legs must be 1..=8"));
    } else {
        complain(
            errs,
            !(3 <= s.legs && s.legs <= 5),
            place.concat(": a run there takes 3..=5 legs"),
        );
    }
}

fn check_storylet(db: &ContentDb, k: usize, errs: &mut Vec<String>)
    requires
        k < db.storylets@.len(),
    ensures
        views(final(errs)@) == views(old(errs)@) + storylet_errors(
            db.settlements@,
            db.terrains@,
            db.storylets@,
            k as int,
        ),
{
    let ghost start = views(errs@);
    let st = &db.storylets[k];
    let id = st.id.as_str();
    let mut seen = false;
    let mut j: usize = 0;
    while j < k
        invariant
            j <= k < db.storylets@.len(),
            id@ == db.storylets@[k as int].id@,
            seen == (exists|q: int|
                0 <= q < j && (#[trigger] db.storylets@[q]).id@ == db.storylets@[k as int].id@),
        decreases k - j,
    {
        if same_text(db.storylets[j].id.as_str(), id) {
            seen = true;
        }
        j += 1;
    }
    assert(seen == repeats_id(db.storylets@, k as int));
    complain(errs, seen, "duplicate storylet id ".to_string().concat(id));
    complain(
        errs,
        st.choices.len() == 0,
        "storylet ".to_string().concat(id).concat(": no choices"),
    );
    check_gates(db, st, errs);
    let ghost head = note(
        repeats_id(db.storylets@, k as int),
        "duplicate storylet id "@ + st.id@,
    ) + note(st.choices@.len() == 0, "storylet "@ + st.id@ + ": no choices"@) + gate_errors(
        db.settlements@,
        db.terrains@,
        *st,
    );
    assert(views(errs@) =~= start + head);
    let mut i: usize = 0;
    assert(start + head =~= start + (head + choices_errors(id@, st.choices@, 0)));
    while i < st.choices.len()
        invariant
            i <= st.choices@.len(),
            id@ == st.id@,
            views(errs@) == start + (head + choices_errors(st.id@, st.choices@, i as int)),
        decreases st.choices@.len() - i,
    {
        check_choice(id, i, &st.choices[i], errs);
        assert(views(errs@) =~= start + (head + choices_errors(st.id@, st.choices@, i + 1)));
        i += 1;
    }
}

fn known_settlement(settlements: &Vec<Settlement>, id: &str) -> (r: bool)
    ensures
        r == is_settlement(settlements@, id@),
{
    let mut j: usize = 0;
    while j < settlements.len()
        invariant
            j <= settlements@.len(),
            forall|q: int| 0 <= q < j ==> (#[trigger] settlements@[q]).id@ != id@,
        decreases settlements@.len() - j,
    {
        if same_text(settlements[j].id.as_str(), id) {
            assert(settlements@[j as int].id@ == id@);
            return true;
        }
        j += 1;
    }
    false
}

/// The number of different texts among `ts`, by way of their ascending set.
proof fn lemma_inserted_all_counts(ts: Seq<Text>)
    ensures
        ascending(inserted_all(Seq::empty(), ts)),
        inserted_all(Seq::empty(), ts).len() == ts.to_set().len(),
{
    lemma_inserted_all(ts);
    let r = inserted_all(Seq::empty(), ts);
    lemma_ascending_no_duplicates(r);
    r.unique_seq_to_set();
    assert(r.to_set() =~= ts.to_set());
}

fn count_templates(storylets: &Vec<Storylet>) -> (r: usize)
    ensures
        r == templates(storylets@).to_set().len(),
{
    let mut set = FlagSet::new();
    let mut k: usize = 0;
    let ghost all = templates(storylets@);
    while k < storylets.len()
        invariant
            k <= storylets@.len(),
            all == templates(storylets@),
            set@ == inserted_all(Seq::empty(), all.take(k as int)),
        decreases storylets@.len() - k,
    {
        set.insert(storylets[k].template.clone());
        assert(all.take(k + 1).drop_last() =~= all.take(k as int));
        k += 1;
    }
    assert(all.take(k as int) =~= all);
    proof {
        lemma_inserted_all_counts(all);
    }
    set.len()
}

/// Checks the content. The error lists every complaint, one to a line.
pub fn validate(db: &ContentDb) -> (r: Result<(), String>)
    ensures
        match r {
            Ok(_) => db_errors(*db).len() == 0,
            Err(e) => {
                &&& db_errors(*db).len() > 0
                &&& e@ == joined(db_errors(*db), "\n"@)
            },
        },
{
    let mut errs: Vec<String> = Vec::new();
    assert(views(errs@) =~= Seq::empty());
    complain(&mut errs, db.settlements.len() == 0, "no settlements defined".to_string());
    complain(&mut errs, db.cargoes.len() == 0, "no cargoes defined".to_string());
    let ghost head = note(db.settlements@.len() == 0, "no settlements defined"@) + note(
        db.cargoes@.len() == 0,
        "no cargoes defined"@,
    );
    assert(views(errs@) =~= head + settlement_errors(db.settlements@, 0));
    let mut i: usize = 0;
    while i < db.settlements.len()
        invariant
            i <= db.settlements@.len(),
            views(errs@) == head + settlement_errors(db.settlements@, i as int),
        decreases db.settlements@.len() - i,
    {
        check_legs(&db.settlements[i], &mut errs);
        assert(views(errs@) =~= head + settlement_errors(db.settlements@, i + 1));
        i += 1;
    }
    let ghost placed = head + settlement_errors(db.settlements@, i as int);
    assert(placed =~= placed + terrain_errors(db.terrains@, 0));
    let mut j: usize = 0;
    while j < db.terrains.len()
        invariant
            j <= db.terrains@.len(),
            views(errs@) == placed + terrain_errors(db.terrains@, j as int),
        decreases db.terrains@.len() - j,
    {
        let t = &db.terrains[j];
        complain(
            &mut errs,
            !(3 <= t.legs && t.legs <= 5),
            "terrain ".to_string().concat(t.id.as_str()).concat(
                ": a run across it takes 3..=5 legs",
            ),
        );
        assert(views(errs@) =~= placed + terrain_errors(db.terrains@, j + 1));
        j += 1;
    }
    let ghost mid = placed + terrain_errors(db.terrains@, j as int);
    let mut k: usize = 0;
    assert(mid =~= mid + storylets_errors(db.settlements@, db.terrains@, db.storylets@, 0));
    while k < db.storylets.len()
        invariant
            k <= db.storylets@.len(),
            views(errs@) == mid + storylets_errors(db.settlements@, db.terrains@, db.storylets@, k as int),
        decreases db.storylets@.len() - k,
    {
        check_storylet(db, k, &mut errs);
        assert(views(errs@) =~= mid + storylets_errors(db.settlements@, db.terrains@, db.storylets@, k + 1));
        k += 1;
    }
    let count = count_templates(&db.storylets);
    complain(
        &mut errs,
        count < 3 && db.storylets.len() > 0,
        "fewer than 3 beat templates; runs will repeat".to_string(),
    );
    assert(views(errs@) =~= db_errors(*db));
    if errs.len() == 0 {
        Ok(())
    } else {
        Err(join_texts(&errs, "\n"))
    }
}

// ----------------------------------------------------------------------- laws

/// What may be relied on of content that validates: there is somewhere to go
/// and something to carry, every road is three to five legs long, and every
/// storylet has an id of its own, something to choose, and no gate, test or
/// effect that names what is not there.
pub open spec fn sound(
    settlements: Seq<Settlement>,
    terrains: Seq<Terrain>,
    cargoes: Seq<Cargo>,
    storylets: Seq<Storylet>,
) -> bool {
    &&& settlements.len() > 0
    &&& cargoes.len() > 0
    &&& forall|i: int| 0 <= i < settlements.len() ==> 3 <= (#[trigger] settlements[i]).legs <= 5
    &&& forall|i: int| 0 <= i < terrains.len() ==> 3 <= (#[trigger] terrains[i]).legs <= 5
    &&& forall|k: int| 0 <= k < storylets.len() ==> storylet_sound(settlements, terrains, storylets, k)
    &&& (storylets.len() > 0 ==> templates(storylets).to_set().len() >= 3)
}

/// Whether storylet `k` is sound.
pub open spec fn storylet_sound(
    settlements: Seq<Settlement>,
    terrains: Seq<Terrain>,
    storylets: Seq<Storylet>,
    k: int,
) -> bool {
    let st = storylets[k];
    &&& !repeats_id(storylets, k)
    &&& st.choices@.len() > 0
    &&& gates_sound(settlements, terrains, st)
    &&& forall|i: int| 0 <= i < st.choices@.len() ==> choice_sound(#[trigger] st.choices@[i])
}

/// Whether the gates of a storylet name what is there: a settlement, factions
/// and terrains.
pub open spec fn gates_sound(
    settlements: Seq<Settlement>,
    terrains: Seq<Terrain>,
    st: Storylet,
) -> bool {
    &&& (st.requires.dest matches Some(d) ==> is_settlement(settlements, d@))
    &&& (st.requires.faction_rep_max matches Some(g) ==> is_faction(g.faction@))
    &&& (st.requires.faction_rep_min matches Some(g) ==> is_faction(g.faction@))
    &&& forall|i: int|
        0 <= i < st.requires.terrains@.len() ==> is_terrain(
            terrains,
            (#[trigger] st.requires.terrains@[i])@,
        )
}

/// Whether a choice is sound: its test is of a skill and says what failing
/// comes to, and its effects name factions.
pub open spec fn choice_sound(c: SChoice) -> bool {
    &&& (c.test matches Some(t) ==> is_skill(t.skill@) && c.fail_outcome is Some)
    &&& (c.effects.faction matches Some(f) ==> is_faction(f@))
    &&& (fail_faction(c) matches Some(f) ==> is_faction(f@))
}

proof fn lemma_settlement_errors(settlements: Seq<Settlement>, n: int)
    requires
        0 <= n <= settlements.len(),
    ensures
        settlement_errors(settlements, n).len() == 0 <==> forall|i: int|
            0 <= i < n ==> 3 <= (#[trigger] settlements[i]).legs <= 5,
    decreases n,
{
    if n > 0 {
        lemma_settlement_errors(settlements, n - 1);
        let s = settlements[n - 1];
        assert(settlement_errors(settlements, n).len() == settlement_errors(
            settlements,
            n - 1,
        ).len() + if 3 <= s.legs <= 5 {
            0int
        } else {
            1
        });
    }
}

proof fn lemma_terrain_errors(terrains: Seq<Terrain>, n: int)
    requires
        0 <= n <= terrains.len(),
    ensures
        terrain_errors(terrains, n).len() == 0 <==> forall|i: int|
            0 <= i < n ==> 3 <= (#[trigger] terrains[i]).legs <= 5,
    decreases n,
{
    if n > 0 {
        lemma_terrain_errors(terrains, n - 1);
        let t = terrains[n - 1];
        assert(terrain_errors(terrains, n).len() == terrain_errors(terrains, n - 1).len()
            + if 3 <= t.legs <= 5 {
            0int
        } else {
            1
        });
    }
}

proof fn lemma_choices_errors(id: Text, choices: Seq<SChoice>, n: int)
    requires
        0 <= n <= choices.len(),
    ensures
        choices_errors(id, choices, n).len() == 0 <==> forall|i: int|
            0 <= i < n ==> choice_sound(#[trigger] choices[i]),
    decreases n,
{
    if n > 0 {
        lemma_choices_errors(id, choices, n - 1);
        let c = choices[n - 1];
        assert(choice_errors(id, n - 1, c).len() == test_errors(id, n - 1, c).len() + faction_error(
            id,
            n - 1,
            c.effects.faction,
        ).len() + faction_error(id, n - 1, fail_faction(c)).len());
        assert(choice_errors(id, n - 1, c).len() == 0 <==> choice_sound(c));
        assert(choices_errors(id, choices, n).len() == choices_errors(id, choices, n - 1).len()
            + choice_errors(id, n - 1, c).len());
    }
}

proof fn lemma_terrain_gate_errors(terrains: Seq<Terrain>, id: Text, gates: Seq<String>, n: int)
    requires
        0 <= n <= gates.len(),
    ensures
        terrain_gate_errors(terrains, id, gates, n).len() == 0 <==> forall|i: int|
            0 <= i < n ==> is_terrain(terrains, (#[trigger] gates[i])@),
    decreases n,
{
    if n > 0 {
        lemma_terrain_gate_errors(terrains, id, gates, n - 1);
        assert(terrain_gate_errors(terrains, id, gates, n).len() == terrain_gate_errors(
            terrains,
            id,
            gates,
            n - 1,
        ).len() + if is_terrain(terrains, gates[n - 1]@) {
            0int
        } else {
            1
        });
    }
}

proof fn lemma_gate_errors(settlements: Seq<Settlement>, terrains: Seq<Terrain>, st: Storylet)
    ensures
        gate_errors(settlements, terrains, st).len() == 0 <==> gates_sound(
            settlements,
            terrains,
            st,
        ),
{
    let gates = st.requires.terrains@;
    lemma_terrain_gate_errors(terrains, st.id@, gates, gates.len() as int);
    assert(gate_errors(settlements, terrains, st).len() == dest_error(settlements, st).len()
        + faction_gate_error(st.id@, st.requires.faction_rep_max).len() + faction_gate_error(
        st.id@,
        st.requires.faction_rep_min,
    ).len() + terrain_gate_errors(terrains, st.id@, gates, gates.len() as int).len());
}

proof fn lemma_storylets_errors(
    settlements: Seq<Settlement>,
    terrains: Seq<Terrain>,
    storylets: Seq<Storylet>,
    n: int,
)
    requires
        0 <= n <= storylets.len(),
    ensures
        storylets_errors(settlements, terrains, storylets, n).len() == 0 <==> forall|k: int|
            0 <= k < n ==> storylet_sound(settlements, terrains, storylets, k),
    decreases n,
{
    if n > 0 {
        lemma_storylets_errors(settlements, terrains, storylets, n - 1);
        let st = storylets[n - 1];
        lemma_choices_errors(st.id@, st.choices@, st.choices@.len() as int);
        lemma_gate_errors(settlements, terrains, st);
        let es = storylet_errors(settlements, terrains, storylets, n - 1);
        assert(es.len() == note(
            repeats_id(storylets, n - 1),
            "duplicate storylet id "@ + st.id@,
        ).len() + note(st.choices@.len() == 0, "storylet "@ + st.id@ + ": no choices"@).len()
            + gate_errors(settlements, terrains, st).len() + choices_errors(
            st.id@,
            st.choices@,
            st.choices@.len() as int,
        ).len());
        assert(es.len() == 0 <==> storylet_sound(settlements, terrains, storylets, n - 1));
        assert(storylets_errors(settlements, terrains, storylets, n).len() == storylets_errors(
            settlements,
            terrains,
            storylets,
            n - 1,
        ).len() + es.len());
    }
}

/// Content validates exactly where it is sound.
pub proof fn law_valid_content_is_sound(
    settlements: Seq<Settlement>,
    terrains: Seq<Terrain>,
    cargoes: Seq<Cargo>,
    storylets: Seq<Storylet>,
)
    ensures
        content_errors(settlements, terrains, cargoes, storylets).len() == 0 <==> sound(
            settlements,
            terrains,
            cargoes,
            storylets,
        ),
{
    lemma_settlement_errors(settlements, settlements.len() as int);
    lemma_terrain_errors(terrains, terrains.len() as int);
    lemma_storylets_errors(settlements, terrains, storylets, storylets.len() as int);
    assert(content_errors(settlements, terrains, cargoes, storylets).len() == note(
        settlements.len() == 0,
        "no settlements defined"@,
    ).len() + note(cargoes.len() == 0, "no cargoes defined"@).len() + settlement_errors(
        settlements,
        settlements.len() as int,
    ).len() + terrain_errors(terrains, terrains.len() as int).len() + storylets_errors(
        settlements,
        terrains,
        storylets,
        storylets.len() as int,
    ).len() + note(
        storylets.len() > 0 && templates(storylets).to_set().len() < 3,
        "fewer than 3 beat templates; runs will repeat"@,
    ).len());
}

} // verus!
