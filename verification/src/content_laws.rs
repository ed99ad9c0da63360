//! Laws of the content: what validates, what is reported of what does not, and
//! how the files of a directory are put together.

use vstd::prelude::*;

use crate::content::{
    choice_errors, choice_sound, choices_errors, db_errors, dest_error, faction_error,
    faction_gate_error, fail_faction, gate_errors, gates_sound, is_faction, is_settlement, is_skill,
    is_terrain, law_valid_content_is_sound, legs_error, note, repeats_id, settlement_errors, sound,
    storylet_errors, storylet_sound, storylets_errors, templates, terrain_errors,
    terrain_gate_errors, test_errors, ContentDb, Npc, SChoice, Settlement, Storylet, Terrain,
};
use crate::load::{
    all_npcs, all_storylets, bytes_lt, is_toml_listing, is_toml_name, lemma_sorted_by_id,
    lemma_with_id, listed_before, sorted_by_id, with_id, Identified, NpcFile, StoryletFile,
};
use crate::text::{dec, text_lt, Text};

verus! {

// ------------------------------------------------------------------ validation

/// Whether a name is that of a faction.
pub open spec fn faction_name(name: Text) -> bool {
    name == "collective"@ || name == "guild"@ || name == "carver"@
}

/// What a choice has to have: a test names a skill and says what failing it
/// comes to, and what it does to a faction it does to one that there is.
pub open spec fn choice_holds(c: SChoice) -> bool {
    &&& (c.test is Some ==> {
        let skill = c.test->0.skill@;
        skill == "paperwork"@ || skill == "spanners"@ || skill == "charm"@
    })
    &&& (c.test is Some ==> c.fail_outcome is Some)
    &&& (c.effects.faction is Some ==> faction_name(c.effects.faction->0@))
    &&& (c.fail_effects is Some && c.fail_effects->0.faction is Some ==> faction_name(
        c.fail_effects->0.faction->0@,
    ))
}

/// What a storylet has to have: something to choose, and gates on places,
/// country and factions that there are.
pub open spec fn storylet_holds(
    settlements: Seq<Settlement>,
    terrains: Seq<Terrain>,
    st: Storylet,
) -> bool {
    &&& st.choices@.len() > 0
    &&& (forall|i: int|
        0 <= i < st.choices@.len() ==> #[trigger] choice_holds(st.choices@[i]))
    &&& (st.requires.dest is Some ==> exists|j: int|
        0 <= j < settlements.len() && (#[trigger] settlements[j]).id@ == st.requires.dest->0@)
    &&& (st.requires.faction_rep_max is Some ==> faction_name(
        st.requires.faction_rep_max->0.faction@,
    ))
    &&& (st.requires.faction_rep_min is Some ==> faction_name(
        st.requires.faction_rep_min->0.faction@,
    ))
    &&& (forall|i: int|
        0 <= i < st.requires.terrains@.len() ==> crosses(
            terrains,
            (#[trigger] st.requires.terrains@[i])@,
        ))
}

/// Whether there is country of that name.
pub open spec fn crosses(terrains: Seq<Terrain>, name: Text) -> bool {
    exists|j: int| 0 <= j < terrains.len() && (#[trigger] terrains[j]).id@ == name
}

proof fn lemma_choice_holds(c: SChoice)
    ensures
        choice_sound(c) <==> choice_holds(c),
{
}

proof fn lemma_storylet_holds(
    settlements: Seq<Settlement>,
    terrains: Seq<Terrain>,
    storylets: Seq<Storylet>,
    k: int,
)
    requires
        0 <= k < storylets.len(),
    ensures
        storylet_sound(settlements, terrains, storylets, k) <==> !repeats_id(storylets, k)
            && storylet_holds(settlements, terrains, storylets[k]),
{
    let st = storylets[k];
    assert forall|i: int| 0 <= i < st.choices@.len() implies choice_sound(
        #[trigger] st.choices@[i],
    ) == choice_holds(st.choices@[i]) by {
        lemma_choice_holds(st.choices@[i]);
    }
    if storylet_holds(settlements, terrains, st) {
        assert forall|i: int| 0 <= i < st.choices@.len() implies choice_sound(
            #[trigger] st.choices@[i],
        ) by {
            assert(choice_holds(st.choices@[i]));
        }
        assert forall|i: int| 0 <= i < st.requires.terrains@.len() implies is_terrain(
            terrains,
            (#[trigger] st.requires.terrains@[i])@,
        ) by {
            assert(crosses(terrains, st.requires.terrains@[i]@));
        }
        assert(gates_sound(settlements, terrains, st));
        assert(!repeats_id(storylets, k) ==> storylet_sound(settlements, terrains, storylets, k));
    }
    if storylet_sound(settlements, terrains, storylets, k) {
        assert forall|i: int| 0 <= i < st.choices@.len() implies #[trigger] choice_holds(
            st.choices@[i],
        ) by {
            assert(choice_sound(st.choices@[i]));
        }
        assert forall|i: int| 0 <= i < st.requires.terrains@.len() implies crosses(
            terrains,
            (#[trigger] st.requires.terrains@[i])@,
        ) by {
            assert(is_terrain(terrains, st.requires.terrains@[i]@));
        }
        assert(storylet_holds(settlements, terrains, st));
    }
}

/// Content boots exactly where there is somewhere to go and something to carry,
/// every road is three to five legs long, no two storylets share an id, each
/// storylet holds together, and there are storylets of at least three kinds, or
/// none at all.
pub proof fn law_what_valid_content_has(db: ContentDb)
    ensures
        db_errors(db).len() == 0 <==> {
            &&& db.settlements@.len() > 0
            &&& db.cargoes@.len() > 0
            &&& (forall|i: int|
                0 <= i < db.settlements@.len() ==> 3 <= (#[trigger] db.settlements@[i]).legs <= 5)
            &&& (forall|i: int|
                0 <= i < db.terrains@.len() ==> 3 <= (#[trigger] db.terrains@[i]).legs <= 5)
            &&& (forall|i: int, j: int|
                0 <= i < j < db.storylets@.len() ==> (#[trigger] db.storylets@[i]).id@ != (
                #[trigger] db.storylets@[j]).id@)
            &&& (forall|k: int|
                0 <= k < db.storylets@.len() ==> storylet_holds(
                    db.settlements@,
                    db.terrains@,
                    #[trigger] db.storylets@[k],
                ))
            &&& (db.storylets@.len() > 0 ==> db.storylets@.map_values(
                |st: Storylet| st.template@,
            ).to_set().len() >= 3)
        },
{
    let settlements = db.settlements@;
    let terrains = db.terrains@;
    let storylets = db.storylets@;
    law_valid_content_is_sound(settlements, terrains, db.cargoes@, storylets);
    assert forall|k: int| 0 <= k < storylets.len() implies (storylet_sound(
        settlements,
        terrains,
        storylets,
        k,
    ) <==> !repeats_id(storylets, k) && storylet_holds(
        settlements,
        terrains,
        #[trigger] storylets[k],
    )) by {
        lemma_storylet_holds(settlements, terrains, storylets, k);
    }
    if sound(settlements, terrains, db.cargoes@, storylets) {
        assert forall|i: int, j: int| 0 <= i < j < storylets.len() implies (
        #[trigger] storylets[i]).id@ != (#[trigger] storylets[j]).id@ by {
            assert(storylet_sound(settlements, terrains, storylets, j));
        }
        assert forall|k: int| 0 <= k < storylets.len() implies storylet_holds(
            settlements,
            terrains,
            #[trigger] storylets[k],
        ) by {
            assert(storylet_sound(settlements, terrains, storylets, k));
        }
    }
    if (forall|i: int, j: int|
        0 <= i < j < storylets.len() ==> (#[trigger] storylets[i]).id@ != (
        #[trigger] storylets[j]).id@) && (forall|k: int|
        0 <= k < storylets.len() ==> storylet_holds(settlements, terrains, #[trigger] storylets[k])) {
        assert forall|k: int| 0 <= k < storylets.len() implies storylet_sound(
            settlements,
            terrains,
            storylets,
            k,
        ) by {
            assert(storylet_holds(settlements, terrains, storylets[k]));
        }
    }
    assert(templates(storylets) =~= storylets.map_values(|st: Storylet| st.template@));
}

// ------------------------------------------------------------------- complaints

proof fn lemma_in_either(a: Seq<Text>, b: Seq<Text>, x: Text)
    ensures
        (a + b).contains(x) <==> a.contains(x) || b.contains(x),
{
    let s = a + b;
    if a.contains(x) {
        assert(s[a.index_of(x)] == x);
    }
    if b.contains(x) {
        assert(s[a.len() + b.index_of(x)] == x);
    }
    if s.contains(x) {
        let i = s.index_of(x);
        if i < a.len() {
            assert(a[i] == x);
        } else {
            assert(b[i - a.len()] == x);
        }
    }
}

proof fn lemma_noted(cond: bool, msg: Text, x: Text)
    ensures
        note(cond, msg).contains(x) <==> cond && x == msg,
{
    if cond {
        assert(note(cond, msg)[0] == msg);
    }
}

proof fn lemma_settlement_reported(settlements: Seq<Settlement>, n: int, k: int, x: Text)
    requires
        0 <= k < n,
        legs_error(settlements[k]).contains(x),
    ensures
        settlement_errors(settlements, n).contains(x),
    decreases n,
{
    if k < n - 1 {
        lemma_settlement_reported(settlements, n - 1, k, x);
    }
    lemma_in_either(settlement_errors(settlements, n - 1), legs_error(settlements[n - 1]), x);
}

proof fn lemma_terrain_reported(terrains: Seq<Terrain>, n: int, k: int)
    requires
        0 <= k < n,
        !(3 <= terrains[k].legs <= 5),
    ensures
        terrain_errors(terrains, n).contains(
            "terrain "@ + terrains[k].id@ + ": a run across it takes 3..=5 legs"@,
        ),
    decreases n,
{
    let x = "terrain "@ + terrains[k].id@ + ": a run across it takes 3..=5 legs"@;
    let t = terrains[n - 1];
    let msg = "terrain "@ + t.id@ + ": a run across it takes 3..=5 legs"@;
    if k < n - 1 {
        lemma_terrain_reported(terrains, n - 1, k);
    }
    lemma_noted(!(3 <= t.legs <= 5), msg, x);
    lemma_in_either(terrain_errors(terrains, n - 1), note(!(3 <= t.legs <= 5), msg), x);
}

proof fn lemma_terrain_gate_reported(
    terrains: Seq<Terrain>,
    id: Text,
    gates: Seq<String>,
    n: int,
    k: int,
)
    requires
        0 <= k < n,
        !is_terrain(terrains, gates[k]@),
    ensures
        terrain_gate_errors(terrains, id, gates, n).contains(
            "storylet "@ + id + ": unknown terrain gate "@ + gates[k]@,
        ),
    decreases n,
{
    let x = "storylet "@ + id + ": unknown terrain gate "@ + gates[k]@;
    let cond = !is_terrain(terrains, gates[n - 1]@);
    let msg = "storylet "@ + id + ": unknown terrain gate "@ + gates[n - 1]@;
    if k < n - 1 {
        lemma_terrain_gate_reported(terrains, id, gates, n - 1, k);
    }
    lemma_noted(cond, msg, x);
    lemma_in_either(terrain_gate_errors(terrains, id, gates, n - 1), note(cond, msg), x);
}

proof fn lemma_choice_reported(id: Text, choices: Seq<SChoice>, n: int, i: int, x: Text)
    requires
        0 <= i < n,
        choice_errors(id, i, choices[i]).contains(x),
    ensures
        choices_errors(id, choices, n).contains(x),
    decreases n,
{
    if i < n - 1 {
        lemma_choice_reported(id, choices, n - 1, i, x);
    }
    lemma_in_either(
        choices_errors(id, choices, n - 1),
        choice_errors(id, n - 1, choices[n - 1]),
        x,
    );
}

proof fn lemma_storylet_reported(
    settlements: Seq<Settlement>,
    terrains: Seq<Terrain>,
    storylets: Seq<Storylet>,
    n: int,
    k: int,
    x: Text,
)
    requires
        0 <= k < n,
        storylet_errors(settlements, terrains, storylets, k).contains(x),
    ensures
        storylets_errors(settlements, terrains, storylets, n).contains(x),
    decreases n,
{
    if k < n - 1 {
        lemma_storylet_reported(settlements, terrains, storylets, n - 1, k, x);
    }
    lemma_in_either(
        storylets_errors(settlements, terrains, storylets, n - 1),
        storylet_errors(settlements, terrains, storylets, n - 1),
        x,
    );
}

proof fn lemma_part_reported(db: ContentDb, x: Text)
    ensures
        settlement_errors(db.settlements@, db.settlements@.len() as int).contains(x)
            ==> db_errors(db).contains(x),
        terrain_errors(db.terrains@, db.terrains@.len() as int).contains(x) ==> db_errors(
            db,
        ).contains(x),
        storylets_errors(
            db.settlements@,
            db.terrains@,
            db.storylets@,
            db.storylets@.len() as int,
        ).contains(x) ==> db_errors(db).contains(x),
        db.settlements@.len() == 0 && x == "no settlements defined"@ ==> db_errors(db).contains(x),
        db.cargoes@.len() == 0 && x == "no cargoes defined"@ ==> db_errors(db).contains(x),
        db.storylets@.len() > 0 && templates(db.storylets@).to_set().len() < 3 && x
            == "fewer than 3 beat templates; runs will repeat"@ ==> db_errors(db).contains(x),
{
    let a = note(db.settlements@.len() == 0, "no settlements defined"@);
    let b = note(db.cargoes@.len() == 0, "no cargoes defined"@);
    let c = settlement_errors(db.settlements@, db.settlements@.len() as int);
    let d = terrain_errors(db.terrains@, db.terrains@.len() as int);
    let e = storylets_errors(
        db.settlements@,
        db.terrains@,
        db.storylets@,
        db.storylets@.len() as int,
    );
    let few = db.storylets@.len() > 0 && templates(db.storylets@).to_set().len() < 3;
    let f = note(few, "fewer than 3 beat templates; runs will repeat"@);
    lemma_noted(db.settlements@.len() == 0, "no settlements defined"@, x);
    lemma_noted(db.cargoes@.len() == 0, "no cargoes defined"@, x);
    lemma_noted(few, "fewer than 3 beat templates; runs will repeat"@, x);
    lemma_in_either(a, b, x);
    lemma_in_either(a + b, c, x);
    lemma_in_either(a + b + c, d, x);
    lemma_in_either(a + b + c + d, e, x);
    lemma_in_either(a + b + c + d + e, f, x);
}

/// What is wrong with the world as a whole is reported: nowhere to go, nothing
/// to carry, too few kinds of beat, and roads that are too short or too long.
pub proof fn law_faults_of_the_world_are_reported(db: ContentDb, k: int)
    ensures
        db.settlements@.len() == 0 ==> db_errors(db).contains("no settlements defined"@),
        db.cargoes@.len() == 0 ==> db_errors(db).contains("no cargoes defined"@),
        db.storylets@.len() > 0 && db.storylets@.map_values(
            |st: Storylet| st.template@,
        ).to_set().len() < 3 ==> db_errors(db).contains(
            "fewer than 3 beat templates; runs will repeat"@,
        ),
        0 <= k < db.settlements@.len() ==> {
            let s = db.settlements@[k];
            &&& (s.legs == 0 || s.legs > 8 ==> db_errors(db).contains(
                "settlement "@ + s.id@ + ": legs must be 1..=8"@,
            ))
            &&& (1 <= s.legs <= 2 || 6 <= s.legs <= 8 ==> db_errors(db).contains(
                "settlement "@ + s.id@ + ": a run there takes 3..=5 legs"@,
            ))
        },
        0 <= k < db.terrains@.len() && !(3 <= db.terrains@[k].legs <= 5) ==> db_errors(db).contains(
            "terrain "@ + db.terrains@[k].id@ + ": a run across it takes 3..=5 legs"@,
        ),
{
    assert(templates(db.storylets@) =~= db.storylets@.map_values(|st: Storylet| st.template@));
    lemma_part_reported(db, "no settlements defined"@);
    lemma_part_reported(db, "no cargoes defined"@);
    lemma_part_reported(db, "fewer than 3 beat templates; runs will repeat"@);
    if 0 <= k < db.settlements@.len() {
        let s = db.settlements@[k];
        let n = db.settlements@.len() as int;
        let far = "settlement "@ + s.id@ + ": legs must be 1..=8"@;
        let off = "settlement "@ + s.id@ + ": a run there takes 3..=5 legs"@;
        lemma_part_reported(db, far);
        lemma_part_reported(db, off);
        lemma_noted(true, off, off);
        if s.legs == 0 || s.legs > 8 {
            assert(legs_error(s)[0] == far);
            lemma_settlement_reported(db.settlements@, n, k, far);
        } else if !(3 <= s.legs <= 5) {
            lemma_settlement_reported(db.settlements@, n, k, off);
        }
    }
    if 0 <= k < db.terrains@.len() && !(3 <= db.terrains@[k].legs <= 5) {
        lemma_terrain_reported(db.terrains@, db.terrains@.len() as int, k);
        lemma_part_reported(
            db,
            "terrain "@ + db.terrains@[k].id@ + ": a run across it takes 3..=5 legs"@,
        );
    }
}

/// What is wrong with a storylet is reported by its name: an id that an earlier
/// one has, nothing to choose, and gates on what there is not.
pub proof fn law_faults_of_storylets_are_reported(db: ContentDb, k: int, i: int)
    requires
        0 <= k < db.storylets@.len(),
    ensures
        ({
            let st = db.storylets@[k];
            let errs = db_errors(db);
            &&& (0 <= i < k && db.storylets@[i].id@ == st.id@ ==> errs.contains(
                "duplicate storylet id "@ + st.id@,
            ))
            &&& (st.choices@.len() == 0 ==> errs.contains(
                "storylet "@ + st.id@ + ": no choices"@,
            ))
            &&& (st.requires.dest is Some && (forall|j: int|
                0 <= j < db.settlements@.len() ==> (#[trigger] db.settlements@[j]).id@
                    != st.requires.dest->0@) ==> errs.contains(
                "storylet "@ + st.id@ + ": unknown dest gate "@ + st.requires.dest->0@,
            ))
            &&& (st.requires.faction_rep_max is Some && !faction_name(
                st.requires.faction_rep_max->0.faction@,
            ) ==> errs.contains(
                "storylet "@ + st.id@ + ": unknown faction gate "@
                    + st.requires.faction_rep_max->0.faction@,
            ))
            &&& (st.requires.faction_rep_min is Some && !faction_name(
                st.requires.faction_rep_min->0.faction@,
            ) ==> errs.contains(
                "storylet "@ + st.id@ + ": unknown faction gate "@
                    + st.requires.faction_rep_min->0.faction@,
            ))
            &&& (0 <= i < st.requires.terrains@.len() && (forall|j: int|
                0 <= j < db.terrains@.len() ==> (#[trigger] db.terrains@[j]).id@
                    != st.requires.terrains@[i]@) ==> errs.contains(
                "storylet "@ + st.id@ + ": unknown terrain gate "@ + st.requires.terrains@[i]@,
            ))
        }),
{
    let settlements = db.settlements@;
    let terrains = db.terrains@;
    let storylets = db.storylets@;
    let st = storylets[k];
    let id = st.id@;
    let own = storylet_errors(settlements, terrains, storylets, k);
    let twice = "duplicate storylet id "@ + id;
    let bare = "storylet "@ + id + ": no choices"@;
    let a = note(repeats_id(storylets, k), twice);
    let b = note(st.choices@.len() == 0, bare);
    let g = gate_errors(settlements, terrains, st);
    let c = choices_errors(id, st.choices@, st.choices@.len() as int);
    assert forall|x: Text|
        a.contains(x) || b.contains(x) || g.contains(x) implies #[trigger] db_errors(db).contains(
        x,
    ) by {
        lemma_in_either(a, b, x);
        lemma_in_either(a + b, g, x);
        lemma_in_either(a + b + g, c, x);
        lemma_storylet_reported(
            settlements,
            terrains,
            storylets,
            storylets.len() as int,
            k,
            x,
        );
        lemma_part_reported(db, x);
    }
    if 0 <= i < k && storylets[i].id@ == id {
        lemma_noted(repeats_id(storylets, k), twice, twice);
        assert(a.contains(twice));
    }
    lemma_noted(st.choices@.len() == 0, bare, bare);
    let d1 = dest_error(settlements, st);
    let d2 = faction_gate_error(id, st.requires.faction_rep_max);
    let d3 = faction_gate_error(id, st.requires.faction_rep_min);
    let gates = st.requires.terrains@;
    let d4 = terrain_gate_errors(terrains, id, gates, gates.len() as int);
    assert forall|x: Text|
        d1.contains(x) || d2.contains(x) || d3.contains(x) || d4.contains(x) implies #[trigger] g.contains(x) by {
        lemma_in_either(d1, d2, x);
        lemma_in_either(d1 + d2, d3, x);
        lemma_in_either(d1 + d2 + d3, d4, x);
    }
    if let Some(d) = st.requires.dest {
        let msg = "storylet "@ + id + ": unknown dest gate "@ + d@;
        lemma_noted(!is_settlement(settlements, d@), msg, msg);
        if !is_settlement(settlements, d@) {
            assert(d1.contains(msg));
            assert(g.contains(msg));
        }
    }
    if let Some(f) = st.requires.faction_rep_max {
        let msg = "storylet "@ + id + ": unknown faction gate "@ + f.faction@;
        lemma_noted(!is_faction(f.faction@), msg, msg);
        if !is_faction(f.faction@) {
            assert(d2.contains(msg));
            assert(g.contains(msg));
        }
    }
    if let Some(f) = st.requires.faction_rep_min {
        let msg = "storylet "@ + id + ": unknown faction gate "@ + f.faction@;
        lemma_noted(!is_faction(f.faction@), msg, msg);
        if !is_faction(f.faction@) {
            assert(d3.contains(msg));
            assert(g.contains(msg));
        }
    }
    if 0 <= i < gates.len() && !is_terrain(terrains, gates[i]@) {
        let msg = "storylet "@ + id + ": unknown terrain gate "@ + gates[i]@;
        lemma_terrain_gate_reported(terrains, id, gates, gates.len() as int, i);
        assert(d4.contains(msg));
        assert(g.contains(msg));
    }
}

/// What is wrong with a choice is reported by its storylet and its number: a
/// test of no skill, one that does not say what failing comes to, and effects on
/// a faction that there is not.
pub proof fn law_faults_of_choices_are_reported(db: ContentDb, k: int, i: int)
    requires
        0 <= k < db.storylets@.len(),
        0 <= i < db.storylets@[k].choices@.len(),
    ensures
        ({
            let st = db.storylets@[k];
            let c = st.choices@[i];
            let place = "storylet "@ + st.id@ + " choice "@ + dec(i);
            let errs = db_errors(db);
            &&& (c.test is Some && c.test->0.skill@ != "paperwork"@ && c.test->0.skill@
                != "spanners"@ && c.test->0.skill@ != "charm"@ ==> errs.contains(
                place + ": unknown skill "@ + c.test->0.skill@,
            ))
            &&& (c.test is Some && c.fail_outcome is None ==> errs.contains(
                place + ": test without fail_outcome"@,
            ))
            &&& (c.effects.faction is Some && !faction_name(c.effects.faction->0@)
                ==> errs.contains(place + ": unknown faction "@ + c.effects.faction->0@))
            &&& (c.fail_effects is Some && c.fail_effects->0.faction is Some && !faction_name(
                c.fail_effects->0.faction->0@,
            ) ==> errs.contains(place + ": unknown faction "@ + c.fail_effects->0.faction->0@))
        }),
{
    let st = db.storylets@[k];
    let c = st.choices@[i];
    let id = st.id@;
    let place = "storylet "@ + id + " choice "@ + dec(i);
    let t = test_errors(id, i, c);
    let e = faction_error(id, i, c.effects.faction);
    let f = faction_error(id, i, fail_faction(c));
    assert forall|x: Text|
        t.contains(x) || e.contains(x) || f.contains(x) implies #[trigger] db_errors(db).contains(
        x,
    ) by {
        lemma_in_either(t, e, x);
        lemma_in_either(t + e, f, x);
        let n = st.choices@.len() as int;
        lemma_choice_reported(id, st.choices@, n, i, x);
        let a = note(repeats_id(db.storylets@, k), "duplicate storylet id "@ + id);
        let b = note(st.choices@.len() == 0, "storylet "@ + id + ": no choices"@);
        let g = gate_errors(db.settlements@, db.terrains@, st);
        lemma_in_either(a + b + g, choices_errors(id, st.choices@, n), x);
        lemma_storylet_reported(
            db.settlements@,
            db.terrains@,
            db.storylets@,
            db.storylets@.len() as int,
            k,
            x,
        );
        lemma_part_reported(db, x);
    }
    if let Some(test) = c.test {
        let strange = !is_skill(test.skill@);
        let msg = place + ": unknown skill "@ + test.skill@;
        let open = place + ": test without fail_outcome"@;
        lemma_noted(strange, msg, msg);
        lemma_noted(c.fail_outcome is None, open, open);
        lemma_in_either(note(strange, msg), note(c.fail_outcome is None, open), msg);
        lemma_in_either(note(strange, msg), note(c.fail_outcome is None, open), open);
        assert(strange ==> t.contains(msg));
        assert(c.fail_outcome is None ==> t.contains(open));
    }
    if let Some(name) = c.effects.faction {
        let msg = place + ": unknown faction "@ + name@;
        lemma_noted(!is_faction(name@), msg, msg);
        assert(!is_faction(name@) ==> e.contains(msg));
    }
    if let Some(fe) = c.fail_effects {
        if let Some(name) = fe.faction {
            let msg = place + ": unknown faction "@ + name@;
            lemma_noted(!is_faction(name@), msg, msg);
            assert(!is_faction(name@) ==> f.contains(msg));
        }
    }
}

// ---------------------------------------------------------------------- reading

/// Files are read one behind another, and none of what they hold is left out or
/// read twice.
pub proof fn law_files_are_read_in_turn(
    a: Seq<StoryletFile>,
    b: Seq<StoryletFile>,
    p: Seq<NpcFile>,
    q: Seq<NpcFile>,
    f: StoryletFile,
    g: NpcFile,
)
    ensures
        all_storylets(Seq::empty()) == Seq::<Storylet>::empty(),
        all_storylets(seq![f]) == f.storylet@,
        all_storylets(a + b) == all_storylets(a) + all_storylets(b),
        all_npcs(Seq::empty()) == Seq::<Npc>::empty(),
        all_npcs(seq![g]) == g.npc@,
        all_npcs(p + q) == all_npcs(p) + all_npcs(q),
    decreases b.len() + q.len(),
{
    assert(seq![f].drop_last() =~= Seq::<StoryletFile>::empty());
    assert(seq![g].drop_last() =~= Seq::<NpcFile>::empty());
    assert(all_storylets(seq![f].drop_last()) + f.storylet@ =~= f.storylet@);
    assert(all_npcs(seq![g].drop_last()) + g.npc@ =~= g.npc@);
    if b.len() > 0 {
        law_files_are_read_in_turn(a, b.drop_last(), p, Seq::empty(), f, g);
        assert((a + b).drop_last() =~= a + b.drop_last());
    } else {
        assert(a + b =~= a);
    }
    if q.len() > 0 {
        law_files_are_read_in_turn(a, Seq::empty(), p, q.drop_last(), f, g);
        assert((p + q).drop_last() =~= p + q.drop_last());
    } else {
        assert(p + q =~= p);
    }
}

/// What was read is put in order of id: the same values as before, none of them
/// behind one whose id comes later, and those with one id in the order in which
/// they were read.
pub proof fn law_content_is_ordered_by_id(
    s: Seq<Storylet>,
    p: Seq<Npc>,
    i: int,
    j: int,
    id: Text,
    has_id: spec_fn(Storylet) -> bool,
    is_called: spec_fn(Npc) -> bool,
)
    requires
        forall|st: Storylet| #[trigger] has_id(st) <==> st.id@ == id,
        forall|n: Npc| #[trigger] is_called(n) <==> n.id@ == id,
    ensures
        sorted_by_id(s).to_multiset() == s.to_multiset(),
        0 <= i < j < s.len() ==> !text_lt(sorted_by_id(s)[j].id@, sorted_by_id(s)[i].id@),
        sorted_by_id(s).filter(has_id) == s.filter(has_id),
        sorted_by_id(p).to_multiset() == p.to_multiset(),
        0 <= i < j < p.len() ==> !text_lt(sorted_by_id(p)[j].id@, sorted_by_id(p)[i].id@),
        sorted_by_id(p).filter(is_called) == p.filter(is_called),
{
    broadcast use vstd::seq_lib::group_to_multiset_ensures;

    lemma_sorted_by_id(s);
    lemma_sorted_by_id(p);
    assert(sorted_by_id(s).len() == sorted_by_id(s).to_multiset().len());
    assert(sorted_by_id(p).len() == sorted_by_id(p).to_multiset().len());
    assert(s.len() == s.to_multiset().len() && p.len() == p.to_multiset().len());
    if 0 <= i < j < s.len() {
        assert(!text_lt(Identified::key(&sorted_by_id(s)[j]), Identified::key(&sorted_by_id(s)[i])));
    }
    if 0 <= i < j < p.len() {
        assert(!text_lt(Identified::key(&sorted_by_id(p)[j]), Identified::key(&sorted_by_id(p)[i])));
    }
    lemma_with_id(s, id, has_id);
    lemma_with_id(sorted_by_id(s), id, has_id);
    lemma_with_id(p, id, is_called);
    lemma_with_id(sorted_by_id(p), id, is_called);
    assert(with_id(sorted_by_id(s), id) == with_id(s, id));
    assert(with_id(sorted_by_id(p), id) == with_id(p, id));
}

/// Of a directory the files are read whose names end in `.toml`, with something
/// in front: those and no others, each once, in dictionary order of name.
pub proof fn law_toml_files_are_listed_by_name(names: Seq<Vec<u8>>, r: Seq<usize>, i: int)
    requires
        is_toml_listing(names, names.len() as int, r),
        0 <= i < names.len(),
    ensures
        (names[i]@.len() > 5 && names[i]@.skip(names[i]@.len() - 5) == seq![
            46u8,
            116u8,
            111u8,
            109u8,
            108u8,
        ]) <==> (exists|a: int| 0 <= a < r.len() && #[trigger] r[a] == i),
        forall|a: int, b: int|
            0 <= a < b < r.len() ==> {
                let x = (#[trigger] r[a]) as int;
                let y = (#[trigger] r[b]) as int;
                &&& 0 <= x < names.len()
                &&& 0 <= y < names.len()
                &&& x != y
                &&& (bytes_lt(names[x]@, names[y]@) || (names[x]@ == names[y]@ && x < y))
            },
{
    let name = names[i]@;
    if name.len() > 5 {
        let tail = name.skip(name.len() - 5);
        let ext = seq![46u8, 116u8, 111u8, 109u8, 108u8];
        if is_toml_name(name) {
            assert(tail =~= ext);
        }
        if tail == ext {
            assert(tail[0] == 46 && tail[1] == 116 && tail[2] == 111 && tail[3] == 109 && tail[4]
                == 108);
            assert(is_toml_name(name));
        }
    }
    assert forall|a: int, b: int| 0 <= a < b < r.len() implies (#[trigger] r[a]) as int != (
    #[trigger] r[b]) as int by {
        if r[a] == r[b] {
            assert(listed_before(names, r[a] as int, r[b] as int));
            lemma_not_before_itself(names[r[a] as int]@);
        }
    }
}

proof fn lemma_not_before_itself(a: Seq<u8>)
    ensures
        !bytes_lt(a, a),
    decreases a.len(),
{
    if a.len() > 0 {
        lemma_not_before_itself(a.drop_first());
    }
}

} // verus!
