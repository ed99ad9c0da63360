//! What a run does, told by its gauges: which storylets can come up and which
//! one does, what a throw decides, what a leg costs, and what a choice leaves
//! behind.

use vstd::prelude::*;

use crate::content::{Effects, Gates, Storylet, Test};
use crate::dice::{drawn_u32, drawn_u64, DiceModel};
use crate::engine::{eligible, find_storylet, gates_open, heft, picked, pool, share_of, total_heft};
use crate::flags::lemma_inserted_contains;
use crate::laws::{law_draws_are_eligible, law_shares_are_weights, played};
use crate::mission::{money, MissionModel, StageModel};
use crate::road::{
    advanced, affected, beat_resolved, beats_with, briefing_turn, chosen, delivered, driven,
    epitaph_of, epitaphs, failure, next_beat, passes, stepped, takeable,
};
use crate::scenes::{filled, scene_of};
use crate::text::{dec, views, Text};

verus! {

// ----------------------------------------------------------------------- gates

/// Conditions are all asked for, one that is absent asks for nothing, and bounds
/// are inclusive: a run is let through exactly where its heat and its wear lie
/// within the bounds, its cargo is licensed or not as is wanted, the flag that is
/// wanted is there and the one that is not wanted is not, and its terrain is
/// listed where any is.
pub proof fn law_gates_are_all_asked_for(g: Gates, m: MissionModel)
    ensures
        gates_open(g, m) <==> {
            &&& (g.min_heat is Some ==> g.min_heat->0 <= m.heat)
            &&& (g.max_heat is Some ==> m.heat <= g.max_heat->0)
            &&& (g.min_wear is Some ==> g.min_wear->0 <= m.wear)
            &&& (g.max_wear is Some ==> m.wear <= g.max_wear->0)
            &&& (g.illicit is Some ==> (g.illicit->0 <==> m.illicit))
            &&& (g.flag is Some ==> exists|i: int|
                0 <= i < m.flags.len() && #[trigger] m.flags[i] == g.flag->0@)
            &&& (g.not_flag is Some ==> forall|i: int|
                0 <= i < m.flags.len() ==> #[trigger] m.flags[i] != g.not_flag->0@)
            &&& (g.terrains@.len() > 0 ==> exists|i: int|
                0 <= i < g.terrains@.len() && (#[trigger] g.terrains@[i])@ == m.terrain)
        },
{
    let names = views(g.terrains@);
    assert(forall|i: int| 0 <= i < g.terrains@.len() ==> names[i] == (#[trigger] g.terrains@[i])@);
    if names.contains(m.terrain) {
        let k = names.index_of(m.terrain);
        assert(g.terrains@[k]@ == m.terrain);
    }
    if exists|i: int| 0 <= i < g.terrains@.len() && (#[trigger] g.terrains@[i])@ == m.terrain {
        let k = choose|i: int|
            0 <= i < g.terrains@.len() && (#[trigger] g.terrains@[i])@ == m.terrain;
        assert(names[k] == m.terrain);
    }
    if let Some(f) = g.flag {
        if m.flags.contains(f@) {
            assert(m.flags[m.flags.index_of(f@)] == f@);
        }
    }
}

/// A licence gate tells illicit runs from licensed ones, both ways: it never
/// lets through both a run and the same run with the other kind of cargo.
pub proof fn law_licence_gates_part_runs(g: Gates, m: MissionModel)
    requires
        g.illicit is Some,
    ensures
        !(gates_open(g, m) && gates_open(g, MissionModel { illicit: !m.illicit, ..m })),
        gates_open(g, m) ==> m.illicit == g.illicit->0,
        gates_open(Gates { illicit: None, ..g }, m) && m.illicit == g.illicit->0 ==> gates_open(
            g,
            m,
        ),
{
}

/// A hotter or more worn run passes every lower bound that a cooler one passes,
/// and a cooler one every upper bound.
pub proof fn law_bounds_are_monotone(g: Gates, m: MissionModel, heat: int, wear: int)
    requires
        gates_open(g, m),
    ensures
        g.max_heat is None && g.max_wear is None && m.heat <= heat && m.wear <= wear ==> gates_open(
            g,
            MissionModel { heat, wear, ..m },
        ),
        g.min_heat is None && g.min_wear is None && heat <= m.heat && wear <= m.wear ==> gates_open(
            g,
            MissionModel { heat, wear, ..m },
        ),
{
}

// ------------------------------------------------------------------- storylets

/// A storylet is found by its id: it has the id and none in front of it has; and
/// where none is found, none has.
pub proof fn law_storylets_are_found_by_id(storylets: Seq<Storylet>, id: Text)
    ensures
        match find_storylet(storylets, id) {
            Some(st) => exists|k: int|
                {
                    &&& 0 <= k < storylets.len()
                    &&& #[trigger] storylets[k] == st
                    &&& st.id@ == id
                    &&& forall|j: int| 0 <= j < k ==> (#[trigger] storylets[j]).id@ != id
                },
            None => forall|j: int| 0 <= j < storylets.len() ==> (#[trigger] storylets[j]).id@ != id,
        },
    decreases storylets.len(),
{
    if storylets.len() > 0 && storylets[0].id@ != id {
        let d = storylets.drop_first();
        law_storylets_are_found_by_id(d, id);
        match find_storylet(d, id) {
            Some(st) => {
                let k = choose|k: int|
                    {
                        &&& 0 <= k < d.len()
                        &&& #[trigger] d[k] == st
                        &&& st.id@ == id
                        &&& forall|j: int| 0 <= j < k ==> (#[trigger] d[j]).id@ != id
                    };
                assert(storylets[k + 1] == st);
                assert forall|j: int| 0 <= j < k + 1 implies (#[trigger] storylets[j]).id@ != id by {
                    if j > 0 {
                        assert(d[j - 1] == storylets[j]);
                    }
                }
            },
            None => {
                assert forall|j: int| 0 <= j < storylets.len() implies (
                #[trigger] storylets[j]).id@ != id by {
                    if j > 0 {
                        assert(d[j - 1] == storylets[j]);
                    }
                }
            },
        }
    } else if storylets.len() > 0 {
        assert(storylets[0] == find_storylet(storylets, id)->0);
    }
}

/// The pool holds exactly the storylets of the content whose gates are open and
/// whose template no beat of the run has had.
pub proof fn law_the_pool_is_what_can_come_up(
    m: MissionModel,
    storylets: Seq<Storylet>,
    st: Storylet,
)
    ensures
        pool(m, storylets).contains(st) <==> {
            &&& storylets.contains(st)
            &&& gates_open(st.requires, m)
            &&& forall|i: int|
                0 <= i < m.beats.len() ==> (find_storylet(storylets, #[trigger] m.beats[i]) matches
                    Some(u) ==> u.template@ != st.template@)
        },
{
    let f = |s: Storylet| eligible(m, storylets, s);
    lemma_filter_members(storylets, f, st);
    assert(pool(m, storylets).contains(st) <==> storylets.contains(st) && eligible(
        m,
        storylets,
        st,
    ));
}

proof fn lemma_filter_members<A>(s: Seq<A>, f: spec_fn(A) -> bool, x: A)
    ensures
        s.filter(f).contains(x) <==> s.contains(x) && f(x),
    decreases s.len(),
{
    reveal(Seq::filter);
    if s.len() > 0 {
        let d = s.drop_last();
        lemma_filter_members(d, f, x);
        let out = s.filter(f);
        let inner = d.filter(f);
        if s.contains(x) {
            let k = s.index_of(x);
            if k < d.len() {
                assert(d[k] == x);
            }
        }
        if d.contains(x) {
            assert(s[d.index_of(x)] == x);
        }
        assert(s[s.len() - 1] == s.last());
        if out.contains(x) {
            let k = out.index_of(x);
            if k < inner.len() {
                assert(inner[k] == x);
            }
        }
        if inner.contains(x) {
            assert(out[inner.index_of(x)] == x);
        }
        if f(s.last()) {
            assert(out[inner.len() as int] == s.last());
        }
    }
}

/// The pool keeps the order of the content.
pub proof fn law_the_pool_keeps_content_order(
    m: MissionModel,
    storylets: Seq<Storylet>,
    a: int,
    b: int,
)
    requires
        0 <= a < b < pool(m, storylets).len(),
    ensures
        exists|i: int, j: int|
            0 <= i < j < storylets.len() && #[trigger] storylets[i] == pool(m, storylets)[a]
                && #[trigger] storylets[j] == pool(m, storylets)[b],
{
    lemma_filter_order(storylets, |s: Storylet| eligible(m, storylets, s), a, b);
}

proof fn lemma_filter_order<A>(s: Seq<A>, f: spec_fn(A) -> bool, a: int, b: int)
    requires
        0 <= a < b < s.filter(f).len(),
    ensures
        exists|i: int, j: int|
            0 <= i < j < s.len() && #[trigger] s[i] == s.filter(f)[a] && #[trigger] s[j]
                == s.filter(f)[b],
    decreases s.len(),
{
    reveal(Seq::filter);
    let d = s.drop_last();
    let inner = d.filter(f);
    if b < inner.len() {
        lemma_filter_order(d, f, a, b);
        let (i, j) = choose|i: int, j: int|
            0 <= i < j < d.len() && #[trigger] d[i] == inner[a] && #[trigger] d[j] == inner[b];
        assert(s[i] == s.filter(f)[a] && s[j] == s.filter(f)[b]);
    } else {
        lemma_filter_members(d, f, inner[a]);
        assert(inner.contains(inner[a]));
        let i = d.index_of(inner[a]);
        assert(s[i] == s.filter(f)[a]);
        assert(s[s.len() - 1] == s.filter(f)[b]);
    }
}

/// Every storylet of a pool adds its weight to the total, and at least one.
pub proof fn law_weights_add_up(p: Seq<Storylet>, st: Storylet)
    ensures
        total_heft(Seq::<Storylet>::empty()) == 0,
        st.weight >= 1 ==> total_heft(p.push(st)) == total_heft(p) + st.weight,
        st.weight == 0 ==> total_heft(p.push(st)) == total_heft(p) + 1,
{
    assert(p.push(st).drop_last() =~= p);
}

/// The pick decides: one that lies behind the weights in front of storylet `k`
/// and before those behind it selects that storylet.
pub proof fn law_picks_fall_into_shares(p: Seq<Storylet>, k: int, pick: int)
    requires
        0 <= k < p.len(),
        total_heft(p.take(k)) <= pick < total_heft(p.take(k + 1)),
    ensures
        picked(p, pick) == Some(p[k]),
{
    assert(p.take(k + 1) =~= p.take(k).push(p[k]));
    assert(p.take(k).push(p[k]).drop_last() =~= p.take(k));
    law_shares_are_weights(p, k, pick);
}

/// The next beat is the storylet of the pool into whose share the stream's next
/// draw falls, a draw from nothing up to one less than all the weights; it is
/// put down as beat `idx` and faced. With nothing in the pool the run is at the
/// drop and nothing is drawn.
pub proof fn law_the_next_beat_is_drawn_by_weight(
    m: MissionModel,
    storylets: Seq<Storylet>,
    idx: int,
    k: int,
)
    requires
        0 <= idx,
    ensures
        ({
            let p = pool(m, storylets);
            let d = drawn_u32(
                m.rng.seed,
                m.rng.stream,
                m.rng.word_pos,
                0,
                (total_heft(p) - 1) as u32,
            );
            let n = next_beat(m, storylets, idx);
            &&& (p.len() == 0 ==> n == (MissionModel { stage: StageModel::Arrival, ..m }))
            &&& (p.len() > 0 ==> {
                &&& n.rng == (DiceModel { word_pos: d.1, ..m.rng })
                &&& n.stage == (StageModel::Beat { idx })
                &&& n.beats.len() == if idx < m.beats.len() {
                    m.beats.len() as int
                } else {
                    idx + 1
                }
                &&& forall|i: int|
                    0 <= i < m.beats.len() && i != idx ==> n.beats[i] == #[trigger] m.beats[i]
                &&& n == (MissionModel { rng: n.rng, stage: n.stage, beats: n.beats, ..m })
                &&& (0 <= k < p.len() && total_heft(p.take(k)) <= d.0 < total_heft(p.take(k + 1))
                    ==> n.beats[idx] == p[k].id@)
            })
        }),
{
    let p = pool(m, storylets);
    if p.len() > 0 {
        let d = drawn_u32(
            m.rng.seed,
            m.rng.stream,
            m.rng.word_pos,
            0,
            (total_heft(p) - 1) as u32,
        );
        if 0 <= k < p.len() && total_heft(p.take(k)) <= d.0 < total_heft(p.take(k + 1)) {
            law_picks_fall_into_shares(p, k, d.0 as int);
        }
    }
}

/// Nothing comes up on a run that its gates keep off: the beat that a leg brings
/// is a storylet of the content whose bounds hold of the heat and the wear that
/// the run then has, whose licence gate is that of its cargo, whose flags are as
/// wanted, whose terrain is the run's, and whose template no earlier beat had.
pub proof fn law_beats_come_through_their_gates(
    m: MissionModel,
    storylets: Seq<Storylet>,
    idx: int,
)
    requires
        takeable(m, storylets, idx),
        !(m.stage is Beat),
        m.stage is Outcome ==> 0 <= m.stage->Outcome_idx,
        stepped(m, storylets, idx).m.stage is Beat,
    ensures
        ({
            let n = stepped(m, storylets, idx).m;
            let beat = n.stage->Beat_idx;
            exists|st: Storylet|
                {
                    &&& #[trigger] storylets.contains(st)
                    &&& n.beats[beat] == st.id@
                    &&& (st.requires.min_heat is Some ==> st.requires.min_heat->0 <= n.heat)
                    &&& (st.requires.max_heat is Some ==> n.heat <= st.requires.max_heat->0)
                    &&& (st.requires.min_wear is Some ==> st.requires.min_wear->0 <= n.wear)
                    &&& (st.requires.max_wear is Some ==> n.wear <= st.requires.max_wear->0)
                    &&& (st.requires.illicit is Some ==> (st.requires.illicit->0 <==> n.illicit))
                    &&& (st.requires.flag is Some ==> n.flags.contains(st.requires.flag->0@))
                    &&& (st.requires.not_flag is Some ==> !n.flags.contains(
                        st.requires.not_flag->0@,
                    ))
                    &&& (st.requires.terrains@.len() > 0 ==> exists|i: int|
                        0 <= i < st.requires.terrains@.len() && (
                        #[trigger] st.requires.terrains@[i])@ == n.terrain)
                    &&& forall|i: int|
                        0 <= i < m.beats.len() ==> (find_storylet(
                            storylets,
                            #[trigger] m.beats[i],
                        ) matches Some(u) ==> u.template@ != st.template@)
                }
        }),
{
    let leg = if m.stage is Briefing {
        0
    } else {
        m.stage->Outcome_idx + 1
    };
    let n = stepped(m, storylets, idx).m;
    assert(n == advanced(m, storylets, leg).m);
    let after = driven(m, leg);
    let p = pool(after, storylets);
    assert(n == next_beat(after, storylets, leg));
    assert(p.len() > 0);
    let d = drawn_u32(
        m.rng.seed,
        m.rng.stream,
        m.rng.word_pos,
        0,
        (total_heft(p) - 1) as u32,
    );
    law_draws_are_eligible(after, storylets, d.0 as int);
    let st = picked(p, d.0 as int)->0;
    law_gates_are_all_asked_for(st.requires, after);
    assert(p.contains(st)) by {
        lemma_picked_in_pool(p, d.0 as int);
    }
    law_the_pool_is_what_can_come_up(after, storylets, st);
    law_the_next_beat_is_drawn_by_weight(after, storylets, leg, 0);
    lemma_beat_put_down(after.beats, leg, st.id@);
    assert(after.beats == m.beats);
    assert(storylets.contains(st));
}

proof fn lemma_beat_put_down(beats: Seq<Text>, idx: int, id: Text)
    requires
        0 <= idx,
    ensures
        beats_with(beats, idx, id)[idx] == id,
{
}

proof fn lemma_picked_in_pool(p: Seq<Storylet>, pick: int)
    requires
        p.len() > 0,
    ensures
        p.contains(picked(p, pick)->0),
{
    lemma_share_member(p, pick);
    assert(p.contains(p[0]));
}

proof fn lemma_share_member(p: Seq<Storylet>, pick: int)
    ensures
        share_of(p, pick) matches Some(st) ==> p.contains(st),
    decreases p.len(),
{
    if p.len() > 0 && pick >= heft(p[0]) {
        let d = p.drop_first();
        lemma_share_member(d, pick - heft(p[0]));
        if let Some(st) = share_of(d, pick - heft(p[0])) {
            assert(p[d.index_of(st) + 1] == st);
        }
    } else if p.len() > 0 {
        assert(p.contains(p[0]));
    }
}

// --------------------------------------------------------------------- effects

/// What effects do to each gauge: cash moves and stops at nothing, fuel stays
/// between nothing and a full tank, wear and heat between nothing and ten, the
/// payment is adjusted by its percentage, the flag is raised and no other, and
/// the cargo is gone where it is lost. What an effect does not name stays.
pub proof fn law_effects_move_what_they_name(m: MissionModel, e: Effects, flag: Text)
    requires
        0 <= m.max_fuel_ml,
        0 <= m.reward_pence,
    ensures
        ({
            let n = affected(m, e);
            &&& (e.cash is None ==> n.cash_pence == m.cash_pence)
            &&& (e.cash is Some && 0 <= m.cash_pence + e.cash->0 ==> n.cash_pence == m.cash_pence
                + e.cash->0)
            &&& (e.cash is Some && m.cash_pence + e.cash->0 < 0 ==> n.cash_pence == 0)
            &&& (e.fuel_ml is None ==> n.fuel_ml == m.fuel_ml)
            &&& (e.fuel_ml is Some && 0 <= m.fuel_ml + e.fuel_ml->0 <= m.max_fuel_ml ==> n.fuel_ml
                == m.fuel_ml + e.fuel_ml->0)
            &&& (e.fuel_ml is Some && m.fuel_ml + e.fuel_ml->0 < 0 ==> n.fuel_ml == 0)
            &&& (e.fuel_ml is Some && m.fuel_ml + e.fuel_ml->0 > m.max_fuel_ml ==> n.fuel_ml
                == m.max_fuel_ml)
            &&& (e.wear is None ==> n.wear == m.wear)
            &&& (e.wear is Some && 0 <= m.wear + e.wear->0 <= 10 ==> n.wear == m.wear + e.wear->0)
            &&& (e.wear is Some && m.wear + e.wear->0 < 0 ==> n.wear == 0)
            &&& (e.wear is Some && m.wear + e.wear->0 > 10 ==> n.wear == 10)
            &&& (e.heat is None ==> n.heat == m.heat)
            &&& (e.heat is Some && 0 <= m.heat + e.heat->0 <= 10 ==> n.heat == m.heat + e.heat->0)
            &&& (e.heat is Some && m.heat + e.heat->0 < 0 ==> n.heat == 0)
            &&& (e.heat is Some && m.heat + e.heat->0 > 10 ==> n.heat == 10)
            &&& (e.payment_pct is None ==> n.reward_pence == m.reward_pence)
            &&& (e.payment_pct is Some && -100 <= e.payment_pct->0 ==> 100 * n.reward_pence
                <= m.reward_pence * (100 + e.payment_pct->0) < 100 * n.reward_pence + 100)
            &&& (e.payment_pct is Some && e.payment_pct->0 < -100 ==> n.reward_pence == 0)
            &&& (n.cargo_lost <==> m.cargo_lost || e.lose_cargo == Some(true))
            &&& (n.flags.contains(flag) <==> m.flags.contains(flag) || (e.flag is Some
                && e.flag->0@ == flag))
            &&& n == (MissionModel {
                cash_pence: n.cash_pence,
                fuel_ml: n.fuel_ml,
                wear: n.wear,
                heat: n.heat,
                reward_pence: n.reward_pence,
                cargo_lost: n.cargo_lost,
                flags: n.flags,
                ..m
            })
        }),
{
    if let Some(f) = e.flag {
        lemma_inserted_contains(m.flags, f@, flag);
    }
    if let Some(v) = e.payment_pct {
        if -100 <= v {
            assert(0 <= m.reward_pence * (100 + v)) by (nonlinear_arith)
                requires
                    0 <= m.reward_pence,
                    -100 <= v,
            ;
        } else {
            assert(m.reward_pence * 0 == 0) by (nonlinear_arith);
        }
    }
}

// ----------------------------------------------------------------------- tests

/// What Cobb adds to a throw on a skill.
pub open spec fn aptitude(skill: Text, bonus: int) -> bool {
    &&& (skill == "paperwork"@ ==> bonus == 2)
    &&& (skill == "spanners"@ || skill == "charm"@ ==> bonus == 1)
    &&& (skill != "paperwork"@ && skill != "spanners"@ && skill != "charm"@ ==> bonus == 0)
}

/// The throw decides a tested choice. The stream's next d12 and Cobb's bonus on
/// the skill are set against the test's difficulty: what it states, with the
/// terrain's share, with the wear divided as the test has it, and with its bump
/// where heat is four or more. A score that is not below it takes the effects
/// and the outcome of the choice; one that is below takes those of its failing.
pub proof fn law_throws_decide_tests(
    m: MissionModel,
    storylets: Seq<Storylet>,
    beat: int,
    choice: int,
    bonus: int,
)
    requires
        0 <= m.wear,
        0 <= beat < m.beats.len(),
        find_storylet(storylets, m.beats[beat]) matches Some(st) && 0 <= choice
            < st.choices@.len() && st.choices@[choice].test is Some && aptitude(
            st.choices@[choice].test->0.skill@,
            bonus,
        ),
    ensures
        ({
            let st = find_storylet(storylets, m.beats[beat])->0;
            let c = st.choices@[choice];
            let t = c.test->0;
            let throw = drawn_u64(m.rng.seed, m.rng.stream, m.rng.word_pos, 1, 12);
            let thrown = MissionModel {
                rng: DiceModel { word_pos: throw.1, ..m.rng },
                ..m
            };
            let dc = t.dc + m.dc_mod + (if t.dc_wear_div is Some && t.dc_wear_div->0 > 0 {
                m.wear / (t.dc_wear_div->0 as int)
            } else {
                0
            }) + (if t.dc_heat_bump is Some && m.heat >= 4 {
                t.dc_heat_bump->0 as int
            } else {
                0
            });
            let r = beat_resolved(m, storylets, beat, choice);
            &&& (throw.0 + bonus >= dc ==> {
                &&& r.0 == affected(thrown, c.effects)
                &&& r.1 == filled(c.outcome@, r.0)
            })
            &&& (throw.0 + bonus < dc ==> {
                &&& (c.fail_effects is Some ==> r.0 == affected(thrown, c.fail_effects->0))
                &&& (c.fail_effects is None ==> r.0 == thrown)
                &&& (c.fail_outcome is Some ==> r.1 == filled(c.fail_outcome->0@, r.0))
                &&& (c.fail_outcome is None ==> r.1 == filled("It does not go well."@, r.0))
            })
        }),
{
    reveal_strlit("paperwork");
    reveal_strlit("spanners");
    reveal_strlit("charm");
}

/// A choice without a test takes its effects and its outcome, and nothing is
/// drawn; one that is not there changes nothing.
pub proof fn law_untested_choices_are_carried_out(
    m: MissionModel,
    storylets: Seq<Storylet>,
    beat: int,
    choice: int,
)
    ensures
        ({
            let r = beat_resolved(m, storylets, beat, choice);
            if 0 <= beat < m.beats.len() && find_storylet(storylets, m.beats[beat]) is Some {
                let st = find_storylet(storylets, m.beats[beat])->0;
                if 0 <= choice < st.choices@.len() {
                    st.choices@[choice].test is None ==> {
                        &&& r.0 == affected(m, st.choices@[choice].effects)
                        &&& r.1 == filled(st.choices@[choice].outcome@, r.0)
                    }
                } else {
                    r == (m, "The road continues, indifferent."@)
                }
            } else {
                r == (m, "The road continues, indifferent."@)
            }
        }),
{
}

/// The harder the test, the wear, the heat or the terrain, the worse: a test
/// that is failed is failed too where any of them is greater.
pub proof fn law_harder_tests_fail_too(m: MissionModel, t: Test, score: int, n: MissionModel, u: Test)
    requires
        !passes(m, t, score),
        0 <= m.wear <= n.wear,
        m.heat <= n.heat,
        m.dc_mod <= n.dc_mod,
        t.dc <= u.dc,
        u.dc_wear_div == t.dc_wear_div,
        u.dc_heat_bump == t.dc_heat_bump,
        t.dc_heat_bump is Some ==> 0 <= t.dc_heat_bump->0,
    ensures
        !passes(n, u, score),
{
    if t.dc_wear_div is Some && t.dc_wear_div->0 > 0 {
        vstd::arithmetic::div_mod::lemma_div_is_ordered(
            m.wear,
            n.wear,
            t.dc_wear_div->0 as int,
        );
    }
}

/// A beat tells its outcome first. A run that is then caught, broken down or
/// without its cargo is lost at once, and told so; any other shows the outcome
/// before the road goes on. Neither changes what the choice did.
pub proof fn law_beats_show_their_outcome(m: MissionModel, storylets: Seq<Storylet>, idx: int)
    requires
        takeable(m, storylets, idx),
        m.stage is Beat,
    ensures
        ({
            let beat = m.stage->Beat_idx;
            let r = beat_resolved(m, storylets, beat, idx);
            let n = stepped(m, storylets, idx);
            let ruined = r.0.heat >= 10 || r.0.wear >= 10 || r.0.cargo_lost;
            &&& n.m == (MissionModel { stage: n.m.stage, outcome: n.m.outcome, ..r.0 })
            &&& n.said[0] == r.1
            &&& (ruined ==> {
                &&& n.m.outcome is Lost
                &&& n.m.stage is Over
                &&& n.said.len() == 2
                &&& n.said[1] == n.m.outcome->Lost_lines[0]
            })
            &&& (!ruined ==> {
                &&& n.m.outcome is InProgress
                &&& n.m.stage == (StageModel::Outcome { idx: beat, text: r.1 })
                &&& n.said.len() == 1
            })
        }),
{
    let beat = m.stage->Beat_idx;
    let r = beat_resolved(m, storylets, beat, idx);
    lemma_resolving_keeps_outcome(m, storylets, beat, idx);
    assert(stepped(m, storylets, idx) == chosen(m, storylets, idx));
}

proof fn lemma_resolving_keeps_outcome(
    m: MissionModel,
    storylets: Seq<Storylet>,
    beat: int,
    idx: int,
)
    ensures
        beat_resolved(m, storylets, beat, idx).0.outcome == m.outcome,
{
}

// ------------------------------------------------------------------------ legs

/// Whether a run is ended by what it has come to.
pub open spec fn ruined(m: MissionModel) -> bool {
    m.heat >= 10 || m.wear >= 10 || m.cargo_lost
}

/// Every leg burns its fuel, whichever leg it is. What is left in the tank is
/// what was in it less the burn; where that is nothing or less, a farm's can of
/// eight litres goes in for thirty shillings, and a run that has not got them is
/// stranded with the tank empty and nothing else changed.
pub proof fn law_every_leg_burns_its_fuel(m: MissionModel, storylets: Seq<Storylet>, idx: int)
    requires
        m.outcome is InProgress,
    ensures
        ({
            let n = advanced(m, storylets, idx).m;
            let left = m.fuel_ml - m.leg_fuel_ml;
            &&& n.leg == idx + 1
            &&& (left > 0 ==> n.fuel_ml == left && n.cash_pence == m.cash_pence)
            &&& (left <= 0 && m.cash_pence >= 360 ==> n.fuel_ml == left + 8_000 && n.cash_pence
                == m.cash_pence - 360)
            &&& (left <= 0 && m.cash_pence < 360 ==> {
                &&& n.outcome is Lost
                &&& n.outcome->reason == "stranded"@
                &&& n == (MissionModel {
                    leg: idx + 1,
                    fuel_ml: 0,
                    outcome: n.outcome,
                    stage: StageModel::Over,
                    ..m
                })
            })
        }),
{
}

/// Every leg takes the terrain's toll on heat and wear, which stay between
/// nothing and ten, and loses the run that it leaves caught, broken down or
/// without its cargo. Any other is at its next beat, or at the drop where none
/// is left.
pub proof fn law_every_leg_takes_its_toll(m: MissionModel, storylets: Seq<Storylet>, idx: int)
    requires
        m.outcome is InProgress,
        m.fuel_ml - m.leg_fuel_ml > 0 || m.cash_pence >= 360,
    ensures
        ({
            let n = advanced(m, storylets, idx).m;
            let heat = m.heat + m.heat_per_leg;
            let wear = m.wear + m.wear_per_leg;
            &&& (0 <= heat <= 10 ==> n.heat == heat)
            &&& (heat > 10 ==> n.heat == 10)
            &&& (heat < 0 ==> n.heat == 0)
            &&& (0 <= wear <= 10 ==> n.wear == wear)
            &&& (wear > 10 ==> n.wear == 10)
            &&& (wear < 0 ==> n.wear == 0)
            &&& (ruined(n) ==> n.outcome is Lost && n.stage is Over)
            &&& (!ruined(n) ==> n.outcome is InProgress && (n.stage == (StageModel::Beat { idx })
                || n.stage is Arrival))
            &&& n == (MissionModel {
                leg: n.leg,
                fuel_ml: n.fuel_ml,
                cash_pence: n.cash_pence,
                heat: n.heat,
                wear: n.wear,
                beats: n.beats,
                stage: n.stage,
                outcome: n.outcome,
                rng: n.rng,
                ..m
            })
        }),
{
}

/// What a leg does to the gauges does not depend on how many were driven
/// before, nor on which beat it leads to.
pub proof fn law_legs_are_alike(
    m: MissionModel,
    storylets: Seq<Storylet>,
    idx: int,
    leg: int,
    other: int,
)
    ensures
        ({
            let a = advanced(m, storylets, idx).m;
            let b = advanced(MissionModel { leg, ..m }, storylets, other).m;
            &&& a.fuel_ml == b.fuel_ml
            &&& a.cash_pence == b.cash_pence
            &&& a.heat == b.heat
            &&& a.wear == b.wear
            &&& a.outcome == b.outcome
        }),
{
    let p = pool(driven(m, idx), storylets);
    let q = pool(driven(MissionModel { leg, ..m }, other), storylets);
    let f = |s: Storylet| eligible(driven(m, idx), storylets, s);
    let g = |s: Storylet| eligible(driven(MissionModel { leg, ..m }, other), storylets, s);
    assert(f =~= g);
    assert(p == q);
}

/// When a leg is driven, and which: setting off drives the first, and driving on
/// from the aftermath of a beat the one behind it, so long as the run has legs
/// left; behind the last the run is at the drop.
pub proof fn law_the_road_goes_leg_by_leg(m: MissionModel, storylets: Seq<Storylet>, idx: int)
    requires
        takeable(m, storylets, idx),
    ensures
        ({
            let n = stepped(m, storylets, idx).m;
            &&& (m.stage is Briefing && idx == 2 ==> n == advanced(m, storylets, 0).m)
            &&& (m.stage is Outcome && m.stage->Outcome_idx + 1 < m.legs_total ==> n == advanced(
                m,
                storylets,
                m.stage->Outcome_idx + 1,
            ).m)
            &&& (m.stage is Outcome && m.stage->Outcome_idx + 1 >= m.legs_total ==> n == (
            MissionModel { stage: StageModel::Arrival, ..m }))
            &&& (m.stage is Arrival ==> n.stage is Over)
        }),
{
}

/// Driving on burns fuel, leg after leg: a choice that sets off, or that drives
/// on to another beat, takes the burn out of the tank, with a can where that
/// empties it and thirty shillings are in hand; without them it strands.
pub proof fn law_driving_on_burns_fuel(m: MissionModel, storylets: Seq<Storylet>, idx: int)
    requires
        takeable(m, storylets, idx),
        (m.stage is Briefing && idx == 2) || (m.stage is Outcome && m.stage->Outcome_idx + 1
            < m.legs_total),
    ensures
        ({
            let n = stepped(m, storylets, idx).m;
            let left = m.fuel_ml - m.leg_fuel_ml;
            &&& (left > 0 ==> n.fuel_ml == left && n.cash_pence == m.cash_pence)
            &&& (left <= 0 && m.cash_pence >= 360 ==> n.fuel_ml == left + 8_000 && n.cash_pence
                == m.cash_pence - 360)
            &&& (left <= 0 && m.cash_pence < 360 ==> n.outcome is Lost && n.outcome->reason
                == "stranded"@ && n.fuel_ml == 0)
        }),
{
    law_the_road_goes_leg_by_leg(m, storylets, idx);
    if m.stage is Briefing {
        law_every_leg_burns_its_fuel(m, storylets, 0);
    } else {
        law_every_leg_burns_its_fuel(m, storylets, m.stage->Outcome_idx + 1);
    }
}

/// The run behind `k` legs that nothing came between.
pub open spec fn legs_behind(m: MissionModel, storylets: Seq<Storylet>, k: nat) -> MissionModel
    decreases k,
{
    if k == 0 {
        m
    } else {
        advanced(legs_behind(m, storylets, (k - 1) as nat), storylets, k - 1).m
    }
}

/// Over so many legs, without a can and with nothing else done to it, the tank
/// falls by as many burns.
pub proof fn law_burns_add_up(m: MissionModel, storylets: Seq<Storylet>, k: nat)
    requires
        0 <= m.leg_fuel_ml,
        k * m.leg_fuel_ml < m.fuel_ml,
    ensures
        legs_behind(m, storylets, k).fuel_ml == m.fuel_ml - k * m.leg_fuel_ml,
        legs_behind(m, storylets, k).leg_fuel_ml == m.leg_fuel_ml,
        legs_behind(m, storylets, k).cash_pence == m.cash_pence,
    decreases k,
{
    if k > 0 {
        let j = (k - 1) as nat;
        assert(k * m.leg_fuel_ml == j * m.leg_fuel_ml + m.leg_fuel_ml) by (nonlinear_arith)
            requires
                k == j + 1,
        ;
        law_burns_add_up(m, storylets, j);
    } else {
        assert(k * m.leg_fuel_ml == 0) by (nonlinear_arith)
            requires
                k == 0,
        ;
    }
}

// -------------------------------------------------------------------- the depot

/// What each choice at the depot does: the fixer tells one thing and has then
/// talked; the pump puts in twelve litres, or what there is room for, and takes
/// twelve times the price of one. Nothing else changes.
pub proof fn law_the_depot_does_what_it_says(m: MissionModel, storylets: Seq<Storylet>, idx: int)
    requires
        takeable(m, storylets, idx),
        m.stage is Briefing,
        idx != 2,
    ensures
        ({
            let n = stepped(m, storylets, idx);
            &&& (idx == 0 || idx == 1)
            &&& n.said.len() == 1
            &&& (idx == 0 ==> !m.talked && n.m == (MissionModel { talked: true, ..m }))
            &&& (idx == 1 ==> {
                &&& m.fuel_ml < m.max_fuel_ml
                &&& m.cash_pence >= 12 * m.diesel_price_pence
                &&& n.m.cash_pence == m.cash_pence - 12 * m.diesel_price_pence
                &&& (m.fuel_ml + 12_000 <= m.max_fuel_ml ==> n.m.fuel_ml == m.fuel_ml + 12_000)
                &&& (m.fuel_ml + 12_000 > m.max_fuel_ml ==> n.m.fuel_ml == m.max_fuel_ml)
                &&& n.m == (MissionModel {
                    cash_pence: n.m.cash_pence,
                    fuel_ml: n.m.fuel_ml,
                    ..m
                })
            })
        }),
{
}

/// What can be chosen at the depot: to ask, once; to top up, where there is room
/// in the tank and money for twelve litres; and always to set off.
pub proof fn law_what_the_depot_offers(m: MissionModel, storylets: Seq<Storylet>)
    requires
        m.stage is Briefing,
    ensures
        ({
            let c = scene_of(m, storylets).choices;
            &&& c.len() == 3
            &&& (c[0].enabled <==> !m.talked)
            &&& (c[1].enabled <==> m.fuel_ml < m.max_fuel_ml && m.cash_pence >= 12
                * m.diesel_price_pence)
            &&& c[2].enabled
        }),
{
}

/// What a beat offers: the choices of its storylet, in order and filled in from
/// the run, each of them open unless it asks for more than is in the pocket.
pub proof fn law_what_a_beat_offers(m: MissionModel, storylets: Seq<Storylet>, i: int)
    requires
        m.stage is Beat,
        0 <= m.stage->Beat_idx < m.beats.len(),
        find_storylet(storylets, m.beats[m.stage->Beat_idx]) is Some,
        0 <= i < find_storylet(storylets, m.beats[m.stage->Beat_idx])->0.choices@.len(),
    ensures
        ({
            let st = find_storylet(storylets, m.beats[m.stage->Beat_idx])->0;
            let s = scene_of(m, storylets);
            let c = st.choices@[i];
            &&& s.title == filled(st.title@, m)
            &&& s.body.len() == st.body@.len()
            &&& forall|j: int| 0 <= j < s.body.len() ==> #[trigger] s.body[j] == filled(st.body@[j]@, m)
            &&& s.choices.len() == st.choices@.len()
            &&& s.choices[i].label == filled(c.label@, m)
            &&& (s.choices[i].enabled <==> (c.requires_cash is None || c.requires_cash->0
                <= m.cash_pence))
            &&& (s.choices[i].note is None <==> s.choices[i].enabled)
            &&& (s.speaker == Some("finch"@) <==> st.template@ == "checkpoint"@ && m.heat >= 4)
            &&& (s.speaker == Some("hobbs"@) <==> st.template@ == "checkpoint"@ && m.heat < 4)
            &&& (s.speaker == Some("carver"@) <==> st.template@ == "shakedown"@)
            &&& (s.speaker == Some("wray"@) <==> st.template@ == "traveller"@)
            &&& (s.speaker is None <==> st.template@ != "checkpoint"@ && st.template@
                != "shakedown"@ && st.template@ != "traveller"@)
        }),
{
    reveal_strlit("finch");
    reveal_strlit("hobbs");
    reveal_strlit("carver");
    reveal_strlit("wray");
    reveal_strlit("checkpoint");
    reveal_strlit("shakedown");
    reveal_strlit("traveller");
    assert("finch"@.len() == 5 && "hobbs"@.len() == 5 && "carver"@.len() == 6 && "wray"@.len()
        == 4);
    assert("finch"@[0] == 'f' && "hobbs"@[0] == 'h');
    assert("checkpoint"@.len() == 10 && "shakedown"@.len() == 9 && "traveller"@.len() == 9);
    assert("shakedown"@[0] == 's' && "traveller"@[0] == 't');
}

/// What the other stages offer: one choice, which is open; and what they show:
/// the outcome of the beat, or the lines of the verdict.
pub proof fn law_what_the_other_stages_show(m: MissionModel, storylets: Seq<Storylet>)
    requires
        !(m.stage is Briefing),
        !(m.stage is Beat),
    ensures
        ({
            let s = scene_of(m, storylets);
            &&& s.choices.len() == 1
            &&& s.choices[0].enabled
            &&& s.speaker is None
            &&& (m.stage is Outcome ==> s.body == seq![m.stage->Outcome_text])
            &&& (m.stage is Over && m.outcome is Won ==> s.body == m.outcome->Won_lines && s.title
                == "Delivered"@)
            &&& (m.stage is Over && m.outcome is Lost ==> s.body == m.outcome->Lost_lines
                && s.title == "Lost — "@ + m.outcome->reason)
        }),
{
}

/// A choice can be taken exactly where the scene offers it, open, and the run
/// has no verdict yet.
pub proof fn law_what_is_offered_can_be_taken(m: MissionModel, storylets: Seq<Storylet>, idx: int)
    ensures
        takeable(m, storylets, idx) <==> {
            &&& 0 <= idx < scene_of(m, storylets).choices.len()
            &&& scene_of(m, storylets).choices[idx].enabled
            &&& m.outcome is InProgress
        },
        !takeable(m, storylets, idx) ==> stepped(m, storylets, idx).m == m,
{
}

// --------------------------------------------------------------------- the drop

/// What handing over comes to: a run that is caught, broken down or without its
/// cargo is lost; any other is won with its reward, and nothing but the verdict
/// changes.
pub proof fn law_the_drop_decides(m: MissionModel, storylets: Seq<Storylet>)
    requires
        m.stage is Arrival,
        m.outcome is InProgress,
    ensures
        ({
            let n = stepped(m, storylets, 0);
            &&& n.m == (MissionModel { stage: StageModel::Over, outcome: n.m.outcome, ..m })
            &&& n.said.len() == 1
            &&& (ruined(m) ==> n.m.outcome is Lost && n.said[0] == n.m.outcome->Lost_lines[0])
            &&& (!ruined(m) ==> n.m.outcome is Won && n.m.outcome->haul_pence == m.reward_pence)
        }),
{
    assert(takeable(m, storylets, 0));
}

/// Why a run is lost: caught before broken down, broken down before the cargo.
pub proof fn law_reasons_come_in_order(m: MissionModel)
    ensures
        failure(m) is Some <==> ruined(m),
        m.heat >= 10 ==> (failure(m)->0).0 == "caught"@,
        m.heat < 10 && m.wear >= 10 ==> (failure(m)->0).0 == "broken down"@,
        m.heat < 10 && m.wear < 10 && m.cargo_lost ==> (failure(m)->0).0 == "cargo gone"@,
{
}

proof fn lemma_epitaphs(flags: Seq<Text>, flag: Text)
    ensures
        flags.contains(flag) && epitaph_of(flag) is Some ==> epitaphs(flags).contains(
            epitaph_of(flag)->0,
        ),
        epitaphs(flags).len() <= flags.len(),
    decreases flags.len(),
{
    if flags.len() > 0 {
        let d = flags.drop_last();
        lemma_epitaphs(d, flag);
        let out = epitaphs(flags);
        let inner = epitaphs(d);
        if flags.contains(flag) && epitaph_of(flag) is Some {
            let t = epitaph_of(flag)->0;
            if flags.last() == flag {
                assert(out[inner.len() as int] == t);
            } else {
                let k = flags.index_of(flag);
                assert(d[k] == flag);
                assert(inner.contains(t));
                assert(out[inner.index_of(t)] == t);
            }
        }
    }
}

/// What a delivered run is told of: the delivery, the haul and the pocket, the
/// state of the truck, and then each deed that is remembered.
pub proof fn law_deliveries_are_summed_up(m: MissionModel, flag: Text)
    requires
        !ruined(m),
    ensures
        ({
            let lines = delivered(m).m.outcome->Won_lines;
            &&& 3 <= lines.len() <= 3 + m.flags.len()
            &&& lines[0] == m.qty_desc + " of "@ + m.cargo + " delivered to "@ + m.dest_name
                + "."@
            &&& lines[1] == "Haul: "@ + money(m.reward_pence)
                + ". Pocket on the road: "@ + money(m.cash_pence) + "."@
            &&& lines[2] == "Brought her in at wear "@ + dec(m.wear) + "/10, heat "@
                + dec(m.heat) + "/10."@
            &&& (m.flags.contains(flag) && epitaph_of(flag) is Some ==> lines.contains(
                epitaph_of(flag)->0,
            ))
        }),
{
    lemma_epitaphs(m.flags, flag);
    let lines = delivered(m).m.outcome->Won_lines;
    let es = epitaphs(m.flags);
    assert(lines.skip(3) =~= es);
    if m.flags.contains(flag) && epitaph_of(flag) is Some {
        let k = es.index_of(epitaph_of(flag)->0);
        assert(lines[3 + k] == es[k]);
    }
}

/// What is said of each deed that is remembered, and of no other.
pub proof fn law_deeds_have_their_epitaphs(flag: Text)
    ensures
        flag == "gate_smashed"@ ==> epitaph_of(flag) == Some(
            "You left a Collective pole in splinters. They'll remember the plate."@,
        ),
        flag == "bribed_checkpoint"@ ==> epitaph_of(flag) == Some(
            "A cash box on the road knows your face now."@,
        ),
        flag == "helped_traveller"@ ==> epitaph_of(flag) == Some(
            "A seed merchant owes you a kindness. It may even be collected."@,
        ),
        flag == "took_salvage"@ ==> epitaph_of(flag) == Some(
            "Forty unprovenanced tins rode home under the sheeting."@,
        ),
        flag == "ran_ambush"@ ==> epitaph_of(flag) == Some(
            "Somebody planned an evening around stopping you, and didn't."@,
        ),
        flag == "refused_carver"@ ==> epitaph_of(flag) == Some(
            "You told Carver's men no, to their faces. Word gets about."@,
        ),
        flag == "paid_carver"@ ==> epitaph_of(flag) == Some(
            "Carver's notebook has a tick by your name."@,
        ),
        epitaph_of(flag) is Some ==> {
            ||| flag == "gate_smashed"@
            ||| flag == "bribed_checkpoint"@
            ||| flag == "helped_traveller"@
            ||| flag == "took_salvage"@
            ||| flag == "ran_ambush"@
            ||| flag == "refused_carver"@
            ||| flag == "paid_carver"@
        },
{
    reveal_strlit("gate_smashed");
    reveal_strlit("bribed_checkpoint");
    reveal_strlit("helped_traveller");
    reveal_strlit("took_salvage");
    reveal_strlit("ran_ambush");
    reveal_strlit("refused_carver");
    reveal_strlit("paid_carver");
    assert("gate_smashed"@.len() == 12 && "bribed_checkpoint"@.len() == 17
        && "helped_traveller"@.len() == 16 && "took_salvage"@.len() == 12 && "ran_ambush"@.len()
        == 10 && "refused_carver"@.len() == 14 && "paid_carver"@.len() == 11);
    assert("took_salvage"@[0] == 't' && "gate_smashed"@[0] == 'g');
}

// --------------------------------------------------------------------- the frame

/// The job is what it was, however the run is played: seed, terrain, cargo,
/// destination, cast, prices, tank and tolls never change.
pub proof fn law_the_job_never_changes(m: MissionModel, storylets: Seq<Storylet>, choices: Seq<int>)
    ensures
        ({
            let n = played(m, storylets, choices);
            m == (MissionModel {
                reward_pence: m.reward_pence,
                cash_pence: m.cash_pence,
                fuel_ml: m.fuel_ml,
                wear: m.wear,
                heat: m.heat,
                leg: m.leg,
                beats: m.beats,
                stage: m.stage,
                outcome: m.outcome,
                flags: m.flags,
                talked: m.talked,
                cargo_lost: m.cargo_lost,
                rng: m.rng,
                ..n
            })
        }),
    decreases choices.len(),
{
    if choices.len() > 0 {
        law_the_job_never_changes(m, storylets, choices.drop_last());
        lemma_step_keeps_the_job(
            played(m, storylets, choices.drop_last()),
            storylets,
            choices.last(),
        );
    }
}

proof fn lemma_step_keeps_the_job(m: MissionModel, storylets: Seq<Storylet>, idx: int)
    ensures
        ({
            let n = stepped(m, storylets, idx).m;
            m == (MissionModel {
                reward_pence: m.reward_pence,
                cash_pence: m.cash_pence,
                fuel_ml: m.fuel_ml,
                wear: m.wear,
                heat: m.heat,
                leg: m.leg,
                beats: m.beats,
                stage: m.stage,
                outcome: m.outcome,
                flags: m.flags,
                talked: m.talked,
                cargo_lost: m.cargo_lost,
                rng: m.rng,
                ..n
            })
        }),
{
}

/// A pump that cannot serve, for want of room or of money, and a choice that the
/// depot does not have, change nothing and tell nothing.
pub proof fn law_the_pump_wants_paying(m: MissionModel, storylets: Seq<Storylet>, idx: int)
    requires
        m.stage is Briefing,
        (idx == 1 && (m.fuel_ml >= m.max_fuel_ml || m.cash_pence < 12 * m.diesel_price_pence)) || idx
            < 0 || idx > 2,
    ensures
        chosen(m, storylets, idx).m == m,
        chosen(m, storylets, idx).said.len() == 0,
        briefing_turn(m, storylets, idx).m == m,
        briefing_turn(m, storylets, idx).said.len() == 0,
{
}

/// A run that is over stays as it is, whatever is chosen.
pub proof fn law_over_is_over(m: MissionModel, storylets: Seq<Storylet>, idx: int)
    requires
        m.stage is Over,
    ensures
        chosen(m, storylets, idx).m == m,
        chosen(m, storylets, idx).said.len() == 0,
{
}

} // verus!
