//! Laws of the roll and of the sums: how a job is drawn from its seed, who hunts
//! it, and that ordinary play stays within sixty-four bits.

use vstd::prelude::*;

use crate::content::{ContentDb, Effects, Npc, Storylet, Test};
use crate::dice::{
    dice_of, draw, draw_index, draw_small, drawn_u32, drawn_u64, expanded_seed, DiceModel,
};
use crate::engine::{eligible, find_storylet, pool, template_for, total_heft};
use crate::generate::{generate_fits, hunter_at, hunters, is_npc, picks_for};
use crate::mission::{quotient, MissionModel};
use crate::panel::inquiry_fits;
use crate::road::{driven, effects_fit, step_fits};
use crate::session::screen_fits;
use crate::text::Text;
use crate::world::{standing, WorldModel};

verus! {

// ------------------------------------------------------------------------- draws

/// A draw takes its value from the stream at its position, and moves the
/// position and nothing else. An index is drawn as wide as the machine counts.
pub proof fn law_draws_move_the_stream(d: DiceModel, low: u64, high: u64, lo: u32, hi: u32)
    ensures
        draw(d, low, high).0 == drawn_u64(d.seed, d.stream, d.word_pos, low, high).0,
        draw(d, low, high).1 == (DiceModel {
            word_pos: drawn_u64(d.seed, d.stream, d.word_pos, low, high).1,
            ..d
        }),
        draw_small(d, lo, hi).0 == drawn_u32(d.seed, d.stream, d.word_pos, lo, hi).0,
        draw_small(d, lo, hi).1 == (DiceModel {
            word_pos: drawn_u32(d.seed, d.stream, d.word_pos, lo, hi).1,
            ..d
        }),
        high < u64::MAX && usize::BITS == 64 ==> draw_index(d, (high + 1) as nat) == draw(
            d,
            0,
            high,
        ),
        hi < u32::MAX && usize::BITS != 64 ==> draw_index(d, (hi + 1) as nat).0 == drawn_u32(
            d.seed,
            d.stream,
            d.word_pos,
            0,
            hi,
        ).0 && draw_index(d, (hi + 1) as nat).1.word_pos == drawn_u32(
            d.seed,
            d.stream,
            d.word_pos,
            0,
            hi,
        ).1,
{
}

/// What an index out of so many is, at a position of the stream of a job.
pub open spec fn rolled(seed: u64, word_pos: u128, count: nat) -> (u64, u128) {
    if usize::BITS == 64 {
        drawn_u64(expanded_seed(seed), 0, word_pos, 0, (count - 1) as u64)
    } else {
        let r = drawn_u32(expanded_seed(seed), 0, word_pos, 0, (count - 1) as u32);
        (r.0 as u64, r.1)
    }
}

/// A job is rolled in turn from the start of the stream of its seed: terrain,
/// cargo, destination, the price of diesel, the bonus and the hunter, each from
/// where the one before it left off. Where there is no destination or no hunter
/// to roll for, nothing is rolled.
pub proof fn law_jobs_are_rolled_in_turn(seed: u64, content: ContentDb)
    ensures
        ({
            let p = picks_for(seed, content);
            let bytes = expanded_seed(seed);
            let terrain = rolled(seed, 0, content.terrains@.len());
            let cargo = rolled(seed, terrain.1, content.cargoes@.len());
            let dest = rolled(seed, cargo.1, content.settlements@.len());
            let at = if content.settlements@.len() > 0 {
                dest.1
            } else {
                cargo.1
            };
            let diesel = drawn_u64(bytes, 0, at, 14, 22);
            let bonus = drawn_u64(bytes, 0, diesel.1, 0, 8);
            &&& p.terrain == terrain.0
            &&& p.cargo == cargo.0
            &&& (content.settlements@.len() > 0 ==> p.dest == dest.0)
            &&& p.diesel == diesel.0
            &&& p.bonus == bonus.0
            &&& (hunters(content.npcs@).len() > 0 ==> p.antagonist == rolled(
                seed,
                bonus.1,
                hunters(content.npcs@).len(),
            ).0)
        }),
        dice_of(seed) == (DiceModel { seed: expanded_seed(seed), stream: 0, word_pos: 0 }),
{
}

/// Who may hunt a run: those of Hobbs, Finch and Carver who are about, in that
/// order, each of them once.
pub proof fn law_who_may_hunt(npcs: Seq<Npc>, pick: int)
    ensures
        ({
            let a = is_npc(npcs, "hobbs"@);
            let b = is_npc(npcs, "finch"@);
            let c = is_npc(npcs, "carver"@);
            let n = hunters(npcs).len() as int;
            &&& n == (if a {
                1int
            } else {
                0
            }) + (if b {
                1int
            } else {
                0
            }) + (if c {
                1int
            } else {
                0
            })
            &&& (a ==> hunters(npcs)[0] == "hobbs"@)
            &&& (c ==> hunters(npcs)[n - 1] == "carver"@)
            &&& (b ==> hunters(npcs)[if a {
                1int
            } else {
                0
            }] == "finch"@)
            &&& (n > 0 ==> hunter_at(npcs, pick) == hunters(npcs)[pick])
            &&& (n == 0 ==> hunter_at(npcs, pick).len() == 0)
        }),
{
}

/// The template of a beat is that of the storylet with its id.
pub proof fn law_beats_have_their_templates(storylets: Seq<Storylet>, id: Text)
    ensures
        find_storylet(storylets, id) is Some ==> template_for(storylets, id) == Some(
            find_storylet(storylets, id)->0.template@,
        ),
        find_storylet(storylets, id) is None ==> template_for(storylets, id) is None,
{
}

// -------------------------------------------------------------------------- sums

/// A number of the size that play deals in.
pub open spec fn modest(x: int) -> bool {
    -1_000_000_000 <= x <= 1_000_000_000
}

/// Effects of the size that play deals in.
pub open spec fn modest_effects(e: Effects) -> bool {
    &&& (e.cash is Some ==> modest(e.cash->0 as int))
    &&& (e.fuel_ml is Some ==> modest(e.fuel_ml->0 as int))
    &&& (e.wear is Some ==> modest(e.wear->0 as int))
    &&& (e.heat is Some ==> modest(e.heat->0 as int))
    &&& (e.payment_pct is Some ==> modest(e.payment_pct->0 as int))
}

/// A test of the size that play deals in.
pub open spec fn modest_test(t: Test) -> bool {
    &&& modest(t.dc as int)
    &&& (t.dc_heat_bump is Some ==> modest(t.dc_heat_bump->0 as int))
}

/// A storylet of the size that play deals in.
pub open spec fn modest_storylet(st: Storylet) -> bool {
    &&& st.weight <= 1_000
    &&& forall|i: int|
        0 <= i < st.choices@.len() ==> {
            let c = #[trigger] st.choices@[i];
            &&& modest_effects(c.effects)
            &&& (c.fail_effects is Some ==> modest_effects(c.fail_effects->0))
            &&& (c.test is Some ==> modest_test(c.test->0))
        }
}

/// A run of the size that play deals in.
pub open spec fn modest_run(m: MissionModel) -> bool {
    &&& modest(m.cash_pence)
    &&& modest(m.fuel_ml)
    &&& 0 <= m.max_fuel_ml <= 1_000_000_000
    &&& modest(m.leg_fuel_ml)
    &&& modest(m.heat)
    &&& modest(m.wear)
    &&& modest(m.heat_per_leg)
    &&& modest(m.wear_per_leg)
    &&& modest(m.reward_pence)
    &&& modest(m.diesel_price_pence)
    &&& modest(m.dc_mod)
    &&& (m.stage is Outcome ==> m.stage->Outcome_idx < 1_000_000_000)
}

proof fn lemma_heft_bound(p: Seq<Storylet>)
    requires
        forall|i: int| 0 <= i < p.len() ==> (#[trigger] p[i]).weight <= 1_000,
    ensures
        total_heft(p) <= 1_000 * p.len(),
    decreases p.len(),
{
    if p.len() > 0 {
        let d = p.drop_last();
        assert forall|i: int| 0 <= i < d.len() implies (#[trigger] d[i]).weight <= 1_000 by {
            assert(d[i] == p[i]);
        }
        lemma_heft_bound(d);
        assert(p.last() == p[p.len() - 1]);
    }
}

proof fn lemma_pool_bound(m: MissionModel, storylets: Seq<Storylet>)
    requires
        storylets.len() <= 1_000_000,
        forall|i: int| 0 <= i < storylets.len() ==> modest_storylet(#[trigger] storylets[i]),
    ensures
        total_heft(pool(m, storylets)) <= 1_000_000_000,
{
    let p = pool(m, storylets);
    let pred = |st: Storylet| eligible(m, storylets, st);
    storylets.lemma_filter_len(pred);
    assert(p == storylets.filter(pred));
    assert forall|i: int| 0 <= i < p.len() implies (#[trigger] p[i]).weight <= 1_000 by {
        assert(storylets.filter(pred).contains(p[i]));
        storylets.lemma_filter_contains_rev(pred, p[i]);
        let k = storylets.index_of(p[i]);
        assert(modest_storylet(storylets[k]));
    }
    lemma_heft_bound(p);
}

proof fn lemma_part_of_wear(wear: int, div: int)
    requires
        modest(wear),
        div > 0,
    ensures
        modest(quotient(wear, div)),
{
    if wear >= 0 {
        vstd::arithmetic::div_mod::lemma_div_is_ordered_by_denominator(wear, 1, div);
        vstd::arithmetic::div_mod::lemma_div_pos_is_pos(wear, div);
        assert(wear / 1 == wear);
    } else {
        vstd::arithmetic::div_mod::lemma_div_is_ordered_by_denominator(-wear, 1, div);
        vstd::arithmetic::div_mod::lemma_div_pos_is_pos(-wear, div);
        assert((-wear) / 1 == -wear);
    }
}

proof fn lemma_modest_share(reward: int, pct: int)
    requires
        modest(reward),
        modest(pct),
        100 + pct >= 0,
    ensures
        i64::MIN <= reward * (100 + pct) <= i64::MAX,
{
    assert(-2_000_000_000_000_000_000 <= reward * (100 + pct) <= 2_000_000_000_000_000_000)
        by (nonlinear_arith)
        requires
            -1_000_000_000 <= reward <= 1_000_000_000,
            0 <= 100 + pct <= 1_000_000_100,
    ;
}

/// Ordinary play never leaves sixty-four bits: with a run and storylets whose
/// numbers are at most a thousand million, every scene can be shown and every
/// choice be taken.
pub proof fn law_ordinary_play_can_be_worked_out(
    m: MissionModel,
    storylets: Seq<Storylet>,
    idx: int,
)
    requires
        modest_run(m),
        storylets.len() <= 1_000_000,
        forall|i: int| 0 <= i < storylets.len() ==> modest_storylet(#[trigger] storylets[i]),
    ensures
        step_fits(m, storylets, idx),
        screen_fits(m),
{
    lemma_pool_bound(driven(m, 0), storylets);
    if m.stage is Outcome {
        lemma_pool_bound(driven(m, m.stage->Outcome_idx + 1), storylets);
        assert(m.stage->Outcome_idx < usize::MAX) by {
            assert(usize::MAX >= 0xFFFF_FFFF);
        }
    }
    if m.stage is Beat {
        let b = m.stage->Beat_idx;
        if 0 <= b < m.beats.len() {
            if let Some(st) = find_storylet(storylets, m.beats[b]) {
                lemma_found_is_there(storylets, m.beats[b]);
                if 0 <= idx < st.choices@.len() {
                    let c = st.choices@[idx];
                    lemma_modest_effects_fit(m, c.effects);
                    if let Some(fe) = c.fail_effects {
                        lemma_modest_effects_fit(m, fe);
                    }
                    if let Some(t) = c.test {
                        if let Some(div) = t.dc_wear_div {
                            if div > 0 {
                                lemma_part_of_wear(m.wear, div as int);
                            }
                        }
                    }
                }
            }
        }
    }
}

proof fn lemma_modest_effects_fit(m: MissionModel, e: Effects)
    requires
        modest_run(m),
        modest_effects(e),
    ensures
        effects_fit(m, e),
{
    if let Some(v) = e.payment_pct {
        if 100 + v >= 0 {
            lemma_modest_share(m.reward_pence, v as int);
        }
    }
}

proof fn lemma_found_is_there(storylets: Seq<Storylet>, id: Text)
    requires
        find_storylet(storylets, id) is Some,
    ensures
        exists|k: int|
            0 <= k < storylets.len() && #[trigger] storylets[k] == find_storylet(storylets, id)->0,
    decreases storylets.len(),
{
    if storylets.len() > 0 {
        if storylets[0].id@ == id {
            assert(storylets[0] == find_storylet(storylets, id)->0);
        } else {
            let d = storylets.drop_first();
            lemma_found_is_there(d, id);
            let k = choose|k: int| 0 <= k < d.len() && #[trigger] d[k] == find_storylet(d, id)->0;
            assert(storylets[k + 1] == d[k]);
        }
    }
}

/// Ordinary content can be rolled from, whatever the seed.
pub proof fn law_ordinary_content_can_be_rolled(content: ContentDb)
    requires
        content.terrains@.len() > 0,
        content.cargoes@.len() > 0,
        forall|i: int|
            0 <= i < content.terrains@.len() ==> {
                let t = #[trigger] content.terrains@[i];
                &&& modest(t.start_fuel_l as int)
                &&& modest(t.max_fuel_l as int)
                &&& modest(t.leg_fuel_l as int)
            },
        forall|j: int|
            0 <= j < content.cargoes@.len() ==> modest(
                (#[trigger] content.cargoes@[j]).base_pay_pence as int,
            ),
    ensures
        generate_fits(content),
{
}

/// An ordinary hearing can go on: with suspicion, money, standings and
/// credibility that are at most a thousand million, any choice can be taken.
pub proof fn law_ordinary_hearings_can_go_on(w: WorldModel, idx: int)
    requires
        modest(w.guild_suspicion),
        modest(w.cash_pence),
        forall|name: Text| modest(#[trigger] standing(w.factions, name)),
        w.inquiry is Some ==> modest(w.inquiry->0.credibility),
    ensures
        inquiry_fits(w, idx),
{
}

} // verus!
