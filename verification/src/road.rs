//! Playing a run: the choices at the depot, the legs, the beats and the drop.

use vstd::prelude::*;
use vstd::string::*;

use crate::content::{ContentDb, Effects, SChoice, Storylet, Test};
use crate::dice::{draw, draw_small, Dice};
use crate::engine::{draw_next, picked, pool, total_heft};
use crate::flags::inserted;
use crate::mission::{
    clamp_i64, clamped, fmt_pence, money, narrate, quotient, skill_bonus, skill_value, Command,
    Event, Mission, MissionModel, Outcome, OutcomeModel, Stage, StageModel, DIESEL_BUY_L,
    JERRY_CAN_ML, JERRY_CAN_PENCE, MAX_HEAT, MAX_WEAR,
};
use crate::prose;
use crate::scenes::{
    beat_storylet, brimmed, facing, filled, scene, scene_fits, scene_of, subst, top_up_cost,
};
use crate::text::{dec, decimal_i64, lemma_views_push, same_text, views, Text};

verus! {

/// A turn of play: the state behind it and what was told on the way.
#[verifier::ext_equal]
pub struct Turn {
    pub m: MissionModel,
    pub said: Seq<Text>,
}

/// Whether a sum can be held in 64 bits.
pub open spec fn fits(x: int) -> bool {
    i64::MIN <= x <= i64::MAX
}

// ------------------------------------------------------------------- failure

/// The earned loss conditions: the reason and the lines, if one holds. The
/// order matters only for the reported reason.
pub open spec fn failure(m: MissionModel) -> Option<(Text, Seq<Text>)> {
    if m.heat >= MAX_HEAT {
        Some(
            (
                "caught"@,
                seq![
                    prose::CAUGHT_LINE@,
                    m.qty_desc + " of "@ + m.cargo + " change owner, and not to your profit."@,
                ],
            ),
        )
    } else if m.wear >= MAX_WEAR {
        Some(("broken down"@, seq![prose::BROKEN_LINE@, prose::BROKEN_COMPANY@]))
    } else if m.cargo_lost {
        Some(("cargo gone"@, seq![prose::CARGO_LINE@]))
    } else {
        None
    }
}

/// The earned loss conditions. The order matters only for the reported reason.
pub fn check_failure(m: &Mission) -> (r: Option<(String, Vec<String>)>)
    ensures
        match r {
            Some(f) => failure(m@) == Some((f.0@, views(f.1@))),
            None => failure(m@) is None,
        },
{
    if m.heat >= MAX_HEAT {
        let goods = m.qty_desc.clone().concat(" of ").concat(m.cargo.as_str()).concat(
            " change owner, and not to your profit.",
        );
        let lines = vec![prose::CAUGHT_LINE.to_string(), goods];
        assert(views(lines@) =~= (failure(m@)->0).1);
        return Some(("caught".to_string(), lines));
    }
    if m.wear >= MAX_WEAR {
        let lines = vec![prose::BROKEN_LINE.to_string(), prose::BROKEN_COMPANY.to_string()];
        assert(views(lines@) =~= (failure(m@)->0).1);
        return Some(("broken down".to_string(), lines));
    }
    if m.cargo_lost {
        let lines = vec![prose::CARGO_LINE.to_string()];
        assert(views(lines@) =~= (failure(m@)->0).1);
        return Some(("cargo gone".to_string(), lines));
    }
    None
}

/// The run, lost.
pub open spec fn lost(m: MissionModel, reason: Text, lines: Seq<Text>) -> MissionModel {
    MissionModel {
        outcome: OutcomeModel::Lost { reason, lines },
        stage: StageModel::Over,
        ..m
    }
}

/// The line told when a run is lost: the first of the verdict.
pub open spec fn headline(lines: Seq<Text>) -> Text {
    if lines.len() > 0 {
        lines[0]
    } else {
        Seq::empty()
    }
}

/// Ends the run as lost.
pub fn lose(m: &mut Mission, reason: String, lines: Vec<String>, events: &mut Vec<Event>)
    ensures
        final(m)@ == lost(old(m)@, reason@, views(lines@)),
        views(final(events)@) == views(old(events)@).push(headline(views(lines@))),
{
    let first = if lines.len() > 0 {
        assert(views(lines@)[0] == lines@[0]@);
        lines[0].clone()
    } else {
        String::new()
    };
    narrate(events, first);
    m.outcome = Outcome::Lost { reason, lines };
    m.stage = Stage::Over;
}

// ------------------------------------------------------------------- effects

/// The reward after an adjustment by `pct` percent, never below nothing.
pub open spec fn adjusted_reward(reward: int, pct: int) -> int {
    let factor = if 100 + pct < 0 {
        0
    } else {
        100 + pct
    };
    let r = quotient(reward * factor, 100);
    if r < 0 {
        0
    } else {
        r
    }
}

/// The run after the effects of a choice.
pub open spec fn affected(m: MissionModel, e: Effects) -> MissionModel {
    MissionModel {
        cash_pence: match e.cash {
            Some(v) => if m.cash_pence + v < 0 {
                0
            } else {
                m.cash_pence + v
            },
            None => m.cash_pence,
        },
        fuel_ml: match e.fuel_ml {
            Some(v) => clamped(m.fuel_ml + v, 0, m.max_fuel_ml),
            None => m.fuel_ml,
        },
        wear: match e.wear {
            Some(v) => clamped(m.wear + v, 0, MAX_WEAR as int),
            None => m.wear,
        },
        heat: match e.heat {
            Some(v) => clamped(m.heat + v, 0, MAX_HEAT as int),
            None => m.heat,
        },
        reward_pence: match e.payment_pct {
            Some(v) => adjusted_reward(m.reward_pence, v as int),
            None => m.reward_pence,
        },
        cargo_lost: m.cargo_lost || e.lose_cargo == Some(true),
        flags: match e.flag {
            Some(f) => inserted(m.flags, f@),
            None => m.flags,
        },
        ..m
    }
}

/// The sums of the effects can be worked out, and there is a tank to fill.
pub open spec fn effects_fit(m: MissionModel, e: Effects) -> bool {
    &&& (e.cash matches Some(v) ==> fits(m.cash_pence + v))
    &&& (e.fuel_ml matches Some(v) ==> fits(m.fuel_ml + v) && 0 <= m.max_fuel_ml)
    &&& (e.wear matches Some(v) ==> fits(m.wear + v))
    &&& (e.heat matches Some(v) ==> fits(m.heat + v))
    &&& (e.payment_pct matches Some(v) ==> fits(100 + v) && (100 + v >= 0 ==> fits(
        m.reward_pence * (100 + v),
    )))
}

fn adjust_reward(reward: i64, pct: i64) -> (r: i64)
    requires
        fits(100 + pct),
        100 + pct >= 0 ==> fits(reward * (100 + pct)),
    ensures
        r == adjusted_reward(reward as int, pct as int),
{
    let sum: i64 = 100 + pct;
    if sum < 0 {
        assert(reward * 0 == 0) by (nonlinear_arith);
        return 0;
    }
    let r: i64 = reward * sum / 100;
    if r < 0 {
        0
    } else {
        r
    }
}

/// Applies the effects of a choice.
pub fn apply_effects(m: &mut Mission, e: &Effects)
    requires
        effects_fit(old(m)@, *e),
    ensures
        final(m)@ == affected(old(m)@, *e),
{
    if let Some(v) = e.cash {
        let sum: i64 = m.cash_pence + v;
        m.cash_pence = if sum < 0 {
            0
        } else {
            sum
        };
    }
    if let Some(v) = e.fuel_ml {
        m.fuel_ml = clamp_i64(m.fuel_ml + v, 0, m.max_fuel_ml);
    }
    if let Some(v) = e.wear {
        m.wear = clamp_i64(m.wear + v, 0, MAX_WEAR);
    }
    if let Some(v) = e.heat {
        m.heat = clamp_i64(m.heat + v, 0, MAX_HEAT);
    }
    if let Some(v) = e.payment_pct {
        m.reward_pence = adjust_reward(m.reward_pence, v);
    }
    if let Some(true) = e.lose_cargo {
        m.cargo_lost = true;
    }
    if let Some(f) = &e.flag {
        m.flags.insert(f.clone());
    }
}

// --------------------------------------------------------------------- tests

/// The difficulty of a test on this truck, at this heat.
pub open spec fn difficulty(m: MissionModel, t: Test) -> int {
    t.dc + m.dc_mod + match t.dc_wear_div {
        Some(div) => if div > 0 {
            quotient(m.wear, div as int)
        } else {
            0
        },
        None => 0,
    } + match t.dc_heat_bump {
        Some(bump) => if m.heat >= 4 {
            bump as int
        } else {
            0
        },
        None => 0,
    }
}

/// The difficulty can be added up.
pub open spec fn test_fits(m: MissionModel, t: Test) -> bool {
    &&& fits(t.dc + m.dc_mod)
    &&& (t.dc_wear_div matches Some(div) ==> (div > 0 ==> fits(
        t.dc + m.dc_mod + quotient(m.wear, div as int),
    )))
    &&& fits(difficulty(m, t))
}

/// Whether a score passes the test.
pub open spec fn passes(m: MissionModel, t: Test, score: int) -> bool {
    score >= difficulty(m, t)
}

/// The score that the run's stream gives next on a skill: d12 + skill.
pub open spec fn next_score(m: MissionModel, skill: Text) -> int {
    draw(m.rng, 1, 12).0 + skill_bonus(skill)
}

/// The run with the die thrown.
pub open spec fn die_thrown(m: MissionModel) -> MissionModel {
    MissionModel { rng: draw(m.rng, 1, 12).1, ..m }
}

/// Whether a score passes the test.
pub fn test_passes(m: &Mission, t: &Test, score: i64) -> (r: bool)
    requires
        test_fits(m@, *t),
    ensures
        r == passes(m@, *t, score as int),
{
    let mut dc: i64 = t.dc + m.dc_mod;
    if let Some(div) = t.dc_wear_div {
        if div > 0 {
            dc = dc + m.wear / div;
        }
    }
    if let Some(bump) = t.dc_heat_bump {
        if m.heat >= 4 {
            dc = dc + bump;
        }
    }
    score >= dc
}

/// d12 + skill.
pub fn roll(rng: &mut Dice, skill: i64) -> (r: i64)
    requires
        skill <= i64::MAX - 12,
    ensures
        final(rng)@ == draw(old(rng)@, 1, 12).1,
        r == draw(old(rng)@, 1, 12).0 + skill,
        1 + skill <= r <= 12 + skill,
{
    let die: u64 = rng.between(1, 12);
    die as i64 + skill
}

/// Throws the die for a test.
pub fn resolve_test(m: &mut Mission, t: &Test) -> (r: bool)
    requires
        test_fits(old(m)@, *t),
    ensures
        final(m)@ == die_thrown(old(m)@),
        r == passes(old(m)@, *t, next_score(old(m)@, t.skill@)),
        difficulty(old(m)@, *t) <= 1 + skill_bonus(t.skill@) ==> r,
        difficulty(old(m)@, *t) > 12 + skill_bonus(t.skill@) ==> !r,
{
    let score = roll(&mut m.rng, skill_value(t.skill.as_str()));
    test_passes(m, t, score)
}

// --------------------------------------------------------------------- beats

/// The choice of beat `beat` at position `choice`, if there is one.
pub open spec fn choice_at(
    m: MissionModel,
    storylets: Seq<Storylet>,
    beat: int,
    choice: int,
) -> Option<SChoice> {
    match facing(m, storylets, beat) {
        Some(st) => if 0 <= choice < st.choices@.len() {
            Some(st.choices@[choice])
        } else {
            None
        },
        None => None,
    }
}

/// What a choice comes to: the run behind it and the text of the outcome.
pub open spec fn settled(m: MissionModel, c: SChoice, passed: bool) -> (MissionModel, Text) {
    if passed {
        let after = affected(m, c.effects);
        (after, filled(c.outcome@, after))
    } else {
        let after = match c.fail_effects {
            Some(fe) => affected(m, fe),
            None => m,
        };
        (
            after,
            filled(
                match c.fail_outcome {
                    Some(t) => t@,
                    None => prose::NOT_WELL@,
                },
                after,
            ),
        )
    }
}

/// What a choice of a beat comes to, with the die thrown where it is tested.
pub open spec fn beat_resolved(
    m: MissionModel,
    storylets: Seq<Storylet>,
    beat: int,
    choice: int,
) -> (MissionModel, Text) {
    match choice_at(m, storylets, beat, choice) {
        None => (m, prose::INDIFFERENT@),
        Some(c) => match c.test {
            None => settled(m, c, true),
            Some(t) => settled(die_thrown(m), c, passes(m, t, next_score(m, t.skill@))),
        },
    }
}

/// The sums of a choice can be worked out, whether or not a test is passed.
pub open spec fn choice_fits(m: MissionModel, c: SChoice) -> bool {
    &&& m.reward_pence > i64::MIN
    &&& effects_fit(m, c.effects)
    &&& (c.test matches Some(t) ==> test_fits(m, t) && (c.fail_effects matches Some(fe)
        ==> effects_fit(m, fe)))
}

/// The sums of a choice of a beat can be worked out.
pub open spec fn beat_fits(
    m: MissionModel,
    storylets: Seq<Storylet>,
    beat: int,
    choice: int,
) -> bool {
    choice_at(m, storylets, beat, choice) matches Some(c) ==> choice_fits(m, c)
}

/// Carries a choice out, given whether its test was passed.
pub fn settle(m: &mut Mission, c: &SChoice, passed: bool) -> (r: String)
    requires
        old(m).reward_pence != i64::MIN,
        passed ==> effects_fit(old(m)@, c.effects),
        !passed ==> (c.fail_effects matches Some(fe) ==> effects_fit(old(m)@, fe)),
    ensures
        (final(m)@, r@) == settled(old(m)@, *c, passed),
{
    if passed {
        apply_effects(m, &c.effects);
        subst(c.outcome.as_str(), m)
    } else {
        if let Some(fe) = &c.fail_effects {
            apply_effects(m, fe);
        }
        match &c.fail_outcome {
            Some(t) => subst(t.as_str(), m),
            None => subst(prose::NOT_WELL, m),
        }
    }
}

/// Carries out a choice of a beat: throws the die where it is tested, applies
/// the effects and returns the text of the outcome.
pub fn resolve_beat(m: &mut Mission, content: &ContentDb, beat: usize, choice: usize) -> (r: String)
    requires
        beat_fits(old(m)@, content.storylets@, beat as int, choice as int),
    ensures
        (final(m)@, r@) == beat_resolved(
            old(m)@,
            content.storylets@,
            beat as int,
            choice as int,
        ),
        choice_at(old(m)@, content.storylets@, beat as int, choice as int) matches Some(c) ==> (
        c.test matches Some(t) ==> {
            &&& (difficulty(old(m)@, t) <= 1 + skill_bonus(t.skill@) ==> final(m)@ == affected(
                die_thrown(old(m)@),
                c.effects,
            ) && r@ == filled(c.outcome@, final(m)@))
            &&& (difficulty(old(m)@, t) > 12 + skill_bonus(t.skill@) ==> final(m)@ == (
            match c.fail_effects {
                Some(fe) => affected(die_thrown(old(m)@), fe),
                None => die_thrown(old(m)@),
            }))
        }),
{
    match beat_storylet(m, content, beat) {
        None => prose::INDIFFERENT.to_string(),
        Some(st) => {
            if choice >= st.choices.len() {
                return prose::INDIFFERENT.to_string();
            }
            let c = &st.choices[choice];
            let passed = match &c.test {
                Some(t) => resolve_test(m, t),
                None => true,
            };
            settle(m, c, passed)
        },
    }
}

// ---------------------------------------------------------------------- legs

/// Whether the next leg empties the tank.
pub open spec fn runs_dry(m: MissionModel) -> bool {
    m.fuel_ml - m.leg_fuel_ml <= 0
}

/// Whether the next leg ends the run for want of fuel and money.
pub open spec fn strands(m: MissionModel) -> bool {
    runs_dry(m) && m.cash_pence < JERRY_CAN_PENCE
}

/// The run stranded on the leg onto beat `idx`.
pub open spec fn stranded(m: MissionModel, idx: int) -> MissionModel {
    lost(
        MissionModel { leg: idx + 1, fuel_ml: 0, ..m },
        "stranded"@,
        seq![
            prose::STRANDED_LINE@,
            m.qty_desc + " of "@ + m.cargo + " go nowhere tonight."@,
        ],
    )
}

/// The clocks behind a leg that was driven to its end: fuel burnt, with a can
/// from a farm where the tank ran dry, heat and wear gone up.
pub open spec fn driven(m: MissionModel, idx: int) -> MissionModel {
    let burnt = m.fuel_ml - m.leg_fuel_ml;
    MissionModel {
        leg: idx + 1,
        fuel_ml: if runs_dry(m) {
            burnt + JERRY_CAN_ML
        } else {
            burnt
        },
        cash_pence: if runs_dry(m) {
            m.cash_pence - JERRY_CAN_PENCE
        } else {
            m.cash_pence
        },
        heat: clamped(m.heat + m.heat_per_leg, 0, MAX_HEAT as int),
        wear: clamped(m.wear + m.wear_per_leg, 0, MAX_WEAR as int),
        ..m
    }
}

/// What is told of a leg that was driven to its end.
pub open spec fn leg_told(m: MissionModel) -> Seq<Text> {
    if runs_dry(m) {
        seq![
            "The tank runs dry on the open road. A farm sells you a can at robbery rates ("@
                + money(JERRY_CAN_PENCE as int) + ")."@,
        ]
    } else {
        Seq::empty()
    }
}

/// The beats with `id` as beat `idx`; gaps in front are filled with nothing.
pub open spec fn beats_with(beats: Seq<Text>, idx: int, id: Text) -> Seq<Text> {
    if idx < beats.len() {
        beats.update(idx, id)
    } else {
        beats + Seq::new((idx - beats.len()) as nat, |i: int| Seq::<char>::empty()) + seq![id]
    }
}

/// The run facing the storylet `id` as beat `idx`.
pub open spec fn facing_beat(m: MissionModel, idx: int, id: Text) -> MissionModel {
    MissionModel { beats: beats_with(m.beats, idx, id), stage: StageModel::Beat { idx }, ..m }
}

/// The run behind a leg, with the next beat drawn; at the drop when there is no
/// beat left.
pub open spec fn next_beat(m: MissionModel, storylets: Seq<Storylet>, idx: int) -> MissionModel {
    let p = pool(m, storylets);
    if p.len() == 0 {
        MissionModel { stage: StageModel::Arrival, ..m }
    } else {
        let d = draw_small(m.rng, 0, (total_heft(p) - 1) as u32);
        facing_beat(MissionModel { rng: d.1, ..m }, idx, picked(p, d.0 as int)->0.id@)
    }
}

/// The leg onto beat `idx`: driven, the beat drawn, and the run lost where the
/// leg alone has ended it.
pub open spec fn advanced(m: MissionModel, storylets: Seq<Storylet>, idx: int) -> Turn {
    if strands(m) {
        Turn { m: stranded(m, idx), said: seq![prose::STRANDED_LINE@] }
    } else {
        let after = next_beat(driven(m, idx), storylets, idx);
        match failure(after) {
            Some(f) => Turn {
                m: lost(after, f.0, f.1),
                said: leg_told(m).push(headline(f.1)),
            },
            None => Turn { m: after, said: leg_told(m) },
        }
    }
}

/// The sums of a leg can be worked out.
pub open spec fn leg_fits(m: MissionModel, storylets: Seq<Storylet>, idx: int) -> bool {
    &&& fits(m.fuel_ml - m.leg_fuel_ml)
    &&& (!strands(m) ==> {
        &&& fits(m.heat + m.heat_per_leg)
        &&& fits(m.wear + m.wear_per_leg)
        &&& total_heft(pool(driven(m, idx), storylets)) <= u32::MAX
    })
}

/// Sets the storylet `id` as beat `idx` and turns to face it.
pub fn face_beat(m: &mut Mission, idx: usize, id: String)
    ensures
        final(m)@ == facing_beat(old(m)@, idx as int, id@),
{
    let ghost old_beats = m.beats@;
    if idx < m.beats.len() {
        m.beats.set(idx, id);
        assert(m@.beats =~= beats_with(old(m)@.beats, idx as int, id@));
    } else {
        while m.beats.len() < idx
            invariant
                old_beats.len() <= m.beats@.len() <= idx,
                m@ == (MissionModel { beats: m@.beats, ..old(m)@ }),
                old_beats == old(m).beats@,
                forall|j: int| 0 <= j < old_beats.len() ==> m.beats@[j] == old_beats[j],
                forall|j: int|
                    old_beats.len() <= j < m.beats@.len() ==> (#[trigger] m.beats@[j])@ == Seq::<
                        char,
                    >::empty(),
            decreases idx - m.beats@.len(),
        {
            m.beats.push(String::new());
        }
        m.beats.push(id);
        assert(m@.beats =~= beats_with(old(m)@.beats, idx as int, id@));
    }
    m.stage = Stage::Beat { idx };
}

/// Drives one leg onto beat `idx`: burns fuel, takes the terrain's toll, draws
/// the beat, then checks whether the leg alone has ended the run.
pub fn advance_to_beat(m: &mut Mission, content: &ContentDb, idx: usize, events: &mut Vec<Event>)
    requires
        idx < usize::MAX,
        leg_fits(old(m)@, content.storylets@, idx as int),
    ensures
        final(m)@ == advanced(old(m)@, content.storylets@, idx as int).m,
        views(final(events)@) == views(old(events)@) + advanced(
            old(m)@,
            content.storylets@,
            idx as int,
        ).said,
{
    let ghost said = views(events@);
    m.leg = idx + 1;
    m.fuel_ml = m.fuel_ml - m.leg_fuel_ml;
    if m.fuel_ml <= 0 {
        if m.cash_pence >= JERRY_CAN_PENCE {
            m.cash_pence = m.cash_pence - JERRY_CAN_PENCE;
            m.fuel_ml = m.fuel_ml + JERRY_CAN_ML;
            narrate(
                events,
                "The tank runs dry on the open road. A farm sells you a can at robbery rates (".to_string().concat(
                fmt_pence(JERRY_CAN_PENCE).as_str()).concat(")."),
            );
        } else {
            m.fuel_ml = 0;
            let goods = m.qty_desc.clone().concat(" of ").concat(m.cargo.as_str()).concat(
                " go nowhere tonight.",
            );
            let lines = vec![prose::STRANDED_LINE.to_string(), goods];
            assert(views(lines@) =~= seq![
                prose::STRANDED_LINE@,
                old(m)@.qty_desc + " of "@ + old(m)@.cargo + " go nowhere tonight."@,
            ]);
            lose(m, "stranded".to_string(), lines, events);
            assert(views(events@) =~= said + seq![prose::STRANDED_LINE@]);
            return ;
        }
    }
    m.heat = clamp_i64(m.heat + m.heat_per_leg, 0, MAX_HEAT);
    m.wear = clamp_i64(m.wear + m.wear_per_leg, 0, MAX_WEAR);
    assert(m@ =~= driven(old(m)@, idx as int));
    assert(views(events@) =~= said + leg_told(old(m)@));
    match draw_next(m, content) {
        Some(id) => {
            face_beat(m, idx, id);
        },
        None => {
            m.stage = Stage::Arrival;
        },
    }
    match check_failure(m) {
        Some((reason, lines)) => {
            lose(m, reason, lines, events);
            assert(views(events@) =~= said + leg_told(old(m)@).push(headline(views(lines@))));
        },
        None => {},
    }
}

// ------------------------------------------------------------------- the depot

/// What the fixer says of the road across a terrain.
pub open spec fn road_advice(terrain: Text) -> Text {
    if terrain == "moor"@ {
        prose::ROAD_MOOR@
    } else if terrain == "fen"@ {
        prose::ROAD_FEN@
    } else if terrain == "forest"@ {
        prose::ROAD_FOREST@
    } else if terrain == "coast"@ {
        prose::ROAD_COAST@
    } else if terrain == "pass"@ {
        prose::ROAD_PASS@
    } else {
        prose::ROAD_ANY@
    }
}

/// What the fixer says when asked.
pub open spec fn fixer_words(m: MissionModel) -> Text {
    "The fixer, not looking up: \""@ + road_advice(m.terrain) + " "@ + (if m.antagonist.len() == 0 {
        prose::WHO_NOBODY@
    } else {
        prose::WHO_SOMEBODY@
    }) + "\""@
}

/// What the fixer says when asked.
pub fn briefing_line(m: &Mission) -> (r: String)
    ensures
        r@ == fixer_words(m@),
{
    let t = m.terrain.as_str();
    let road = if same_text(t, "moor") {
        prose::ROAD_MOOR
    } else if same_text(t, "fen") {
        prose::ROAD_FEN
    } else if same_text(t, "forest") {
        prose::ROAD_FOREST
    } else if same_text(t, "coast") {
        prose::ROAD_COAST
    } else if same_text(t, "pass") {
        prose::ROAD_PASS
    } else {
        prose::ROAD_ANY
    };
    let who = if m.antagonist.as_str().is_empty() {
        prose::WHO_NOBODY
    } else {
        prose::WHO_SOMEBODY
    };
    "The fixer, not looking up: \"".to_string().concat(road).concat(" ").concat(who).concat("\"")
}

/// Whether the pump serves: there is room in the tank and money for it.
pub open spec fn can_top_up(m: MissionModel) -> bool {
    m.cash_pence >= top_up_cost(m) && !brimmed(m)
}

/// The run with the tank topped up.
pub open spec fn topped_up(m: MissionModel) -> MissionModel {
    let sum = m.fuel_ml + DIESEL_BUY_L * 1_000;
    MissionModel {
        cash_pence: m.cash_pence - top_up_cost(m),
        fuel_ml: if sum < m.max_fuel_ml {
            sum
        } else {
            m.max_fuel_ml
        },
        ..m
    }
}

/// What is told at the pump.
pub open spec fn pump_words(m: MissionModel) -> Text {
    dec(DIESEL_BUY_L as int) + " litres in, "@ + money(m.diesel_price_pence)
        + " the litre. The pump counts it out like a creditor."@
}

/// What is told on leaving.
pub open spec fn leaving_words(m: MissionModel) -> Text {
    "The Bedford pulls out of Wychford loaded with "@ + m.qty_desc + " of "@ + m.cargo
        + ", nose set for "@ + m.dest_name + ". The town does not wave."@
}

/// A choice at the depot.
pub open spec fn briefing_turn(m: MissionModel, storylets: Seq<Storylet>, idx: int) -> Turn {
    if idx == 0 {
        Turn { m: MissionModel { talked: true, ..m }, said: seq![fixer_words(m)] }
    } else if idx == 1 {
        if can_top_up(m) {
            Turn { m: topped_up(m), said: seq![pump_words(m)] }
        } else {
            Turn { m, said: Seq::empty() }
        }
    } else if idx == 2 {
        let t = advanced(m, storylets, 0);
        Turn { m: t.m, said: seq![leaving_words(m)] + t.said }
    } else {
        Turn { m, said: Seq::empty() }
    }
}

/// The sums of a choice at the depot can be worked out.
pub open spec fn briefing_fits(m: MissionModel, storylets: Seq<Storylet>, idx: int) -> bool {
    &&& (idx == 1 ==> {
        &&& fits(top_up_cost(m))
        &&& (can_top_up(m) ==> {
            &&& fits(m.cash_pence - top_up_cost(m))
            &&& fits(m.fuel_ml + DIESEL_BUY_L * 1_000)
            &&& m.diesel_price_pence > i64::MIN
        })
    })
    &&& (idx == 2 ==> leg_fits(m, storylets, 0))
}

/// Takes a choice at the depot.
pub fn briefing_choose(m: &mut Mission, idx: usize, content: &ContentDb, events: &mut Vec<Event>)
    requires
        briefing_fits(old(m)@, content.storylets@, idx as int),
    ensures
        final(m)@ == briefing_turn(old(m)@, content.storylets@, idx as int).m,
        views(final(events)@) == views(old(events)@) + briefing_turn(
            old(m)@,
            content.storylets@,
            idx as int,
        ).said,
{
    let ghost said = views(events@);
    if idx == 0 {
        let line = briefing_line(m);
        m.talked = true;
        narrate(events, line);
        assert(views(events@) =~= said + seq![fixer_words(old(m)@)]);
    } else if idx == 1 {
        let cost: i64 = DIESEL_BUY_L * m.diesel_price_pence;
        if m.cash_pence >= cost && m.fuel_ml < m.max_fuel_ml {
            m.cash_pence = m.cash_pence - cost;
            let sum: i64 = m.fuel_ml + DIESEL_BUY_L * 1_000;
            m.fuel_ml = if sum < m.max_fuel_ml {
                sum
            } else {
                m.max_fuel_ml
            };
            narrate(
                events,
                decimal_i64(DIESEL_BUY_L).concat(" litres in, ").concat(
                    fmt_pence(m.diesel_price_pence).as_str(),
                ).concat(" the litre. The pump counts it out like a creditor."),
            );
            assert(views(events@) =~= said + seq![pump_words(old(m)@)]);
        } else {
            assert(views(events@) =~= said + Seq::<Text>::empty());
        }
    } else if idx == 2 {
        narrate(
            events,
            "The Bedford pulls out of Wychford loaded with ".to_string().concat(
                m.qty_desc.as_str(),
            ).concat(" of ").concat(m.cargo.as_str()).concat(", nose set for ").concat(
                m.dest_name.as_str(),
            ).concat(". The town does not wave."),
        );
        assert(views(events@) =~= said + seq![leaving_words(old(m)@)]);
        advance_to_beat(m, content, 0, events);
        assert(views(events@) =~= said + (seq![leaving_words(old(m)@)] + advanced(
            old(m)@,
            content.storylets@,
            0,
        ).said));
    } else {
        assert(views(events@) =~= said + Seq::<Text>::empty());
    }
}

// -------------------------------------------------------------------- the drop

/// What is said at the end of a delivered run about a flag.
pub open spec fn epitaph_of(flag: Text) -> Option<Text> {
    if flag == "gate_smashed"@ {
        Some(prose::EPITAPH_GATE@)
    } else if flag == "bribed_checkpoint"@ {
        Some(prose::EPITAPH_BRIBE@)
    } else if flag == "helped_traveller"@ {
        Some(prose::EPITAPH_HELPED@)
    } else if flag == "took_salvage"@ {
        Some(prose::EPITAPH_SALVAGE@)
    } else if flag == "ran_ambush"@ {
        Some(prose::EPITAPH_AMBUSH@)
    } else if flag == "refused_carver"@ {
        Some(prose::EPITAPH_REFUSED@)
    } else if flag == "paid_carver"@ {
        Some(prose::EPITAPH_PAID@)
    } else {
        None
    }
}

/// What is said at the end of a delivered run about a flag.
pub fn epitaph(flag: &str) -> (r: Option<&'static str>)
    ensures
        match r {
            Some(t) => epitaph_of(flag@) == Some(t@),
            None => epitaph_of(flag@) is None,
        },
{
    if same_text(flag, "gate_smashed") {
        Some(prose::EPITAPH_GATE)
    } else if same_text(flag, "bribed_checkpoint") {
        Some(prose::EPITAPH_BRIBE)
    } else if same_text(flag, "helped_traveller") {
        Some(prose::EPITAPH_HELPED)
    } else if same_text(flag, "took_salvage") {
        Some(prose::EPITAPH_SALVAGE)
    } else if same_text(flag, "ran_ambush") {
        Some(prose::EPITAPH_AMBUSH)
    } else if same_text(flag, "refused_carver") {
        Some(prose::EPITAPH_REFUSED)
    } else if same_text(flag, "paid_carver") {
        Some(prose::EPITAPH_PAID)
    } else {
        None
    }
}

/// The epitaphs of the flags that have one, in order.
pub open spec fn epitaphs(flags: Seq<Text>) -> Seq<Text>
    decreases flags.len(),
{
    if flags.len() == 0 {
        Seq::empty()
    } else {
        let init = epitaphs(flags.drop_last());
        match epitaph_of(flags.last()) {
            Some(t) => init.push(t),
            None => init,
        }
    }
}

/// The lines of a delivered run.
pub open spec fn delivery_lines(m: MissionModel) -> Seq<Text> {
    seq![
        m.qty_desc + " of "@ + m.cargo + " delivered to "@ + m.dest_name + "."@,
        "Haul: "@ + money(m.reward_pence) + ". Pocket on the road: "@ + money(m.cash_pence) + "."@,
        "Brought her in at wear "@ + dec(m.wear) + "/10, heat "@ + dec(m.heat) + "/10."@,
    ] + epitaphs(m.flags)
}

/// Handing over the cargo.
pub open spec fn delivered(m: MissionModel) -> Turn {
    match failure(m) {
        Some(f) => Turn { m: lost(m, f.0, f.1), said: seq![headline(f.1)] },
        None => Turn {
            m: MissionModel {
                outcome: OutcomeModel::Won { haul_pence: m.reward_pence, lines: delivery_lines(m) },
                stage: StageModel::Over,
                ..m
            },
            said: seq!["Counted twice, paid once: "@ + money(m.reward_pence) + "."@],
        },
    }
}

/// The sums of a delivery can be shown.
pub open spec fn delivery_fits(m: MissionModel) -> bool {
    failure(m) is None ==> m.reward_pence > i64::MIN && m.cash_pence > i64::MIN
}

/// Hands over the cargo.
pub fn deliver(m: &mut Mission, events: &mut Vec<Event>)
    requires
        delivery_fits(old(m)@),
    ensures
        final(m)@ == delivered(old(m)@).m,
        views(final(events)@) == views(old(events)@) + delivered(old(m)@).said,
{
    let ghost said = views(events@);
    match check_failure(m) {
        Some((reason, lines)) => {
            lose(m, reason, lines, events);
            assert(views(events@) =~= said + seq![headline(views(lines@))]);
            return ;
        },
        None => {},
    }
    let haul: i64 = m.reward_pence;
    narrate(
        events,
        "Counted twice, paid once: ".to_string().concat(fmt_pence(haul).as_str()).concat("."),
    );
    assert(views(events@) =~= said + delivered(old(m)@).said);
    let first = m.qty_desc.clone().concat(" of ").concat(m.cargo.as_str()).concat(
        " delivered to ",
    ).concat(m.dest_name.as_str()).concat(".");
    let second = "Haul: ".to_string().concat(fmt_pence(haul).as_str()).concat(
        ". Pocket on the road: ",
    ).concat(fmt_pence(m.cash_pence).as_str()).concat(".");
    let third = "Brought her in at wear ".to_string().concat(decimal_i64(m.wear).as_str()).concat(
        "/10, heat ",
    ).concat(decimal_i64(m.heat).as_str()).concat("/10.");
    let mut lines: Vec<String> = vec![first, second, third];
    let ghost head = views(lines@);
    let ghost all = m.flags@;
    let mut i: usize = 0;
    assert(head =~= head + epitaphs(all.take(0)));
    while i < m.flags.len()
        invariant
            all == m.flags@,
            *m == *old(m),
            i <= all.len(),
            views(lines@) == head + epitaphs(all.take(i as int)),
        decreases all.len() - i,
    {
        assert(all.take(i + 1).drop_last() =~= all.take(i as int));
        assert(all.take(i + 1).last() == all[i as int]);
        if let Some(line) = epitaph(m.flags.get(i).as_str()) {
            let text = line.to_string();
            proof {
                lemma_views_push(lines@, text);
            }
            lines.push(text);
        }
        assert(views(lines@) =~= head + epitaphs(all.take(i + 1)));
        i += 1;
    }
    assert(all.take(i as int) =~= all);
    assert(views(lines@) =~= delivery_lines(old(m)@));
    m.outcome = Outcome::Won { haul_pence: haul, lines };
    m.stage = Stage::Over;
}

// ------------------------------------------------------------------- choosing

/// A choice, whatever the stage.
pub open spec fn chosen(m: MissionModel, storylets: Seq<Storylet>, idx: int) -> Turn {
    match m.stage {
        StageModel::Briefing => briefing_turn(m, storylets, idx),
        StageModel::Beat { idx: beat } => {
            let (after, text) = beat_resolved(m, storylets, beat, idx);
            match failure(after) {
                Some(f) => Turn { m: lost(after, f.0, f.1), said: seq![text, headline(f.1)] },
                None => Turn {
                    m: MissionModel { stage: StageModel::Outcome { idx: beat, text }, ..after },
                    said: seq![text],
                },
            }
        },
        StageModel::Outcome { idx: beat, .. } => {
            if beat + 1 < m.legs_total {
                advanced(m, storylets, beat + 1)
            } else {
                Turn { m: MissionModel { stage: StageModel::Arrival, ..m }, said: Seq::empty() }
            }
        },
        StageModel::Arrival => delivered(m),
        StageModel::Over => Turn { m, said: Seq::empty() },
    }
}

/// The sums of a choice can be worked out.
pub open spec fn chosen_fits(m: MissionModel, storylets: Seq<Storylet>, idx: int) -> bool {
    match m.stage {
        StageModel::Briefing => briefing_fits(m, storylets, idx),
        StageModel::Beat { idx: beat } => beat_fits(m, storylets, beat, idx),
        StageModel::Outcome { idx: beat, .. } => {
            &&& beat < usize::MAX
            &&& (beat + 1 < m.legs_total ==> leg_fits(m, storylets, beat + 1))
        },
        StageModel::Arrival => delivery_fits(m),
        StageModel::Over => true,
    }
}

/// Takes a choice, whatever the stage.
pub fn take_choice(m: &mut Mission, idx: usize, content: &ContentDb, events: &mut Vec<Event>)
    requires
        chosen_fits(old(m)@, content.storylets@, idx as int),
    ensures
        final(m)@ == chosen(old(m)@, content.storylets@, idx as int).m,
        views(final(events)@) == views(old(events)@) + chosen(
            old(m)@,
            content.storylets@,
            idx as int,
        ).said,
{
    let ghost said = views(events@);
    let stage = m.stage.clone();
    match stage {
        Stage::Briefing => briefing_choose(m, idx, content, events),
        Stage::Beat { idx: beat } => {
            let text = resolve_beat(m, content, beat, idx);
            narrate(events, text.clone());
            match check_failure(m) {
                Some((reason, lines)) => {
                    lose(m, reason, lines, events);
                    assert(views(events@) =~= said + seq![text@, headline(views(lines@))]);
                },
                None => {
                    assert(views(events@) =~= said + seq![text@]);
                    m.stage = Stage::Outcome { idx: beat, text };
                },
            }
        },
        Stage::Outcome { idx: beat, .. } => {
            if beat + 1 < m.legs_total {
                advance_to_beat(m, content, beat + 1, events);
            } else {
                m.stage = Stage::Arrival;
                assert(views(events@) =~= said + Seq::<Text>::empty());
            }
        },
        Stage::Arrival => deliver(m, events),
        Stage::Over => {
            assert(views(events@) =~= said + Seq::<Text>::empty());
        },
    }
}

// -------------------------------------------------------------------- stepping

/// Whether choice `idx` of the current scene can be taken.
pub open spec fn takeable(m: MissionModel, storylets: Seq<Storylet>, idx: int) -> bool {
    let choices = scene_of(m, storylets).choices;
    0 <= idx < choices.len() && choices[idx].enabled && m.outcome is InProgress
}

/// The single pure transition: a choice that can be taken is taken, any other
/// leaves everything as it was.
pub open spec fn stepped(m: MissionModel, storylets: Seq<Storylet>, idx: int) -> Turn {
    if takeable(m, storylets, idx) {
        chosen(m, storylets, idx)
    } else {
        Turn { m, said: Seq::empty() }
    }
}

/// The sums of a step can be worked out.
pub open spec fn step_fits(m: MissionModel, storylets: Seq<Storylet>, idx: int) -> bool {
    scene_fits(m) && (takeable(m, storylets, idx) ==> chosen_fits(m, storylets, idx))
}

/// The single pure transition.
pub fn step(m: &Mission, cmd: &Command, content: &ContentDb) -> (r: (Mission, Vec<Event>))
    requires
        cmd matches Command::Choose { idx } && step_fits(m@, content.storylets@, idx as int),
    ensures
        cmd matches Command::Choose { idx } && r.0@ == stepped(
            m@,
            content.storylets@,
            idx as int,
        ).m && views(r.1@) == stepped(m@, content.storylets@, idx as int).said,
{
    let mut next = m.clone();
    let mut events: Vec<Event> = Vec::new();
    assert(views(events@) =~= Seq::<Text>::empty());
    match cmd {
        Command::Choose { idx } => {
            let current = scene(m, content);
            assert(current@ == scene_of(m@, content.storylets@));
            let valid = *idx < current.choices.len() && current.choices[*idx].enabled;
            assert(valid ==> views(current.choices@)[*idx as int].enabled);
            if *idx < current.choices.len() {
                assert(views(current.choices@)[*idx as int] == current.choices@[*idx as int]@);
            }
            if valid && !m.outcome.is_over() {
                take_choice(&mut next, *idx, content, &mut events);
                assert(views(events@) =~= stepped(m@, content.storylets@, *idx as int).said);
            }
        },
    }
    (next, events)
}

} // verus!
