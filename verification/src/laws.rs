//! What holds of every run, whatever is chosen and whatever the dice say.

use vstd::arithmetic::div_mod::{
    lemma_div_is_ordered_by_denominator, lemma_div_plus_one, lemma_div_pos_is_pos,
};
use vstd::prelude::*;

use crate::content::{sound, ContentDb, Effects, Gates, SChoice, Storylet, Test};
use crate::dice::{draw_small, DiceModel};
use crate::engine::{
    eligible, find_storylet, gates_open, heft, picked, pool, share_of, template_for, template_used,
    total_heft,
};
use crate::flags::lemma_inserted_ascending;
use crate::generate::{mission_from, picks_valid, Picks};
use crate::mission::{
    magnitude, money, pence_of, pounds_of, shillings_of, Mission, MissionModel, OutcomeModel,
    StageModel, JERRY_CAN_ML, JERRY_CAN_PENCE, MAX_HEAT, MAX_WEAR,
};
use crate::road::{
    adjusted_reward, advanced, affected, beat_resolved, briefing_turn, can_top_up, choice_at,
    chosen, die_thrown, driven, failure, lost, next_beat, passes, step_fits, stepped, strands,
    takeable, topped_up,
};
use crate::scenes::{brimmed, facing, filled_all, scene_of, shown_choice, top_up_cost};
use crate::text::{
    dec, is_digit, lemma_dec_injective, lemma_dec_is_digits, lemma_digits_split, Text,
};

verus! {

// ----------------------------------------------------------------- whole runs

/// The run behind a sequence of choices.
pub open spec fn played(m: MissionModel, storylets: Seq<Storylet>, choices: Seq<int>) -> MissionModel
    decreases choices.len(),
{
    if choices.len() == 0 {
        m
    } else {
        stepped(played(m, storylets, choices.drop_last()), storylets, choices.last()).m
    }
}

/// All that is told on the way.
pub open spec fn told(m: MissionModel, storylets: Seq<Storylet>, choices: Seq<int>) -> Seq<Text>
    decreases choices.len(),
{
    if choices.len() == 0 {
        Seq::empty()
    } else {
        told(m, storylets, choices.drop_last()) + stepped(
            played(m, storylets, choices.drop_last()),
            storylets,
            choices.last(),
        ).said
    }
}

/// Replays are exact: runs in the same state, played with the same choices, end
/// in the same state and tell the same tale.
pub proof fn law_replays_are_exact(a: Mission, b: Mission, content: ContentDb, choices: Seq<int>)
    requires
        a@ == b@,
    ensures
        played(a@, content.storylets@, choices) == played(b@, content.storylets@, choices),
        told(a@, content.storylets@, choices) == told(b@, content.storylets@, choices),
{
}

/// What happens on the road does not depend on what was rolled for the job: the
/// stream that a fresh run carries is that of its seed, whatever the content.
pub proof fn law_the_job_does_not_shift_the_road(
    seed: u64,
    content: ContentDb,
    picks: Picks,
    other_content: ContentDb,
    other_picks: Picks,
)
    ensures
        mission_from(seed, content, picks).rng == mission_from(
            seed,
            other_content,
            other_picks,
        ).rng,
{
}

// -------------------------------------------------------------------- choices

/// A choice that is disabled or out of range changes nothing and tells nothing.
pub proof fn law_idle_choices_do_nothing(m: MissionModel, storylets: Seq<Storylet>, idx: int)
    requires
        !takeable(m, storylets, idx),
    ensures
        stepped(m, storylets, idx).m == m,
        stepped(m, storylets, idx).said.len() == 0,
{
}

/// A verdict is final: nothing that is chosen afterwards changes the run.
pub proof fn law_verdicts_are_final(m: MissionModel, storylets: Seq<Storylet>, choices: Seq<int>)
    requires
        !(m.outcome is InProgress),
    ensures
        played(m, storylets, choices) == m,
        told(m, storylets, choices).len() == 0,
    decreases choices.len(),
{
    if choices.len() > 0 {
        law_verdicts_are_final(m, storylets, choices.drop_last());
    }
}

/// The scene never looks at the dice.
pub proof fn law_scenes_ignore_the_dice(m: MissionModel, storylets: Seq<Storylet>, dice: DiceModel)
    ensures
        scene_of(MissionModel { rng: dice, ..m }, storylets) == scene_of(m, storylets),
{
    let n = MissionModel { rng: dice, ..m };
    match m.stage {
        StageModel::Beat { idx } => {
            match facing(m, storylets, idx) {
                Some(st) => {
                    assert(filled_all(st.body@, n) =~= filled_all(st.body@, m));
                    assert(st.choices@.map_values(|c: SChoice| shown_choice(c, n))
                        =~= st.choices@.map_values(|c: SChoice| shown_choice(c, m)));
                },
                None => {},
            }
        },
        _ => {},
    }
}

/// While a run is in progress there is something to choose, so long as the
/// storylet that it faces offers a choice that can be paid for.
pub proof fn law_there_is_always_a_choice(m: MissionModel, storylets: Seq<Storylet>)
    requires
        m.wf(),
        m.outcome is InProgress,
        m.stage matches StageModel::Beat { idx } ==> (facing(m, storylets, idx) matches Some(st)
            ==> exists|i: int|
            0 <= i < st.choices@.len() && shown_choice(#[trigger] st.choices@[i], m).enabled),
    ensures
        exists|idx: int| takeable(m, storylets, idx),
{
    match m.stage {
        StageModel::Briefing => {
            assert(takeable(m, storylets, 2));
        },
        StageModel::Beat { idx } => {
            match facing(m, storylets, idx) {
                Some(st) => {
                    let i = choose|i: int|
                        0 <= i < st.choices@.len() && shown_choice(
                            #[trigger] st.choices@[i],
                            m,
                        ).enabled;
                    assert(takeable(m, storylets, i));
                },
                None => {
                    assert(takeable(m, storylets, 0));
                },
            }
        },
        _ => {
            assert(takeable(m, storylets, 0));
        },
    }
}

// ---------------------------------------------------------------- the gauges

proof fn lemma_affected_wf(m: MissionModel, e: Effects)
    requires
        m.wf(),
    ensures
        affected(m, e).wf(),
{
    if let Some(f) = e.flag {
        lemma_inserted_ascending(m.flags, f@);
    }
}

/// Every choice keeps wear and heat on their dials, the pocket out of debt, and
/// the run over exactly when it has a verdict.
pub proof fn law_choices_keep_the_gauges(m: MissionModel, storylets: Seq<Storylet>, idx: int)
    requires
        m.wf(),
    ensures
        stepped(m, storylets, idx).m.wf(),
{
    if takeable(m, storylets, idx) {
        match m.stage {
            StageModel::Beat { idx: beat } => {
                match choice_at(m, storylets, beat, idx) {
                    Some(c) => {
                        lemma_affected_wf(m, c.effects);
                        let thrown = die_thrown(m);
                        lemma_affected_wf(thrown, c.effects);
                        if let Some(fe) = c.fail_effects {
                            lemma_affected_wf(thrown, fe);
                        }
                    },
                    None => {},
                }
            },
            _ => {},
        }
    }
}

/// What every choice keeps, a whole run keeps.
pub proof fn law_runs_keep_the_gauges(m: MissionModel, storylets: Seq<Storylet>, choices: Seq<int>)
    requires
        m.wf(),
    ensures
        played(m, storylets, choices).wf(),
    decreases choices.len(),
{
    if choices.len() > 0 {
        law_runs_keep_the_gauges(m, storylets, choices.drop_last());
        law_choices_keep_the_gauges(
            played(m, storylets, choices.drop_last()),
            storylets,
            choices.last(),
        );
    }
}

/// The tank never holds less than nothing, so long as a leg burns no more than
/// what is in it and a farm's can together.
pub proof fn law_the_tank_is_never_below_empty(m: MissionModel, storylets: Seq<Storylet>, idx: int)
    requires
        0 <= m.fuel_ml,
        m.leg_fuel_ml <= m.fuel_ml + JERRY_CAN_ML,
        step_fits(m, storylets, idx),
    ensures
        0 <= stepped(m, storylets, idx).m.fuel_ml,
{
}

/// On a terrain whose legs burn no more than a farm's can holds, the tank is
/// never below empty, however the run is played.
pub proof fn law_short_legs_never_overdraw_the_tank(
    m: MissionModel,
    storylets: Seq<Storylet>,
    choices: Seq<int>,
)
    requires
        0 <= m.fuel_ml,
        0 <= m.max_fuel_ml,
        m.leg_fuel_ml <= JERRY_CAN_ML,
    ensures
        0 <= played(m, storylets, choices).fuel_ml,
        played(m, storylets, choices).max_fuel_ml == m.max_fuel_ml,
        played(m, storylets, choices).leg_fuel_ml == m.leg_fuel_ml,
    decreases choices.len(),
{
    if choices.len() > 0 {
        law_short_legs_never_overdraw_the_tank(m, storylets, choices.drop_last());
    }
}

// ------------------------------------------------------------- winning, losing

/// A run is won only at the drop, with the cargo aboard, uncaught and in one
/// piece, and what it brings in is the reward.
pub proof fn law_the_haul_is_the_reward(m: MissionModel, storylets: Seq<Storylet>, idx: int)
    requires
        m.outcome is InProgress,
        stepped(m, storylets, idx).m.outcome is Won,
    ensures
        m.stage is Arrival,
        !m.cargo_lost,
        m.heat < MAX_HEAT,
        m.wear < MAX_WEAR,
        stepped(m, storylets, idx).m.outcome->haul_pence == m.reward_pence,
{
}

/// Whether a loss is earned: caught, broken down, without the cargo or stranded,
/// and the verdict says which.
pub open spec fn earned(n: MissionModel) -> bool {
    let reason = n.outcome->reason;
    &&& reason.len() > 0
    &&& n.outcome->Lost_lines.len() > 0
    &&& {
        ||| reason == "caught"@ && n.heat >= MAX_HEAT
        ||| reason == "broken down"@ && n.wear >= MAX_WEAR
        ||| reason == "cargo gone"@ && n.cargo_lost
        ||| reason == "stranded"@ && n.fuel_ml == 0 && n.cash_pence < JERRY_CAN_PENCE
    }
}

/// A run that is lost for what `failure` finds has earned it.
proof fn lemma_failures_are_earned(m: MissionModel)
    ensures
        failure(m) matches Some(f) ==> earned(lost(m, f.0, f.1)),
{
    reveal_strlit("caught");
    reveal_strlit("broken down");
    reveal_strlit("cargo gone");
}

proof fn lemma_leg_losses_are_earned(m: MissionModel, storylets: Seq<Storylet>, idx: int)
    requires
        m.outcome is InProgress,
    ensures
        advanced(m, storylets, idx).m.outcome is Lost ==> earned(advanced(m, storylets, idx).m),
{
    if strands(m) {
        reveal_strlit("stranded");
    } else {
        lemma_failures_are_earned(next_beat(driven(m, idx), storylets, idx));
    }
}

/// Losses are earned: a run is lost only caught, broken down, without its cargo
/// or stranded, and the verdict says which.
pub proof fn law_losses_are_earned(m: MissionModel, storylets: Seq<Storylet>, idx: int)
    requires
        m.outcome is InProgress,
        stepped(m, storylets, idx).m.outcome is Lost,
    ensures
        earned(stepped(m, storylets, idx).m),
{
    assert(stepped(m, storylets, idx) == chosen(m, storylets, idx));
    match m.stage {
        StageModel::Briefing => {
            lemma_leg_losses_are_earned(m, storylets, 0);
        },
        StageModel::Beat { idx: beat } => {
            lemma_failures_are_earned(beat_resolved(m, storylets, beat, idx).0);
        },
        StageModel::Outcome { idx: beat, .. } => {
            lemma_leg_losses_are_earned(m, storylets, beat + 1);
        },
        StageModel::Arrival => {
            lemma_failures_are_earned(m);
        },
        StageModel::Over => {},
    }
}

/// A run that a choice leaves caught, broken down or without its cargo does not
/// go on: the choice has lost it. At the depot and between beats that is said of
/// a run that was in none of these states before.
pub proof fn law_ruined_runs_end(m: MissionModel, storylets: Seq<Storylet>, idx: int)
    requires
        takeable(m, storylets, idx),
        !(m.stage is Beat || m.stage is Arrival) ==> failure(m) is None,
    ensures
        failure(stepped(m, storylets, idx).m) is Some ==> stepped(
            m,
            storylets,
            idx,
        ).m.outcome is Lost,
{
    assert(stepped(m, storylets, idx) == chosen(m, storylets, idx));
    match m.stage {
        StageModel::Briefing => {
            lemma_ruinous_legs_end(m, storylets, 0);
            if idx != 2 {
                lemma_depot_keeps_whole(m, storylets, idx);
            }
        },
        StageModel::Outcome { idx: beat, .. } => {
            lemma_ruinous_legs_end(m, storylets, beat + 1);
        },
        _ => {},
    }
}

proof fn lemma_ruinous_legs_end(m: MissionModel, storylets: Seq<Storylet>, idx: int)
    ensures
        failure(advanced(m, storylets, idx).m) is Some ==> advanced(
            m,
            storylets,
            idx,
        ).m.outcome is Lost,
{
}

proof fn lemma_depot_keeps_whole(m: MissionModel, storylets: Seq<Storylet>, idx: int)
    requires
        failure(m) is None,
        idx != 2,
    ensures
        failure(briefing_turn(m, storylets, idx).m) is None,
{
}

/// The reward never goes below nothing.
pub proof fn law_rewards_are_not_debts(m: MissionModel, storylets: Seq<Storylet>, idx: int)
    requires
        0 <= m.reward_pence,
    ensures
        0 <= stepped(m, storylets, idx).m.reward_pence,
{
}

// ------------------------------------------------------------------ termination

/// How many top-ups the tank has room for.
pub open spec fn top_ups_wanted(m: MissionModel) -> int {
    if brimmed(m) {
        0
    } else {
        (m.max_fuel_ml - m.fuel_ml + 11_999) / 12_000
    }
}

/// How many top-ups there is both room and money for.
#[verifier::opaque]
pub open spec fn top_ups_left(m: MissionModel) -> int {
    let wanted = top_ups_wanted(m);
    if top_up_cost(m) > 0 && m.cash_pence / top_up_cost(m) < wanted {
        m.cash_pence / top_up_cost(m)
    } else {
        wanted
    }
}

/// The legs from beat `idx` on.
pub open spec fn legs_from(m: MissionModel, idx: int) -> int {
    if idx < m.legs_total {
        m.legs_total - idx
    } else {
        0
    }
}

/// An upper bound on the choices that can still be taken.
pub open spec fn choices_left(m: MissionModel) -> int {
    if !(m.outcome is InProgress) {
        0
    } else {
        match m.stage {
            StageModel::Briefing => 2 * legs_from(m, 0) + 4 + top_ups_left(m) + if m.talked {
                0int
            } else {
                1
            },
            StageModel::Beat { idx } => 2 * legs_from(m, idx) + 3,
            StageModel::Outcome { idx, .. } => 2 * legs_from(m, idx) + 2,
            StageModel::Arrival => 1,
            StageModel::Over => 0,
        }
    }
}

/// Every choice that can be taken brings the end nearer.
pub proof fn law_choices_run_out(m: MissionModel, storylets: Seq<Storylet>, idx: int)
    requires
        takeable(m, storylets, idx),
        m.wf(),
    ensures
        0 <= choices_left(stepped(m, storylets, idx).m) < choices_left(m),
{
    lemma_top_ups_nonnegative(m);
    if m.stage is Briefing {
        let n = stepped(m, storylets, idx).m;
        lemma_top_ups_nonnegative(n);
        if idx == 0 {
            assert(top_ups_left(n) == top_ups_left(m)) by {
                reveal(top_ups_left);
            }
        } else if idx == 1 {
            assert(can_top_up(m));
            assert(n == topped_up(m));
            lemma_top_up_counts(m);
        }
    }
}

proof fn lemma_something_left(m: MissionModel)
    requires
        m.wf(),
    ensures
        0 <= choices_left(m),
        m.outcome is InProgress ==> 0 < choices_left(m),
{
    lemma_top_ups_nonnegative(m);
}

proof fn lemma_top_up_counts(m: MissionModel)
    requires
        0 <= m.cash_pence,
        can_top_up(m),
    ensures
        top_ups_left(topped_up(m)) == top_ups_left(m) - 1,
{
    reveal(top_ups_left);
    let n = topped_up(m);
    if !brimmed(n) {
        assert(n.fuel_ml == m.fuel_ml + 12_000);
    }
    assert(top_ups_wanted(n) == top_ups_wanted(m) - 1);
    assert(top_up_cost(n) == top_up_cost(m));
    lemma_money_spent(m.cash_pence, top_up_cost(m));
}

proof fn lemma_top_ups_nonnegative(m: MissionModel)
    requires
        0 <= m.cash_pence,
    ensures
        0 <= top_ups_left(m),
{
    reveal(top_ups_left);
    if top_up_cost(m) > 0 {
        lemma_div_pos_is_pos(m.cash_pence, top_up_cost(m));
    }
}

/// Each payment of `cost` is one fewer that the money is good for.
proof fn lemma_money_spent(cash: int, cost: int)
    requires
        0 <= cash,
    ensures
        0 < cost <= cash ==> {
            &&& (cash - cost) / cost == cash / cost - 1
            &&& 0 <= (cash - cost) / cost
        },
{
    if 0 < cost <= cash {
        lemma_div_plus_one(cash - cost, cost);
        lemma_div_pos_is_pos(cash - cost, cost);
    }
}

/// Whether each of the choices can be taken when it comes.
pub open spec fn all_takeable(m: MissionModel, storylets: Seq<Storylet>, choices: Seq<int>) -> bool
    decreases choices.len(),
{
    choices.len() == 0 || (all_takeable(m, storylets, choices.drop_last()) && takeable(
        played(m, storylets, choices.drop_last()),
        storylets,
        choices.last(),
    ))
}

/// Every run ends: no more choices can be taken than there are legs, top-ups
/// and questions for.
pub proof fn law_every_run_ends(m: MissionModel, storylets: Seq<Storylet>, choices: Seq<int>)
    requires
        m.wf(),
        all_takeable(m, storylets, choices),
    ensures
        0 <= choices_left(played(m, storylets, choices)),
        choices.len() + choices_left(played(m, storylets, choices)) <= choices_left(m),
    decreases choices.len(),
{
    lemma_something_left(m);
    if choices.len() > 0 {
        let before = played(m, storylets, choices.drop_last());
        law_every_run_ends(m, storylets, choices.drop_last());
        law_runs_keep_the_gauges(m, storylets, choices.drop_last());
        law_choices_run_out(before, storylets, choices.last());
    }
}

/// Whether each of the choices can be taken when it comes, so long as the run
/// is not over by then.
pub open spec fn plays_on(m: MissionModel, storylets: Seq<Storylet>, choices: Seq<int>) -> bool
    decreases choices.len(),
{
    choices.len() == 0 || {
        let before = played(m, storylets, choices.drop_last());
        &&& plays_on(m, storylets, choices.drop_last())
        &&& (before.outcome is InProgress ==> takeable(before, storylets, choices.last()))
    }
}

/// Whether the verdict, if there is one, says something: a haul that is not a
/// debt, or a reason.
pub open spec fn decisive(m: MissionModel) -> bool {
    match m.outcome {
        OutcomeModel::InProgress => true,
        OutcomeModel::Won { haul_pence, .. } => 0 <= haul_pence,
        OutcomeModel::Lost { reason, .. } => reason.len() > 0,
    }
}

/// Every run that is played on is decided, within as many choices as there were
/// left: it is won with a haul or lost for a reason.
pub proof fn law_every_run_is_decided(m: MissionModel, storylets: Seq<Storylet>, choices: Seq<int>)
    requires
        m.wf(),
        m.outcome is InProgress,
        0 <= m.reward_pence,
        plays_on(m, storylets, choices),
    ensures
        choices.len() >= choices_left(m) ==> !(played(m, storylets, choices).outcome is InProgress),
        decisive(played(m, storylets, choices)),
{
    lemma_played_on(m, storylets, choices);
    let n = played(m, storylets, choices);
    law_runs_keep_the_gauges(m, storylets, choices);
    lemma_something_left(n);
}

proof fn lemma_played_on(m: MissionModel, storylets: Seq<Storylet>, choices: Seq<int>)
    requires
        m.wf(),
        m.outcome is InProgress,
        0 <= m.reward_pence,
        plays_on(m, storylets, choices),
    ensures
        ({
            let n = played(m, storylets, choices);
            &&& decisive(n)
            &&& 0 <= n.reward_pence
            &&& (n.outcome is InProgress ==> choices.len() + choices_left(n) <= choices_left(m))
        }),
    decreases choices.len(),
{
    if choices.len() > 0 {
        let d = choices.drop_last();
        let before = played(m, storylets, d);
        lemma_played_on(m, storylets, d);
        law_runs_keep_the_gauges(m, storylets, d);
        law_rewards_are_not_debts(before, storylets, choices.last());
        if before.outcome is InProgress {
            law_choices_run_out(before, storylets, choices.last());
            let n = stepped(before, storylets, choices.last()).m;
            if n.outcome is Lost {
                law_losses_are_earned(before, storylets, choices.last());
            }
            if n.outcome is Won {
                law_the_haul_is_the_reward(before, storylets, choices.last());
            }
        }
    }
}

/// A run from sound content has three to five legs.
pub proof fn law_runs_have_three_to_five_legs(seed: u64, content: ContentDb, picks: Picks)
    requires
        sound(content.settlements@, content.terrains@, content.cargoes@, content.storylets@),
        picks_valid(content, picks),
    ensures
        3 <= mission_from(seed, content, picks).legs_total <= 5,
{
}

/// A run keeps its legs, and meets a beat on each of them at the most.
pub proof fn law_a_beat_for_each_leg(m: MissionModel, storylets: Seq<Storylet>, choices: Seq<int>)
    requires
        m.stage is Briefing,
        m.beats.len() == 0,
        1 <= m.legs_total,
    ensures
        ({
            let n = played(m, storylets, choices);
            &&& n.legs_total == m.legs_total
            &&& n.beats.len() <= m.legs_total
            &&& on_course(n)
        }),
    decreases choices.len(),
{
    if choices.len() > 0 {
        law_a_beat_for_each_leg(m, storylets, choices.drop_last());
    }
}

/// Every run from sound content is decided within forty choices, whatever the
/// seed: won with a haul that is not a debt, or lost for a reason. Five legs
/// take ten choices, the money is good for twenty-five top-ups, and the fixer,
/// setting off and the drop take the rest.
pub proof fn law_fresh_runs_are_decided_in_forty(
    seed: u64,
    content: ContentDb,
    picks: Picks,
    choices: Seq<int>,
)
    requires
        sound(content.settlements@, content.terrains@, content.cargoes@, content.storylets@),
        picks_valid(content, picks),
        0 <= mission_from(seed, content, picks).reward_pence,
        plays_on(mission_from(seed, content, picks), content.storylets@, choices),
        choices.len() >= 40,
    ensures
        ({
            let n = played(mission_from(seed, content, picks), content.storylets@, choices);
            &&& !(n.outcome is InProgress)
            &&& decisive(n)
        }),
{
    let m = mission_from(seed, content, picks);
    law_runs_have_three_to_five_legs(seed, content, picks);
    assert(m.wf());
    let cost = top_up_cost(m);
    assert(168 <= cost);
    assert(m.cash_pence / cost <= 25) by {
        lemma_div_is_ordered_by_denominator(4_320, 168, cost);
        assert(4_320int / 168 == 25);
    }
    assert(top_ups_left(m) <= 25) by {
        reveal(top_ups_left);
    }
    assert(choices_left(m) <= 40);
    law_every_run_is_decided(m, content.storylets@, choices);
}

/// Whether no choice of the content cuts the payment.
pub open spec fn never_cuts_pay(storylets: Seq<Storylet>) -> bool {
    forall|i: int, j: int|
        0 <= i < storylets.len() && 0 <= j < storylets[i].choices@.len() ==> keeps_pay(
            #[trigger] storylets[i].choices@[j],
        )
}

/// Whether a choice leaves the payment at least as it was, either way.
pub open spec fn keeps_pay(c: SChoice) -> bool {
    &&& (c.effects.payment_pct matches Some(v) ==> v >= 0)
    &&& (c.fail_effects matches Some(fe) ==> (fe.payment_pct matches Some(v) ==> v >= 0))
}

proof fn lemma_found_in(storylets: Seq<Storylet>, id: Text)
    ensures
        find_storylet(storylets, id) matches Some(st) ==> storylets.contains(st),
    decreases storylets.len(),
{
    if storylets.len() > 0 {
        if storylets[0].id@ == id {
            assert(storylets.contains(storylets[0]));
        } else {
            let d = storylets.drop_first();
            lemma_found_in(d, id);
            if let Some(st) = find_storylet(d, id) {
                assert(storylets[d.index_of(st) + 1] == st);
            }
        }
    }
}

proof fn lemma_raised(reward: int, pct: int)
    requires
        0 < reward,
        0 <= pct,
    ensures
        0 < adjusted_reward(reward, pct),
{
    assert(reward * (100 + pct) >= reward * 100) by (nonlinear_arith)
        requires
            0 < reward,
            0 <= pct,
    ;
}

proof fn lemma_affected_pays(m: MissionModel, e: Effects)
    requires
        0 < m.reward_pence,
        e.payment_pct matches Some(v) ==> v >= 0,
    ensures
        0 < affected(m, e).reward_pence,
{
    if let Some(v) = e.payment_pct {
        lemma_raised(m.reward_pence, v as int);
    }
}

/// Where no choice cuts the payment, a run that pays anything at the start
/// brings something in when it is won.
pub proof fn law_uncut_runs_bring_something_in(
    m: MissionModel,
    storylets: Seq<Storylet>,
    choices: Seq<int>,
)
    requires
        m.outcome is InProgress,
        0 < m.reward_pence,
        never_cuts_pay(storylets),
    ensures
        0 < played(m, storylets, choices).reward_pence,
        played(m, storylets, choices).outcome matches OutcomeModel::Won { haul_pence, .. } ==> 0
            < haul_pence,
    decreases choices.len(),
{
    if choices.len() > 0 {
        let idx = choices.last();
        let before = played(m, storylets, choices.drop_last());
        law_uncut_runs_bring_something_in(m, storylets, choices.drop_last());
        if takeable(before, storylets, idx) {
            if let StageModel::Beat { idx: beat } = before.stage {
                if let Some(c) = choice_at(before, storylets, beat, idx) {
                    lemma_found_in(storylets, before.beats[beat]);
                    let st = facing(before, storylets, beat)->0;
                    let i = storylets.index_of(st);
                    assert(keeps_pay(storylets[i].choices@[idx]));
                    let thrown = die_thrown(before);
                    lemma_affected_pays(before, c.effects);
                    lemma_affected_pays(thrown, c.effects);
                    if let Some(fe) = c.fail_effects {
                        lemma_affected_pays(thrown, fe);
                    }
                }
            }
        }
    }
}

// ------------------------------------------------------------------- the draw

/// The storylets' shares of a draw are their weights: of the picks below the
/// total, those behind the weights of the storylets in front of `k` and within
/// its own weight select it.
pub proof fn law_shares_are_weights(p: Seq<Storylet>, k: int, pick: int)
    requires
        0 <= k < p.len(),
        total_heft(p.take(k)) <= pick < total_heft(p.take(k)) + heft(p[k]),
    ensures
        picked(p, pick) == Some(p[k]),
    decreases p.len(),
{
    if k == 0 {
        assert(p.take(0) =~= Seq::empty());
    } else {
        let d = p.drop_first();
        lemma_heft_front(p.take(k));
        assert(p.take(k).drop_first() =~= d.take(k - 1));
        lemma_heft_at_least(d.take(k - 1));
        law_shares_are_weights(d, k - 1, pick - heft(p[0]));
        lemma_share_found(d, pick - heft(p[0]), k - 1);
    }
}

proof fn lemma_heft_front(p: Seq<Storylet>)
    requires
        p.len() > 0,
    ensures
        total_heft(p) == heft(p[0]) + total_heft(p.drop_first()),
    decreases p.len(),
{
    if p.len() == 1 {
        assert(p.drop_last() =~= Seq::empty());
        assert(p.drop_first() =~= Seq::empty());
    } else {
        lemma_heft_front(p.drop_last());
        assert(p.drop_last().drop_first() =~= p.drop_first().drop_last());
    }
}

proof fn lemma_heft_at_least(p: Seq<Storylet>)
    ensures
        p.len() <= total_heft(p),
    decreases p.len(),
{
    if p.len() > 0 {
        lemma_heft_at_least(p.drop_last());
    }
}

/// A pick within the total falls in somebody's share.
proof fn lemma_share_found(p: Seq<Storylet>, pick: int, k: int)
    requires
        0 <= k < p.len(),
        0 <= pick < total_heft(p.take(k)) + heft(p[k]),
    ensures
        share_of(p, pick) is Some,
    decreases p.len(),
{
    if pick >= heft(p[0]) {
        if k == 0 {
            assert(p.take(0) =~= Seq::empty());
        } else {
            lemma_heft_front(p.take(k));
            assert(p.take(k).drop_first() =~= p.drop_first().take(k - 1));
            lemma_share_found(p.drop_first(), pick - heft(p[0]), k - 1);
        }
    }
}

proof fn lemma_share_in_pool(p: Seq<Storylet>, pick: int)
    ensures
        share_of(p, pick) matches Some(st) ==> p.contains(st),
    decreases p.len(),
{
    if p.len() > 0 {
        if pick < heft(p[0]) {
            assert(p.contains(p[0]));
        } else {
            let d = p.drop_first();
            lemma_share_in_pool(d, pick - heft(p[0]));
            if let Some(st) = share_of(d, pick - heft(p[0])) {
                let i = d.index_of(st);
                assert(p[i + 1] == st);
            }
        }
    }
}

/// What is drawn can come up: it is in the content, its gates are open, and its
/// template has not been used on this run.
pub proof fn law_draws_are_eligible(m: MissionModel, storylets: Seq<Storylet>, pick: int)
    ensures
        picked(pool(m, storylets), pick) matches Some(st) ==> storylets.contains(st) && gates_open(
            st.requires,
            m,
        ) && !template_used(m.beats, storylets, st.template@),
{
    let p = pool(m, storylets);
    lemma_share_in_pool(p, pick);
    if let Some(st) = picked(p, pick) {
        assert(p.contains(st)) by {
            if share_of(p, pick) is None {
                assert(p[0] == st);
            }
        }
        storylets.lemma_filter_contains_rev(|s: Storylet| eligible(m, storylets, s), st);
    }
}

/// Gates that are absent pass.
pub proof fn law_absent_gates_pass(g: Gates, m: MissionModel)
    requires
        g.min_heat is None,
        g.max_heat is None,
        g.min_wear is None,
        g.max_wear is None,
        g.illicit is None,
        g.flag is None,
        g.not_flag is None,
        g.terrains@.len() == 0,
    ensures
        gates_open(g, m),
{
}

// ------------------------------------------------------- one beat per template

/// Whether no two storylets have the same id.
pub open spec fn ids_distinct(storylets: Seq<Storylet>) -> bool {
    forall|i: int, j: int|
        0 <= i < j < storylets.len() ==> (#[trigger] storylets[i]).id@ != (#[trigger] storylets[j]).id@
}

/// Whether no two beats have the same template.
pub open spec fn templates_distinct(beats: Seq<Text>, storylets: Seq<Storylet>) -> bool {
    forall|i: int, j: int|
        0 <= i < j < beats.len() ==> template_for(storylets, #[trigger] beats[i]) != template_for(
            storylets,
            #[trigger] beats[j],
        )
}

/// Whether each beat is a storylet of the content.
pub open spec fn beats_known(beats: Seq<Text>, storylets: Seq<Storylet>) -> bool {
    forall|i: int| 0 <= i < beats.len() ==> find_storylet(storylets, #[trigger] beats[i]) is Some
}

/// Whether the run is where its beats say: none at the depot, and on the road
/// the last of them is the one that it faces.
pub open spec fn on_course(m: MissionModel) -> bool {
    match m.stage {
        StageModel::Briefing => m.beats.len() == 0,
        StageModel::Beat { idx } => m.beats.len() == idx + 1,
        StageModel::Outcome { idx, .. } => m.beats.len() == idx + 1,
        _ => true,
    }
}

proof fn lemma_found_by_id(storylets: Seq<Storylet>, st: Storylet)
    requires
        ids_distinct(storylets),
        storylets.contains(st),
    ensures
        find_storylet(storylets, st.id@) == Some(st),
    decreases storylets.len(),
{
    let k = storylets.index_of(st);
    if storylets[0].id@ == st.id@ {
        if k > 0 {
            assert(storylets[0].id@ != storylets[k].id@);
        }
    } else {
        let d = storylets.drop_first();
        assert(d[k - 1] == st);
        assert forall|i: int, j: int| 0 <= i < j < d.len() implies (#[trigger] d[i]).id@ != (
        #[trigger] d[j]).id@ by {
            assert(d[i] == storylets[i + 1] && d[j] == storylets[j + 1]);
        }
        lemma_found_by_id(d, st);
    }
}

proof fn lemma_next_beat_is_new(m: MissionModel, storylets: Seq<Storylet>, idx: int)
    requires
        ids_distinct(storylets),
        m.beats.len() == idx,
        templates_distinct(m.beats, storylets),
        beats_known(m.beats, storylets),
    ensures
        ({
            let n = next_beat(m, storylets, idx);
            &&& on_course(n)
            &&& templates_distinct(n.beats, storylets)
            &&& beats_known(n.beats, storylets)
        }),
{
    let p = pool(m, storylets);
    if p.len() > 0 {
        let d = draw_small(m.rng, 0, (total_heft(p) - 1) as u32);
        law_draws_are_eligible(m, storylets, d.0 as int);
        let st = picked(p, d.0 as int)->0;
        lemma_found_by_id(storylets, st);
        let n = next_beat(m, storylets, idx);
        assert(n.beats =~= m.beats.push(st.id@));
        assert forall|i: int, j: int| 0 <= i < j < n.beats.len() implies template_for(
            storylets,
            #[trigger] n.beats[i],
        ) != template_for(storylets, #[trigger] n.beats[j]) by {
            assert(n.beats[i] == m.beats[i]);
            if j < m.beats.len() {
                assert(n.beats[j] == m.beats[j]);
            } else {
                assert(template_for(storylets, m.beats[i]) != Some(st.template@));
            }
        }
    }
}

/// One beat per template per run: content whose ids are distinct never gives a
/// run two beats with the same template.
pub proof fn law_templates_do_not_repeat(m: MissionModel, storylets: Seq<Storylet>, idx: int)
    requires
        ids_distinct(storylets),
        on_course(m),
        templates_distinct(m.beats, storylets),
        beats_known(m.beats, storylets),
    ensures
        ({
            let n = stepped(m, storylets, idx).m;
            &&& on_course(n)
            &&& templates_distinct(n.beats, storylets)
            &&& beats_known(n.beats, storylets)
        }),
{
    if takeable(m, storylets, idx) {
        match m.stage {
            StageModel::Briefing => {
                if idx == 2 {
                    lemma_next_beat_is_new(driven(m, 0), storylets, 0);
                }
            },
            StageModel::Outcome { idx: beat, .. } => {
                if beat + 1 < m.legs_total {
                    lemma_next_beat_is_new(driven(m, beat + 1), storylets, beat + 1);
                }
            },
            _ => {},
        }
    }
}

/// What every choice keeps, a whole run from the depot keeps: its beats have
/// templates of their own.
pub proof fn law_runs_stay_varied(m: MissionModel, storylets: Seq<Storylet>, choices: Seq<int>)
    requires
        ids_distinct(storylets),
        m.stage is Briefing,
        m.beats.len() == 0,
    ensures
        on_course(played(m, storylets, choices)),
        templates_distinct(played(m, storylets, choices).beats, storylets),
        beats_known(played(m, storylets, choices).beats, storylets),
    decreases choices.len(),
{
    if choices.len() > 0 {
        law_runs_stay_varied(m, storylets, choices.drop_last());
        law_templates_do_not_repeat(
            played(m, storylets, choices.drop_last()),
            storylets,
            choices.last(),
        );
    }
}

// ------------------------------------------------------------- tests and money

/// A better score never fails where a worse one passes.
pub proof fn law_better_scores_pass(
    m: MissionModel,
    t: Test,
    score: int,
    better: int,
)
    requires
        passes(m, t, score),
        score <= better,
    ensures
        passes(m, t, better),
{
}

/// Twelve pence to the shilling, twenty shillings to the pound.
pub proof fn law_money_adds_up(p: int)
    ensures
        magnitude(p) == 240 * pounds_of(p) + 12 * shillings_of(p) + pence_of(p),
        0 <= pounds_of(p),
        0 <= shillings_of(p) < 20,
        0 <= pence_of(p) < 12,
{
}

/// The shillings and pence behind the pounds.
spec fn change(s: int, d: int) -> Text {
    if d == 0 {
        dec(s) + "s"@
    } else {
        dec(s) + ("s "@ + dec(d) + "d"@)
    }
}

/// A sum as it is shown, without its sign.
spec fn unsigned(l: int, s: int, d: int) -> Text {
    if l == 0 && s == 0 {
        dec(d) + "d"@
    } else if l == 0 {
        change(s, d)
    } else {
        "£"@ + (dec(l) + (" "@ + change(s, d)))
    }
}

proof fn lemma_money_shape(p: int)
    ensures
        money(p) == (if p < 0 {
            "-"@
        } else {
            ""@
        }) + unsigned(pounds_of(p), shillings_of(p), pence_of(p)),
{
    let sign = if p < 0 {
        "-"@
    } else {
        ""@
    };
    let l = pounds_of(p);
    let s = shillings_of(p);
    let d = pence_of(p);
    if l == 0 && s == 0 {
        lemma_assoc(sign, dec(d), "d"@);
    } else {
        let front = if l == 0 {
            sign
        } else {
            sign + "£"@ + dec(l) + " "@
        };
        let rest = if d == 0 {
            "s"@
        } else {
            "s "@ + dec(d) + "d"@
        };
        // front + shillings + "s " + pence + "d", told together from the right
        lemma_assoc(front + dec(s), "s "@, dec(d));
        lemma_assoc(front + dec(s), "s "@ + dec(d), "d"@);
        lemma_assoc(front, dec(s), rest);
        lemma_assoc(sign + "£"@ + dec(l), " "@, change(s, d));
        lemma_assoc(sign + "£"@, dec(l), " "@ + change(s, d));
        lemma_assoc(sign, "£"@, dec(l) + (" "@ + change(s, d)));
    }
}

proof fn lemma_assoc(a: Text, b: Text, c: Text)
    ensures
        a + b + c == a + (b + c),
{
    assert(a + b + c =~= a + (b + c));
}

proof fn lemma_change_injective(s: int, d: int, t: int, e: int)
    requires
        0 <= s,
        0 <= t,
        0 <= d,
        0 <= e,
        change(s, d) == change(t, e),
    ensures
        s == t,
        d == e,
{
    reveal_strlit("s");
    reveal_strlit("s ");
    reveal_strlit("d");
    lemma_dec_is_digits(s as nat);
    lemma_dec_is_digits(t as nat);
    lemma_dec_is_digits(d as nat);
    lemma_dec_is_digits(e as nat);
    let rest = if d == 0 {
        "s"@
    } else {
        "s "@ + dec(d) + "d"@
    };
    let other = if e == 0 {
        "s"@
    } else {
        "s "@ + dec(e) + "d"@
    };
    lemma_digits_split(dec(s), rest, dec(t), other);
    lemma_dec_injective(s as nat, t as nat);
    if d != 0 && e != 0 {
        assert(rest.skip(2) =~= dec(d) + "d"@);
        assert(other.skip(2) =~= dec(e) + "d"@);
        lemma_digits_split(dec(d), "d"@, dec(e), "d"@);
        lemma_dec_injective(d as nat, e as nat);
    }
}

/// What a sum without its sign begins with: the pound sign where there are
/// pounds, else a digit.
proof fn lemma_unsigned_front(l: int, s: int, d: int)
    requires
        0 <= l,
        0 <= s,
        0 <= d,
    ensures
        unsigned(l, s, d).len() > 0,
        l > 0 ==> unsigned(l, s, d)[0] == '£',
        l == 0 ==> is_digit(unsigned(l, s, d)[0]),
{
    reveal_strlit("£");
    lemma_dec_is_digits(s as nat);
    lemma_dec_is_digits(d as nat);
}

proof fn lemma_unsigned_injective(l: int, s: int, d: int, m: int, t: int, e: int)
    requires
        0 <= l,
        0 <= s,
        0 <= d,
        0 <= m,
        0 <= t,
        0 <= e,
        unsigned(l, s, d) == unsigned(m, t, e),
    ensures
        l == m,
        s == t,
        d == e,
{
    let u = unsigned(l, s, d);
    let v = unsigned(m, t, e);
    lemma_unsigned_front(l, s, d);
    lemma_unsigned_front(m, t, e);
    reveal_strlit("£");
    reveal_strlit(" ");
    reveal_strlit("s");
    reveal_strlit("s ");
    reveal_strlit("d");
    lemma_dec_is_digits(l as nat);
    lemma_dec_is_digits(m as nat);
    lemma_dec_is_digits(s as nat);
    lemma_dec_is_digits(t as nat);
    lemma_dec_is_digits(d as nat);
    lemma_dec_is_digits(e as nat);
    if l > 0 {
        assert(m > 0);
        assert(u.skip(1) =~= dec(l) + (" "@ + change(s, d)));
        assert(v.skip(1) =~= dec(m) + (" "@ + change(t, e)));
        lemma_digits_split(dec(l), " "@ + change(s, d), dec(m), " "@ + change(t, e));
        lemma_dec_injective(l as nat, m as nat);
        assert((" "@ + change(s, d)).skip(1) =~= change(s, d));
        assert((" "@ + change(t, e)).skip(1) =~= change(t, e));
        lemma_change_injective(s, d, t, e);
    } else {
        assert(m == 0);
        let rest = change(s, d).skip(dec(s).len() as int);
        let other = change(t, e).skip(dec(t).len() as int);
        assert(change(s, d) =~= dec(s) + rest);
        assert(change(t, e) =~= dec(t) + other);
        assert(rest[0] == 's' && other[0] == 's');
        if s == 0 && t == 0 {
            lemma_digits_split(dec(d), "d"@, dec(e), "d"@);
            lemma_dec_injective(d as nat, e as nat);
        } else if s == 0 {
            lemma_digits_split(dec(d), "d"@, dec(t), other);
        } else if t == 0 {
            lemma_digits_split(dec(s), rest, dec(e), "d"@);
        } else {
            lemma_change_injective(s, d, t, e);
        }
    }
}

/// A sum that is owed, and no other, is shown with a minus in front.
pub proof fn law_debts_are_shown_as_debts(p: int)
    ensures
        money(p).len() > 0,
        money(p)[0] == '-' <==> p < 0,
{
    reveal_strlit("-");
    reveal_strlit("");
    lemma_money_shape(p);
    law_money_adds_up(p);
    lemma_unsigned_front(pounds_of(p), shillings_of(p), pence_of(p));
}

/// Two sums that are shown alike are the same sum.
pub proof fn law_sums_shown_alike_are_equal(p: int, q: int)
    ensures
        money(p) == money(q) <==> p == q,
{
    if money(p) == money(q) {
        reveal_strlit("-");
        reveal_strlit("");
        law_debts_are_shown_as_debts(p);
        law_debts_are_shown_as_debts(q);
        lemma_money_shape(p);
        lemma_money_shape(q);
        law_money_adds_up(p);
        law_money_adds_up(q);
        let u = unsigned(pounds_of(p), shillings_of(p), pence_of(p));
        let v = unsigned(pounds_of(q), shillings_of(q), pence_of(q));
        if p < 0 {
            assert(money(p).skip(1) =~= u);
            assert(money(q).skip(1) =~= v);
        } else {
            assert(money(p) =~= u);
            assert(money(q) =~= v);
        }
        lemma_unsigned_injective(
            pounds_of(p),
            shillings_of(p),
            pence_of(p),
            pounds_of(q),
            shillings_of(q),
            pence_of(q),
        );
    }
}

} // verus!
