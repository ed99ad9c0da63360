//! Tests for callers: whether the sums of a scene, a choice or a fresh run can
//! be worked out in 64 bits. Play that fails one of them has no outcome.

use vstd::prelude::*;

use crate::content::{Cargo, ContentDb, Effects, SChoice, Terrain, Test};
use crate::engine::pool_weight_fits;
use crate::generate::{generate_fits, job_fits};
use crate::mission::{
    clamp_i64, Mission, Stage, DIESEL_BUY_L, JERRY_CAN_ML, JERRY_CAN_PENCE, MAX_HEAT, MAX_WEAR,
};
use crate::road::{
    briefing_fits, check_failure, choice_fits, chosen_fits, driven, effects_fit, fits, leg_fits,
    step_fits, test_fits,
};
use crate::scenes::{beat_storylet, scene, scene_fits, scene_of};
use crate::session::screen_fits;
use crate::text::views;

verus! {

fn holds(x: i128) -> (r: bool)
    ensures
        r == fits(x as int),
{
    i64::MIN as i128 <= x && x <= i64::MAX as i128
}

fn sum_holds(a: i64, b: i64) -> (r: bool)
    ensures
        r == fits(a + b),
{
    holds(a as i128 + b as i128)
}

fn product_holds(a: i64, b: i64) -> (r: bool)
    ensures
        r == fits(a * b),
{
    assert(-0x4000_0000_0000_0000_0000_0000_0000_0000 <= a * b
        <= 0x4000_0000_0000_0000_0000_0000_0000_0000) by (nonlinear_arith)
        requires
            -0x8000_0000_0000_0000 <= a <= 0x8000_0000_0000_0000,
            -0x8000_0000_0000_0000 <= b <= 0x8000_0000_0000_0000,
    ;
    holds(a as i128 * b as i128)
}

/// Whether the sums that the scene shows can be worked out.
pub fn scene_is_safe(m: &Mission) -> (r: bool)
    ensures
        r == scene_fits(m@),
{
    match &m.stage {
        Stage::Briefing => m.reward_pence > i64::MIN && product_holds(
            DIESEL_BUY_L,
            m.diesel_price_pence,
        ) && DIESEL_BUY_L * m.diesel_price_pence > i64::MIN,
        Stage::Beat { .. } => m.reward_pence > i64::MIN,
        _ => true,
    }
}

/// Whether what the screen shows can be worked out.
pub fn screen_is_safe(m: &Mission) -> (r: bool)
    ensures
        r == screen_fits(m@),
{
    scene_is_safe(m) && (m.max_fuel_ml <= 0 || product_holds(m.fuel_ml, 100))
}

fn effects_are_safe(m: &Mission, e: &Effects) -> (r: bool)
    ensures
        r == effects_fit(m@, *e),
{
    (match e.cash {
        Some(v) => sum_holds(m.cash_pence, v),
        None => true,
    }) && (match e.fuel_ml {
        Some(v) => sum_holds(m.fuel_ml, v) && 0 <= m.max_fuel_ml,
        None => true,
    }) && (match e.wear {
        Some(v) => sum_holds(m.wear, v),
        None => true,
    }) && (match e.heat {
        Some(v) => sum_holds(m.heat, v),
        None => true,
    }) && (match e.payment_pct {
        Some(v) => sum_holds(100, v) && (100 + v < 0 || product_holds(m.reward_pence, 100 + v)),
        None => true,
    })
}

fn test_is_safe(m: &Mission, t: &Test) -> (r: bool)
    ensures
        r == test_fits(m@, *t),
{
    if !sum_holds(t.dc, m.dc_mod) {
        return false;
    }
    let mut dc: i64 = t.dc + m.dc_mod;
    if let Some(div) = t.dc_wear_div {
        if div > 0 {
            let part: i64 = m.wear / div;
            if !sum_holds(dc, part) {
                return false;
            }
            dc = dc + part;
        }
    }
    match t.dc_heat_bump {
        Some(bump) => m.heat < 4 || sum_holds(dc, bump),
        None => true,
    }
}

fn choice_is_safe(m: &Mission, c: &SChoice) -> (r: bool)
    ensures
        r == choice_fits(m@, *c),
{
    m.reward_pence > i64::MIN && effects_are_safe(m, &c.effects) && (match &c.test {
        Some(t) => test_is_safe(m, t) && (match &c.fail_effects {
            Some(fe) => effects_are_safe(m, fe),
            None => true,
        }),
        None => true,
    })
}

fn leg_is_safe(m: &Mission, content: &ContentDb, idx: usize) -> (r: bool)
    requires
        idx < usize::MAX,
    ensures
        r == leg_fits(m@, content.storylets@, idx as int),
{
    if !holds(m.fuel_ml as i128 - m.leg_fuel_ml as i128) {
        return false;
    }
    let burnt: i64 = m.fuel_ml - m.leg_fuel_ml;
    let dry = burnt <= 0;
    if dry && m.cash_pence < JERRY_CAN_PENCE {
        return true;
    }
    if !sum_holds(m.heat, m.heat_per_leg) || !sum_holds(m.wear, m.wear_per_leg) {
        return false;
    }
    let mut n = m.clone();
    n.leg = idx + 1;
    n.fuel_ml = if dry {
        burnt + JERRY_CAN_ML
    } else {
        burnt
    };
    n.cash_pence = if dry {
        m.cash_pence - JERRY_CAN_PENCE
    } else {
        m.cash_pence
    };
    n.heat = clamp_i64(m.heat + m.heat_per_leg, 0, MAX_HEAT);
    n.wear = clamp_i64(m.wear + m.wear_per_leg, 0, MAX_WEAR);
    assert(n@ =~= driven(m@, idx as int));
    pool_weight_fits(&n, content)
}

fn briefing_is_safe(m: &Mission, content: &ContentDb, idx: usize) -> (r: bool)
    ensures
        r == briefing_fits(m@, content.storylets@, idx as int),
{
    if idx == 1 {
        if !product_holds(DIESEL_BUY_L, m.diesel_price_pence) {
            return false;
        }
        let cost: i64 = DIESEL_BUY_L * m.diesel_price_pence;
        if m.cash_pence >= cost && m.fuel_ml < m.max_fuel_ml {
            holds(m.cash_pence as i128 - cost as i128) && sum_holds(
                m.fuel_ml,
                DIESEL_BUY_L * 1_000,
            ) && m.diesel_price_pence > i64::MIN
        } else {
            true
        }
    } else if idx == 2 {
        leg_is_safe(m, content, 0)
    } else {
        true
    }
}

fn choosing_is_safe(m: &Mission, content: &ContentDb, idx: usize) -> (r: bool)
    ensures
        r == chosen_fits(m@, content.storylets@, idx as int),
{
    match &m.stage {
        Stage::Briefing => briefing_is_safe(m, content, idx),
        Stage::Beat { idx: beat } => match beat_storylet(m, content, *beat) {
            Some(st) => idx >= st.choices.len() || choice_is_safe(m, &st.choices[idx]),
            None => true,
        },
        Stage::Outcome { idx: beat, .. } => *beat < usize::MAX && (*beat + 1 >= m.legs_total
            || leg_is_safe(m, content, *beat + 1)),
        Stage::Arrival => check_failure(m).is_some() || (m.reward_pence > i64::MIN && m.cash_pence
            > i64::MIN),
        Stage::Over => true,
    }
}

/// Whether the sums of a step can be worked out.
pub fn step_is_safe(m: &Mission, content: &ContentDb, idx: usize) -> (r: bool)
    ensures
        r == step_fits(m@, content.storylets@, idx as int),
{
    if !scene_is_safe(m) {
        return false;
    }
    let current = scene(m, content);
    assert(current@ == scene_of(m@, content.storylets@));
    if idx >= current.choices.len() {
        assert(views(current.choices@).len() == current.choices@.len());
        return true;
    }
    assert(views(current.choices@)[idx as int] == current.choices@[idx as int]@);
    if !current.choices[idx].enabled || m.outcome.is_over() {
        return true;
    }
    choosing_is_safe(m, content, idx)
}

fn job_is_safe(terrain: &Terrain, cargo: &Cargo) -> (r: bool)
    ensures
        r == job_fits(*terrain, *cargo),
{
    let extra: i128 = if cargo.illicit {
        360
    } else {
        0
    };
    product_holds(terrain.start_fuel_l, 1_000) && product_holds(terrain.max_fuel_l, 1_000)
        && product_holds(terrain.leg_fuel_l, 1_000) && cargo.base_pay_pence as i128
        + terrain.legs as i128 * 240 + extra + 200 <= i64::MAX as i128
}

/// Whether a fresh run can be rolled, whatever the seed.
pub fn generate_is_safe(content: &ContentDb) -> (r: bool)
    ensures
        r == generate_fits(*content),
{
    if content.terrains.len() == 0 || content.cargoes.len() == 0 {
        return false;
    }
    let mut i: usize = 0;
    while i < content.terrains.len()
        invariant
            i <= content.terrains@.len(),
            forall|a: int, b: int|
                0 <= a < i && 0 <= b < content.cargoes@.len() ==> job_fits(
                    #[trigger] content.terrains@[a],
                    #[trigger] content.cargoes@[b],
                ),
        decreases content.terrains@.len() - i,
    {
        let mut j: usize = 0;
        while j < content.cargoes.len()
            invariant
                i < content.terrains@.len(),
                j <= content.cargoes@.len(),
                forall|a: int, b: int|
                    0 <= a < i && 0 <= b < content.cargoes@.len() ==> job_fits(
                        #[trigger] content.terrains@[a],
                        #[trigger] content.cargoes@[b],
                    ),
                forall|b: int|
                    0 <= b < j ==> job_fits(
                        content.terrains@[i as int],
                        #[trigger] content.cargoes@[b],
                    ),
            decreases content.cargoes@.len() - j,
        {
            if !job_is_safe(&content.terrains[i], &content.cargoes[j]) {
                assert(!job_fits(content.terrains@[i as int], content.cargoes@[j as int]));
                return false;
            }
            j += 1;
        }
        i += 1;
    }
    true
}

} // verus!
