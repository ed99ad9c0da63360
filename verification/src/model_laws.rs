//! Laws of the models: each says of a value what the value holds, field by field
//! and item by item.

use vstd::prelude::*;

use crate::dice::Dice;
use crate::inquiry::{Claim, InqStage, InquiryState};
use crate::memory::{FactAttrs, FactRec, MemoryEntry};
use crate::mission::{Choice, Event, Mission, Outcome, Scene, Stage};
use crate::session::{MissionView, ScoreRow, Session};
use crate::text::{opt_view, views};
use crate::world::{Contract, WorldState};

verus! {

/// The model of a list has the model of each item, in order.
pub proof fn law_models_of_lists<T: View>(s: Seq<T>, i: int)
    ensures
        views(s).len() == s.len(),
        0 <= i < s.len() ==> views(s)[i] == s[i]@,
{
}

/// The model of what may be absent is absent exactly where it is.
pub proof fn law_models_of_options<T: View>(o: Option<T>)
    ensures
        opt_view(o) is Some <==> o is Some,
        o is Some ==> opt_view(o)->0 == o->0@,
{
}

/// The model of a run holds what is held, field by field.
pub proof fn law_model_of_mission(x: Mission, i: int)
    ensures
        x@.seed == x.seed,
        x@.terrain == x.terrain@,
        x@.terrain_name == x.terrain_name@,
        x@.terrain_flavor == x.terrain_flavor@,
        x@.cargo == x.cargo@,
        x@.qty_desc == x.qty_desc@,
        x@.dest_name == x.dest_name@,
        x@.illicit == x.illicit,
        x@.reward_pence == x.reward_pence,
        x@.fixer == x.fixer@,
        x@.antagonist == x.antagonist@,
        x@.cash_pence == x.cash_pence,
        x@.diesel_price_pence == x.diesel_price_pence,
        x@.fuel_ml == x.fuel_ml,
        x@.max_fuel_ml == x.max_fuel_ml,
        x@.leg_fuel_ml == x.leg_fuel_ml,
        x@.wear == x.wear,
        x@.heat == x.heat,
        x@.dc_mod == x.dc_mod,
        x@.heat_per_leg == x.heat_per_leg,
        x@.wear_per_leg == x.wear_per_leg,
        x@.legs_total == x.legs_total,
        x@.leg == x.leg,
        x@.beats.len() == x.beats@.len(),
        0 <= i < x.beats@.len() ==> x@.beats[i] == x.beats@[i]@,
        x@.stage == x.stage@,
        x@.outcome == x.outcome@,
        x@.flags == x.flags@,
        x@.talked == x.talked,
        x@.cargo_lost == x.cargo_lost,
        x@.rng == x.rng@,
{
}

/// The model of a choice holds what is held, field by field.
pub proof fn law_model_of_choice(x: Choice)
    ensures
        x@.label == x.label@,
        x@.enabled == x.enabled,
        x@.note is Some <==> x.note is Some,
        x.note is Some ==> x@.note->0 == x.note->0@,
{
}

/// The model of a scene holds what is held, field by field.
pub proof fn law_model_of_scene(x: Scene, i: int)
    ensures
        x@.title == x.title@,
        x@.body.len() == x.body@.len(),
        0 <= i < x.body@.len() ==> x@.body[i] == x.body@[i]@,
        x@.choices.len() == x.choices@.len(),
        0 <= i < x.choices@.len() ==> x@.choices[i] == x.choices@[i]@,
        x@.speaker is Some <==> x.speaker is Some,
        x.speaker is Some ==> x@.speaker->0 == x.speaker->0@,
{
}

/// The model of what was done holds what is held, field by field.
pub proof fn law_model_of_fact_attrs(x: FactAttrs)
    ensures
        x@.actor == x.actor@,
        x@.action == x.action@,
        x@.location == x.location@,
{
}

/// The model of a fact on record holds what is held, field by field.
pub proof fn law_model_of_fact_rec(x: FactRec)
    ensures
        x@.fact_id == x.fact_id@,
        x@.tick == x.tick,
        x@.attrs == x.attrs@,
{
}

/// The model of a memory holds what is held, field by field.
pub proof fn law_model_of_memory_entry(x: MemoryEntry)
    ensures
        x@.id == x.id,
        x@.npc == x.npc@,
        x@.kind == x.kind@,
        x@.text == x.text@,
        x@.fact_id is Some <==> x.fact_id is Some,
        x.fact_id is Some ==> x@.fact_id->0 == x.fact_id->0@,
        x@.asserts is Some <==> x.asserts is Some,
        x.asserts is Some ==> x@.asserts->0 == x.asserts->0@,
        x@.importance == x.importance,
        x@.tick == x.tick,
{
}

/// The model of a claim holds what is held, field by field.
pub proof fn law_model_of_claim(x: Claim)
    ensures
        x@.witness == x.witness@,
        x@.witness_name == x.witness_name@,
        x@.text == x.text@,
        x@.asserts == x.asserts@,
        x@.kind == x.kind@,
        x@.challenged == x.challenged,
{
}

/// The model of a hearing holds what is held, field by field.
pub proof fn law_model_of_inquiry_state(x: InquiryState, i: int)
    ensures
        x@.case == x.case@,
        x@.charge == x.charge@,
        x@.witnesses.len() == x.witnesses@.len(),
        0 <= i < x.witnesses@.len() ==> x@.witnesses[i] == x.witnesses@[i]@,
        x@.claims.len() == x.claims@.len(),
        0 <= i < x.claims@.len() ==> x@.claims[i] == x.claims@[i]@,
        x@.questioned == x.questioned@,
        x@.credibility == x.credibility,
        x@.stage == x.stage@,
{
}

/// The model of a job holds what is held, field by field.
pub proof fn law_model_of_contract(x: Contract)
    ensures
        x@.cargo == x.cargo@,
        x@.dest_id == x.dest_id@,
        x@.dest_name == x.dest_name@,
        x@.illicit == x.illicit,
{
}

/// The model of the world holds what is held, field by field.
pub proof fn law_model_of_world_state(x: WorldState, i: int)
    ensures
        x@.tick == x.tick,
        x@.cash_pence == x.cash_pence,
        x@.guild_suspicion == x.guild_suspicion,
        x@.runs_completed == x.runs_completed,
        x@.contract == x.run.contract@,
        x@.flags == x.flags@,
        x@.factions == x.factions@,
        x@.facts.len() == x.facts@.len(),
        0 <= i < x.facts@.len() ==> x@.facts[i] == x.facts@[i]@,
        x@.memories.len() == x.memories@.len(),
        0 <= i < x.memories@.len() ==> x@.memories[i] == x.memories@[i]@,
        x@.next_memory_id == x.next_memory_id,
        x@.inquiry is Some <==> x.inquiry is Some,
        x.inquiry is Some ==> x@.inquiry->0 == x.inquiry->0@,
        x@.rng == x.rng@,
{
}

/// The model of the screen holds what is held, field by field.
pub proof fn law_model_of_mission_view(x: MissionView)
    ensures
        x@.terrain == x.terrain@,
        x@.terrain_name == x.terrain_name@,
        x@.cargo == x.cargo@,
        x@.qty_desc == x.qty_desc@,
        x@.dest_name == x.dest_name@,
        x@.illicit == x.illicit,
        x@.reward_pence == x.reward_pence,
        x@.cash_pence == x.cash_pence,
        x@.fuel_l == x.fuel_l,
        x@.fuel_pct == x.fuel_pct,
        x@.max_fuel_l == x.max_fuel_l,
        x@.wear == x.wear,
        x@.heat == x.heat,
        x@.leg == x.leg,
        x@.legs_total == x.legs_total,
        x@.fixer == x.fixer@,
        x@.antagonist == x.antagonist@,
        x@.outcome == x.outcome@,
        x@.reason is Some <==> x.reason is Some,
        x.reason is Some ==> x@.reason->0 == x.reason->0@,
        x@.haul_pence is Some <==> x.haul_pence is Some,
        x.haul_pence is Some ==> x@.haul_pence->0 == x.haul_pence->0,
        x@.scene == x.scene@,
{
}

/// The model of a row of the scoreboard holds what is held, field by field.
pub proof fn law_model_of_score_row(x: ScoreRow)
    ensures
        x@.outcome == x.outcome@,
        x@.reason is Some <==> x.reason is Some,
        x.reason is Some ==> x@.reason->0 == x.reason->0@,
        x@.haul_pence == x.haul_pence,
        x@.terrain == x.terrain@,
        x@.cargo == x.cargo@,
        x@.seed == x.seed,
{
}

/// The model of a session holds what is held, field by field.
pub proof fn law_model_of_session(x: Session, i: int)
    ensures
        x@.mission is Some <==> x.mission is Some,
        x.mission is Some ==> x@.mission->0 == x.mission->0@,
        x@.chat.len() == x.chat@.len(),
        0 <= i < x.chat@.len() ==> x@.chat[i] == (x.chat@[i].0@, x.chat@[i].1@),
{
}

/// The model of a stream holds what is held, field by field.
pub proof fn law_model_of_dice(x: Dice)
    ensures
        x@.seed == x.seed@,
        x@.stream == x.stream,
        x@.word_pos == x.word_pos,
{
}

/// The model of a stage is of the same stage, with its beat and its text.
pub proof fn law_model_of_stage(x: Stage)
    ensures
        x@ is Briefing <==> x is Briefing,
        x@ is Beat <==> x is Beat,
        x@ is Outcome <==> x is Outcome,
        x@ is Arrival <==> x is Arrival,
        x@ is Over <==> x is Over,
        x is Beat ==> x@->Beat_idx == x->Beat_idx,
        x is Outcome ==> x@->Outcome_idx == x->Outcome_idx && x@->text == x->text@,
{
}

/// The model of an outcome is of the same outcome, with its haul, its reason and
/// its lines.
pub proof fn law_model_of_outcome(x: Outcome)
    ensures
        x@ is InProgress <==> x is InProgress,
        x@ is Won <==> x is Won,
        x@ is Lost <==> x is Lost,
        x is Won ==> x@->haul_pence == x->haul_pence && x@->Won_lines == views(x->Won_lines@),
        x is Lost ==> x@->reason == x->reason@ && x@->Lost_lines == views(x->Lost_lines@),
{
}

/// The model of the stage of a hearing is of the same stage, with its claim and
/// its lines.
pub proof fn law_model_of_inq_stage(x: InqStage)
    ensures
        x@ is Summons <==> x is Summons,
        x@ is Brief <==> x is Brief,
        x@ is Hub <==> x is Hub,
        x@ is Testimony <==> x is Testimony,
        x@ is Verdict <==> x is Verdict,
        x@ is Closed <==> x is Closed,
        x is Testimony ==> x@->claim_idx == x->claim_idx,
        x is Closed ==> x@->lines == views(x->lines@),
{
}

/// The model of an event is what it tells.
pub proof fn law_model_of_event(x: Event)
    ensures
        x@ == x->text@,
{
}

} // verus!
