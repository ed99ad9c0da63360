//! The state of a run, what the player sees of it, and money.

use vstd::prelude::*;
use vstd::string::*;

use crate::dice::{Dice, DiceModel};
use crate::flags::{ascending, FlagSet};
use crate::text::{
    clone_texts, dec, decimal_i64, lemma_views_push, opt_view, same_text, views, Text,
};

verus! {

pub const MAX_WEAR: i64 = 10;

pub const MAX_HEAT: i64 = 10;

/// Pence a roadside farm extorts for an emergency 8 L when you run dry.
pub const JERRY_CAN_PENCE: i64 = 360;

pub const JERRY_CAN_ML: i64 = 8_000;

pub const DIESEL_BUY_L: i64 = 12;

// --------------------------------------------------------------------- money

/// A sum without its sign.
pub open spec fn magnitude(p: int) -> int {
    if p < 0 {
        -p
    } else {
        p
    }
}

/// The whole pounds of a sum.
pub open spec fn pounds_of(p: int) -> int {
    magnitude(p) / 240
}

/// The shillings beside the pounds.
pub open spec fn shillings_of(p: int) -> int {
    (magnitude(p) % 240) / 12
}

/// The pence beside the shillings.
pub open spec fn pence_of(p: int) -> int {
    magnitude(p) % 12
}

/// Pre-decimal money: 12d = 1s, 20s = £1.
pub open spec fn money(p: int) -> Text {
    let sign = if p < 0 {
        "-"@
    } else {
        ""@
    };
    let pounds = pounds_of(p);
    let s = shillings_of(p);
    let d = pence_of(p);
    if pounds == 0 && s == 0 {
        sign + dec(d) + "d"@
    } else if pounds == 0 && d == 0 {
        sign + dec(s) + "s"@
    } else if pounds == 0 {
        sign + dec(s) + "s "@ + dec(d) + "d"@
    } else if d == 0 {
        sign + "£"@ + dec(pounds) + " "@ + dec(s) + "s"@
    } else {
        sign + "£"@ + dec(pounds) + " "@ + dec(s) + "s "@ + dec(d) + "d"@
    }
}

/// Pre-decimal money: 12d = 1s, 20s = £1.
pub fn fmt_pence(p: i64) -> (r: String)
    requires
        p != i64::MIN,
    ensures
        r@ == money(p as int),
{
    let sign = if p < 0 {
        "-"
    } else {
        ""
    };
    let a: i64 = if p < 0 {
        -p
    } else {
        p
    };
    let pounds: i64 = a / 240;
    let s: i64 = (a % 240) / 12;
    let d: i64 = a % 12;
    let head = sign.to_string();
    if pounds == 0 && s == 0 {
        head.concat(decimal_i64(d).as_str()).concat("d")
    } else if pounds == 0 && d == 0 {
        head.concat(decimal_i64(s).as_str()).concat("s")
    } else if pounds == 0 {
        head.concat(decimal_i64(s).as_str()).concat("s ").concat(decimal_i64(d).as_str()).concat(
            "d",
        )
    } else if d == 0 {
        head.concat("£").concat(decimal_i64(pounds).as_str()).concat(" ").concat(
            decimal_i64(s).as_str(),
        ).concat("s")
    } else {
        head.concat("£").concat(decimal_i64(pounds).as_str()).concat(" ").concat(
            decimal_i64(s).as_str(),
        ).concat("s ").concat(decimal_i64(d).as_str()).concat("d")
    }
}

// -------------------------------------------------------------------- skills

/// Cobb's fixed aptitudes.
pub open spec fn skill_bonus(name: Text) -> int {
    if name == "paperwork"@ {
        2
    } else if name == "spanners"@ {
        1
    } else if name == "charm"@ {
        1
    } else {
        0
    }
}

/// Cobb's fixed aptitudes. A d12 + skill beats the test's DC.
pub fn skill_value(name: &str) -> (r: i64)
    ensures
        r == skill_bonus(name@),
{
    if same_text(name, "paperwork") {
        2
    } else if same_text(name, "spanners") {
        1
    } else if same_text(name, "charm") {
        1
    } else {
        0
    }
}

// -------------------------------------------------------------------- stages

#[derive(Debug, PartialEq)]
pub enum Stage {
    /// The depot: meet the fixer, top up fuel, set off.
    Briefing,
    /// On the road, facing `beats[idx]`.
    Beat { idx: usize },
    /// The aftermath of a beat choice, shown before the road continues.
    Outcome { idx: usize, text: String },
    /// The drop.
    Arrival,
    /// Terminal. `outcome` holds the verdict and the summary lines.
    Over,
}

/// The model of [`Stage`].
pub enum StageModel {
    Briefing,
    Beat { idx: int },
    Outcome { idx: int, text: Text },
    Arrival,
    Over,
}

impl View for Stage {
    type V = StageModel;

    open spec fn view(&self) -> StageModel {
        match *self {
            Stage::Briefing => StageModel::Briefing,
            Stage::Beat { idx } => StageModel::Beat { idx: idx as int },
            Stage::Outcome { idx, text } => StageModel::Outcome { idx: idx as int, text: text@ },
            Stage::Arrival => StageModel::Arrival,
            Stage::Over => StageModel::Over,
        }
    }
}

impl Clone for Stage {
    fn clone(&self) -> (r: Self)
        ensures
            r@ == self@,
    {
        match self {
            Stage::Briefing => Stage::Briefing,
            Stage::Beat { idx } => Stage::Beat { idx: *idx },
            Stage::Outcome { idx, text } => Stage::Outcome { idx: *idx, text: text.clone() },
            Stage::Arrival => Stage::Arrival,
            Stage::Over => Stage::Over,
        }
    }
}

#[derive(Debug, PartialEq)]
pub enum Outcome {
    InProgress,
    Won { haul_pence: i64, lines: Vec<String> },
    Lost { reason: String, lines: Vec<String> },
}

/// The model of [`Outcome`].
pub enum OutcomeModel {
    InProgress,
    Won { haul_pence: int, lines: Seq<Text> },
    Lost { reason: Text, lines: Seq<Text> },
}

impl View for Outcome {
    type V = OutcomeModel;

    open spec fn view(&self) -> OutcomeModel {
        match *self {
            Outcome::InProgress => OutcomeModel::InProgress,
            Outcome::Won { haul_pence, lines } => OutcomeModel::Won {
                haul_pence: haul_pence as int,
                lines: views(lines@),
            },
            Outcome::Lost { reason, lines } => OutcomeModel::Lost {
                reason: reason@,
                lines: views(lines@),
            },
        }
    }
}

impl Clone for Outcome {
    fn clone(&self) -> (r: Self)
        ensures
            r@ == self@,
    {
        match self {
            Outcome::InProgress => Outcome::InProgress,
            Outcome::Won { haul_pence, lines } => Outcome::Won {
                haul_pence: *haul_pence,
                lines: clone_texts(lines),
            },
            Outcome::Lost { reason, lines } => Outcome::Lost {
                reason: reason.clone(),
                lines: clone_texts(lines),
            },
        }
    }
}

impl Outcome {
    /// Whether the run has a verdict.
    pub fn is_over(&self) -> (r: bool)
        ensures
            r == !(self@ is InProgress),
    {
        match self {
            Outcome::InProgress => false,
            _ => true,
        }
    }
}

// ------------------------------------------------------------------- mission

/// One self-contained smuggling run. Ephemeral: built fresh per session, never
/// persisted.
#[derive(Debug, PartialEq)]
pub struct Mission {
    pub seed: u64,
    // --- the job ---
    pub terrain: String,
    pub terrain_name: String,
    pub terrain_flavor: String,
    pub cargo: String,
    pub qty_desc: String,
    pub dest_name: String,
    pub illicit: bool,
    /// The haul on success — the score. Not spending money.
    pub reward_pence: i64,
    /// NPC ids: who briefs you, who's hunting you this run.
    pub fixer: String,
    pub antagonist: String,
    // --- clocks ---
    /// Spending money for fuel and bribes during the run.
    pub cash_pence: i64,
    pub diesel_price_pence: i64,
    pub fuel_ml: i64,
    pub max_fuel_ml: i64,
    /// Per-leg burn for this terrain.
    pub leg_fuel_ml: i64,
    /// Truck strain. MAX_WEAR = breakdown, mission lost.
    pub wear: i64,
    /// Pursuit. MAX_HEAT = caught, mission lost.
    pub heat: i64,
    pub dc_mod: i64,
    pub heat_per_leg: i64,
    pub wear_per_leg: i64,
    // --- structure ---
    pub legs_total: usize,
    /// Legs driven so far (for the route map).
    pub leg: usize,
    pub beats: Vec<String>,
    pub stage: Stage,
    pub outcome: Outcome,
    pub flags: FlagSet,
    pub talked: bool,
    pub cargo_lost: bool,
    pub rng: Dice,
}

/// The model of [`Mission`].
#[verifier::ext_equal]
pub struct MissionModel {
    pub seed: u64,
    pub terrain: Text,
    pub terrain_name: Text,
    pub terrain_flavor: Text,
    pub cargo: Text,
    pub qty_desc: Text,
    pub dest_name: Text,
    pub illicit: bool,
    pub reward_pence: int,
    pub fixer: Text,
    pub antagonist: Text,
    pub cash_pence: int,
    pub diesel_price_pence: int,
    pub fuel_ml: int,
    pub max_fuel_ml: int,
    pub leg_fuel_ml: int,
    pub wear: int,
    pub heat: int,
    pub dc_mod: int,
    pub heat_per_leg: int,
    pub wear_per_leg: int,
    pub legs_total: int,
    pub leg: int,
    pub beats: Seq<Text>,
    pub stage: StageModel,
    pub outcome: OutcomeModel,
    pub flags: Seq<Text>,
    pub talked: bool,
    pub cargo_lost: bool,
    pub rng: DiceModel,
}

impl View for Mission {
    type V = MissionModel;

    open spec fn view(&self) -> MissionModel {
        MissionModel {
            seed: self.seed,
            terrain: self.terrain@,
            terrain_name: self.terrain_name@,
            terrain_flavor: self.terrain_flavor@,
            cargo: self.cargo@,
            qty_desc: self.qty_desc@,
            dest_name: self.dest_name@,
            illicit: self.illicit,
            reward_pence: self.reward_pence as int,
            fixer: self.fixer@,
            antagonist: self.antagonist@,
            cash_pence: self.cash_pence as int,
            diesel_price_pence: self.diesel_price_pence as int,
            fuel_ml: self.fuel_ml as int,
            max_fuel_ml: self.max_fuel_ml as int,
            leg_fuel_ml: self.leg_fuel_ml as int,
            wear: self.wear as int,
            heat: self.heat as int,
            dc_mod: self.dc_mod as int,
            heat_per_leg: self.heat_per_leg as int,
            wear_per_leg: self.wear_per_leg as int,
            legs_total: self.legs_total as int,
            leg: self.leg as int,
            beats: views(self.beats@),
            stage: self.stage@,
            outcome: self.outcome@,
            flags: self.flags@,
            talked: self.talked,
            cargo_lost: self.cargo_lost,
            rng: self.rng@,
        }
    }
}

impl MissionModel {
    /// What holds of every run: the gauges stay on their dials, nobody pays
    /// what they have not got, and the run is over exactly when it has a verdict.
    pub open spec fn wf(self) -> bool {
        &&& 0 <= self.wear <= MAX_WEAR
        &&& 0 <= self.heat <= MAX_HEAT
        &&& 0 <= self.cash_pence
        &&& 0 <= self.diesel_price_pence
        &&& ascending(self.flags)
        &&& (self.stage is Over <==> !(self.outcome is InProgress))
    }
}

impl Clone for Mission {
    fn clone(&self) -> (r: Self)
        ensures
            r@ == self@,
    {
        Mission {
            seed: self.seed,
            terrain: self.terrain.clone(),
            terrain_name: self.terrain_name.clone(),
            terrain_flavor: self.terrain_flavor.clone(),
            cargo: self.cargo.clone(),
            qty_desc: self.qty_desc.clone(),
            dest_name: self.dest_name.clone(),
            illicit: self.illicit,
            reward_pence: self.reward_pence,
            fixer: self.fixer.clone(),
            antagonist: self.antagonist.clone(),
            cash_pence: self.cash_pence,
            diesel_price_pence: self.diesel_price_pence,
            fuel_ml: self.fuel_ml,
            max_fuel_ml: self.max_fuel_ml,
            leg_fuel_ml: self.leg_fuel_ml,
            wear: self.wear,
            heat: self.heat,
            dc_mod: self.dc_mod,
            heat_per_leg: self.heat_per_leg,
            wear_per_leg: self.wear_per_leg,
            legs_total: self.legs_total,
            leg: self.leg,
            beats: clone_texts(&self.beats),
            stage: self.stage.clone(),
            outcome: self.outcome.clone(),
            flags: self.flags.clone(),
            talked: self.talked,
            cargo_lost: self.cargo_lost,
            rng: self.rng,
        }
    }
}

/// Division that rounds toward zero, for a positive divisor.
pub open spec fn quotient(a: int, b: int) -> int {
    if a >= 0 {
        a / b
    } else {
        -((-a) / b)
    }
}

/// `x` held between `lo` and `hi`.
pub open spec fn clamped(x: int, lo: int, hi: int) -> int {
    if x < lo {
        lo
    } else if x > hi {
        hi
    } else {
        x
    }
}

/// The fuel gauge, in percent of the tank.
pub open spec fn gauge_pct(fuel: int, max: int) -> int {
    if max <= 0 {
        0
    } else {
        clamped(quotient(fuel * 100, max), 0, 100)
    }
}

/// `x` held between `lo` and `hi`.
pub fn clamp_i64(x: i64, lo: i64, hi: i64) -> (r: i64)
    requires
        lo <= hi,
    ensures
        r == clamped(x as int, lo as int, hi as int),
{
    if x < lo {
        lo
    } else if x > hi {
        hi
    } else {
        x
    }
}

impl Mission {
    /// Whole litres in the tank.
    pub fn fuel_l(&self) -> (r: i64)
        ensures
            r == quotient(self@.fuel_ml, 1_000),
    {
        self.fuel_ml / 1_000
    }

    /// The fuel gauge, in percent of the tank.
    pub fn fuel_pct(&self) -> (r: i64)
        requires
            self.max_fuel_ml > 0 ==> i64::MIN <= self.fuel_ml * 100 <= i64::MAX,
        ensures
            r == gauge_pct(self@.fuel_ml, self@.max_fuel_ml),
    {
        if self.max_fuel_ml <= 0 {
            0
        } else {
            clamp_i64(self.fuel_ml * 100 / self.max_fuel_ml, 0, 100)
        }
    }
}

// ---------------------------------------------------------- commands, events

#[derive(Clone, Copy, Debug, PartialEq, Eq)]
pub enum Command {
    /// Take choice `idx` of the current scene. Disabled/out-of-range = no-op.
    Choose { idx: usize },
}

#[derive(Clone, Debug, PartialEq, Eq)]
pub enum Event {
    Narration { text: String },
}

impl View for Event {
    type V = Text;

    /// What is told.
    open spec fn view(&self) -> Text {
        match *self {
            Event::Narration { text } => text@,
        }
    }
}

/// Tells `text`.
pub fn narrate(events: &mut Vec<Event>, text: String)
    ensures
        views(final(events)@) == views(old(events)@).push(text@),
{
    let ghost before = events@;
    let e = Event::Narration { text };
    proof {
        lemma_views_push(before, e);
    }
    events.push(e);
}

// -------------------------------------------------------------------- scenes

/// What the player sees.
#[derive(Clone, Debug, PartialEq)]
pub struct Scene {
    pub title: String,
    pub body: Vec<String>,
    pub choices: Vec<Choice>,
    /// NPC id whose portrait fronts this scene, if any (UI hint).
    pub speaker: Option<String>,
}

#[derive(Clone, Debug, PartialEq)]
pub struct Choice {
    pub label: String,
    pub enabled: bool,
    pub note: Option<String>,
}

/// The model of [`Scene`].
#[verifier::ext_equal]
pub struct SceneModel {
    pub title: Text,
    pub body: Seq<Text>,
    pub choices: Seq<ChoiceModel>,
    pub speaker: Option<Text>,
}

/// The model of [`Choice`].
pub struct ChoiceModel {
    pub label: Text,
    pub enabled: bool,
    pub note: Option<Text>,
}

impl View for Choice {
    type V = ChoiceModel;

    open spec fn view(&self) -> ChoiceModel {
        ChoiceModel { label: self.label@, enabled: self.enabled, note: opt_view(self.note) }
    }
}

impl View for Scene {
    type V = SceneModel;

    open spec fn view(&self) -> SceneModel {
        SceneModel {
            title: self.title@,
            body: views(self.body@),
            choices: views(self.choices@),
            speaker: opt_view(self.speaker),
        }
    }
}

/// A choice that can be taken.
pub open spec fn on(label: Text) -> ChoiceModel {
    ChoiceModel { label, enabled: true, note: None }
}

/// A choice that is shown and cannot be taken, with the reason.
pub open spec fn off(label: Text, note: Text) -> ChoiceModel {
    ChoiceModel { label, enabled: false, note: Some(note) }
}

impl Choice {
    /// A choice that can be taken.
    pub fn on(label: String) -> (r: Self)
        ensures
            r@ == on(label@),
    {
        Choice { label, enabled: true, note: None }
    }

    /// A choice that is shown and cannot be taken, with the reason.
    pub fn off(label: String, note: &str) -> (r: Self)
        ensures
            r@ == off(label@, note@),
    {
        Choice { label, enabled: false, note: Some(note.to_string()) }
    }
}

} // verus!
