//! One player's session: at most one run at a time, nothing saved, and a row
//! for the scoreboard when a run ends.

use vstd::prelude::*;
use vstd::string::*;

use crate::content::{ContentDb, Storylet};
use crate::dialogue::{chat_view, chat_with, remember_exchange};
use crate::generate::{generate_fits, mission_from, picks_for};
use crate::mission::{
    gauge_pct, quotient, Command, Event, Mission, MissionModel, Outcome, OutcomeModel, Scene,
    SceneModel,
};
use crate::road::{fits, step, step_fits, stepped};
use crate::scenes::{scene, scene_fits, scene_of};
use crate::text::{opt_view, views, Text};

verus! {

// ------------------------------------------------------------------ the screen

/// What the screen shows of a run.
#[derive(Debug, PartialEq)]
pub struct MissionView {
    pub terrain: String,
    pub terrain_name: String,
    pub cargo: String,
    pub qty_desc: String,
    pub dest_name: String,
    pub illicit: bool,
    pub reward_pence: i64,
    pub cash_pence: i64,
    pub fuel_l: i64,
    pub fuel_pct: i64,
    pub max_fuel_l: i64,
    pub wear: i64,
    pub heat: i64,
    pub leg: usize,
    pub legs_total: usize,
    pub fixer: String,
    pub antagonist: String,
    pub outcome: String,
    pub reason: Option<String>,
    pub haul_pence: Option<i64>,
    pub scene: Scene,
}

/// The model of [`MissionView`].
pub struct ScreenModel {
    pub terrain: Text,
    pub terrain_name: Text,
    pub cargo: Text,
    pub qty_desc: Text,
    pub dest_name: Text,
    pub illicit: bool,
    pub reward_pence: int,
    pub cash_pence: int,
    pub fuel_l: int,
    pub fuel_pct: int,
    pub max_fuel_l: int,
    pub wear: int,
    pub heat: int,
    pub leg: int,
    pub legs_total: int,
    pub fixer: Text,
    pub antagonist: Text,
    pub outcome: Text,
    pub reason: Option<Text>,
    pub haul_pence: Option<int>,
    pub scene: SceneModel,
}

/// A sum of money that may be missing, as a number.
pub open spec fn opt_int(o: Option<i64>) -> Option<int> {
    match o {
        Some(v) => Some(v as int),
        None => None,
    }
}

impl View for MissionView {
    type V = ScreenModel;

    open spec fn view(&self) -> ScreenModel {
        ScreenModel {
            terrain: self.terrain@,
            terrain_name: self.terrain_name@,
            cargo: self.cargo@,
            qty_desc: self.qty_desc@,
            dest_name: self.dest_name@,
            illicit: self.illicit,
            reward_pence: self.reward_pence as int,
            cash_pence: self.cash_pence as int,
            fuel_l: self.fuel_l as int,
            fuel_pct: self.fuel_pct as int,
            max_fuel_l: self.max_fuel_l as int,
            wear: self.wear as int,
            heat: self.heat as int,
            leg: self.leg as int,
            legs_total: self.legs_total as int,
            fixer: self.fixer@,
            antagonist: self.antagonist@,
            outcome: self.outcome@,
            reason: opt_view(self.reason),
            haul_pence: opt_int(self.haul_pence),
            scene: self.scene@,
        }
    }
}

/// The label of a verdict.
pub open spec fn outcome_label(o: OutcomeModel) -> Text {
    match o {
        OutcomeModel::InProgress => "in_progress"@,
        OutcomeModel::Won { .. } => "won"@,
        OutcomeModel::Lost { .. } => "lost"@,
    }
}

/// Why the run was lost, if it was.
pub open spec fn reason_of(o: OutcomeModel) -> Option<Text> {
    match o {
        OutcomeModel::Lost { reason, .. } => Some(reason),
        _ => None,
    }
}

/// What the run brought in, if it was won.
pub open spec fn haul_of(o: OutcomeModel) -> Option<int> {
    match o {
        OutcomeModel::Won { haul_pence, .. } => Some(haul_pence),
        _ => None,
    }
}

/// What the screen shows of a run.
pub open spec fn screen_of(m: MissionModel, storylets: Seq<Storylet>) -> ScreenModel {
    ScreenModel {
        terrain: m.terrain,
        terrain_name: m.terrain_name,
        cargo: m.cargo,
        qty_desc: m.qty_desc,
        dest_name: m.dest_name,
        illicit: m.illicit,
        reward_pence: m.reward_pence,
        cash_pence: m.cash_pence,
        fuel_l: quotient(m.fuel_ml, 1_000),
        fuel_pct: gauge_pct(m.fuel_ml, m.max_fuel_ml),
        max_fuel_l: quotient(m.max_fuel_ml, 1_000),
        wear: m.wear,
        heat: m.heat,
        leg: m.leg,
        legs_total: m.legs_total,
        fixer: m.fixer,
        antagonist: m.antagonist,
        outcome: outcome_label(m.outcome),
        reason: reason_of(m.outcome),
        haul_pence: haul_of(m.outcome),
        scene: scene_of(m, storylets),
    }
}

/// What the screen shows can be worked out.
pub open spec fn screen_fits(m: MissionModel) -> bool {
    scene_fits(m) && (m.max_fuel_ml > 0 ==> fits(m.fuel_ml * 100))
}

impl MissionView {
    /// What the screen shows of a run.
    pub fn of(m: &Mission, content: &ContentDb) -> (r: Self)
        requires
            screen_fits(m@),
        ensures
            r@ == screen_of(m@, content.storylets@),
    {
        let (outcome, reason, haul_pence) = match &m.outcome {
            Outcome::InProgress => ("in_progress", None, None),
            Outcome::Won { haul_pence, .. } => ("won", None, Some(*haul_pence)),
            Outcome::Lost { reason, .. } => ("lost", Some(reason.clone()), None),
        };
        MissionView {
            terrain: m.terrain.clone(),
            terrain_name: m.terrain_name.clone(),
            cargo: m.cargo.clone(),
            qty_desc: m.qty_desc.clone(),
            dest_name: m.dest_name.clone(),
            illicit: m.illicit,
            reward_pence: m.reward_pence,
            cash_pence: m.cash_pence,
            fuel_l: m.fuel_l(),
            fuel_pct: m.fuel_pct(),
            max_fuel_l: m.max_fuel_ml / 1_000,
            wear: m.wear,
            heat: m.heat,
            leg: m.leg,
            legs_total: m.legs_total,
            fixer: m.fixer.clone(),
            antagonist: m.antagonist.clone(),
            outcome: outcome.to_string(),
            reason,
            haul_pence,
            scene: scene(m, content),
        }
    }
}

// -------------------------------------------------------------- the scoreboard

/// A finished run, as the scoreboard keeps it.
#[derive(Debug, PartialEq)]
pub struct ScoreRow {
    pub outcome: String,
    pub reason: Option<String>,
    pub haul_pence: i64,
    pub terrain: String,
    pub cargo: String,
    /// The seed with its 64 bits read as a signed number.
    pub seed: i64,
}

/// The model of [`ScoreRow`].
pub struct ScoreModel {
    pub outcome: Text,
    pub reason: Option<Text>,
    pub haul_pence: int,
    pub terrain: Text,
    pub cargo: Text,
    pub seed: i64,
}

impl View for ScoreRow {
    type V = ScoreModel;

    open spec fn view(&self) -> ScoreModel {
        ScoreModel {
            outcome: self.outcome@,
            reason: opt_view(self.reason),
            haul_pence: self.haul_pence as int,
            terrain: self.terrain@,
            cargo: self.cargo@,
            seed: self.seed,
        }
    }
}

/// The row of a run: none while it is in progress; no haul where it was lost.
pub open spec fn score_of(m: MissionModel) -> Option<ScoreModel> {
    if m.outcome is InProgress {
        None
    } else {
        Some(
            ScoreModel {
                outcome: outcome_label(m.outcome),
                reason: reason_of(m.outcome),
                haul_pence: match haul_of(m.outcome) {
                    Some(v) => v,
                    None => 0,
                },
                terrain: m.terrain,
                cargo: m.cargo,
                seed: m.seed as i64,
            },
        )
    }
}

/// The row of a run, once it has a verdict.
pub fn score_row(m: &Mission) -> (r: Option<ScoreRow>)
    ensures
        opt_view(r) == score_of(m@),
{
    let (outcome, reason, haul_pence) = match &m.outcome {
        Outcome::Won { haul_pence, .. } => ("won", None, *haul_pence),
        Outcome::Lost { reason, .. } => ("lost", Some(reason.clone()), 0i64),
        Outcome::InProgress => {
            return None;
        },
    };
    Some(
        ScoreRow {
            outcome: outcome.to_string(),
            reason,
            haul_pence,
            terrain: m.terrain.clone(),
            cargo: m.cargo.clone(),
            seed: m.seed as i64,
        },
    )
}

// ----------------------------------------------------------------- the session

/// The run in hand, if there is one, and the talk with its fixer.
#[derive(Debug, PartialEq)]
pub struct Session {
    pub mission: Option<Mission>,
    pub chat: Vec<(String, String)>,
}

/// The model of [`Session`].
#[verifier::ext_equal]
pub struct SessionModel {
    pub mission: Option<MissionModel>,
    pub chat: Seq<(Text, Text)>,
}

impl View for Session {
    type V = SessionModel;

    open spec fn view(&self) -> SessionModel {
        SessionModel { mission: opt_view(self.mission), chat: chat_view(self.chat@) }
    }
}

/// What comes of a choice: what is told, and the row for the scoreboard if the
/// choice ended the run.
#[derive(Debug, PartialEq)]
pub struct Played {
    pub told: Vec<String>,
    pub score: Option<ScoreRow>,
}

/// The session at the start screen.
pub open spec fn start_screen() -> SessionModel {
    SessionModel { mission: None, chat: Seq::empty() }
}

/// The session after a choice. There is nothing to choose where no run is.
pub open spec fn session_after(s: SessionModel, storylets: Seq<Storylet>, idx: int) -> SessionModel {
    match s.mission {
        Some(m) => SessionModel { mission: Some(stepped(m, storylets, idx).m), ..s },
        None => s,
    }
}

/// What is told of a choice.
pub open spec fn told_of(s: SessionModel, storylets: Seq<Storylet>, idx: int) -> Seq<Text> {
    match s.mission {
        Some(m) => stepped(m, storylets, idx).said,
        None => Seq::empty(),
    }
}

/// The row that a choice puts on the scoreboard: that of the run which it has
/// just ended.
pub open spec fn scored_by(
    s: SessionModel,
    storylets: Seq<Storylet>,
    idx: int,
) -> Option<ScoreModel> {
    match s.mission {
        Some(m) => if m.outcome is InProgress {
            score_of(stepped(m, storylets, idx).m)
        } else {
            None
        },
        None => None,
    }
}

fn take_texts(events: Vec<Event>) -> (r: Vec<String>)
    ensures
        views(r@) == views(events@),
{
    let mut out: Vec<String> = Vec::new();
    let mut i: usize = 0;
    while i < events.len()
        invariant
            i <= events@.len(),
            out@.len() == i,
            forall|j: int| 0 <= j < i ==> (#[trigger] out@[j])@ == events@[j]@,
        decreases events@.len() - i,
    {
        match &events[i] {
            Event::Narration { text } => out.push(text.clone()),
        }
        i += 1;
    }
    assert(views(out@) =~= views(events@));
    out
}

impl Session {
    /// The start screen.
    pub fn new() -> (r: Self)
        ensures
            r@ == start_screen(),
    {
        let r = Session { mission: None, chat: Vec::new() };
        assert(r@ =~= start_screen());
        r
    }

    /// Rolls a fresh run; whatever was in hand is gone, and so is the talk.
    pub fn begin(&mut self, seed: u64, content: &ContentDb)
        requires
            generate_fits(*content),
        ensures
            final(self)@ == (SessionModel {
                mission: Some(mission_from(seed, *content, picks_for(seed, *content))),
                chat: Seq::empty(),
            }),
    {
        self.mission = Some(Mission::new(seed, content));
        self.chat = Vec::new();
        assert(chat_view(self.chat@) =~= Seq::empty());
    }

    /// Back to the start screen.
    pub fn abandon(&mut self)
        ensures
            final(self)@ == start_screen(),
    {
        self.mission = None;
        self.chat = Vec::new();
        assert(self@ =~= start_screen());
    }

    /// Takes choice `idx` of the run in hand. The run that this ends comes back
    /// as a row for the scoreboard, this once.
    pub fn play(&mut self, idx: usize, content: &ContentDb) -> (r: Played)
        requires
            old(self)@.mission matches Some(m) ==> step_fits(m, content.storylets@, idx as int),
        ensures
            final(self)@ == session_after(old(self)@, content.storylets@, idx as int),
            views(r.told@) == told_of(old(self)@, content.storylets@, idx as int),
            opt_view(r.score) == scored_by(old(self)@, content.storylets@, idx as int),
    {
        match &self.mission {
            None => {
                let told: Vec<String> = Vec::new();
                assert(views(told@) =~= Seq::<Text>::empty());
                Played { told, score: None }
            },
            Some(m) => {
                let was_over = m.outcome.is_over();
                let (next, events) = step(m, &Command::Choose { idx }, content);
                let score = if !was_over && next.outcome.is_over() {
                    score_row(&next)
                } else {
                    None
                };
                self.mission = Some(next);
                Played { told: take_texts(events), score }
            },
        }
    }

    /// Keeps an exchange with the fixer in mind.
    pub fn note_exchange(&mut self, you: &str, them: &str)
        ensures
            final(self)@ == (SessionModel {
                chat: chat_with(old(self)@.chat, you@, them@),
                ..old(self)@
            }),
    {
        remember_exchange(&mut self.chat, you, them);
    }
}

// ----------------------------------------------------------------------- laws

/// A run is scored exactly once: the choice that ends it puts it on the
/// scoreboard, and no choice afterwards does.
pub proof fn law_runs_are_scored_once(
    s: SessionModel,
    storylets: Seq<Storylet>,
    idx: int,
    later: int,
)
    requires
        s.mission matches Some(m) && m.outcome is InProgress,
    ensures
        ({
            let after = session_after(s, storylets, idx);
            let ended = !(after.mission->0.outcome is InProgress);
            &&& after.mission is Some
            &&& (scored_by(s, storylets, idx) is Some <==> ended)
            &&& (ended ==> scored_by(after, storylets, later) is None && session_after(
                after,
                storylets,
                later,
            ) == after)
        }),
{
}

/// A chat keeps the latest exchange and at most eight in all.
pub proof fn law_chats_stay_short(chat: Seq<(Text, Text)>, you: Text, them: Text)
    ensures
        0 < chat_with(chat, you, them).len() <= 8,
        chat_with(chat, you, them).last() == (you, them),
        chat.len() < 8 ==> chat_with(chat, you, them) == chat.push((you, them)),
{
}

} // verus!
