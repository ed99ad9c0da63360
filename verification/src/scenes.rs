//! What the player sees. A scene is a function of the state of the run and the
//! content; it draws nothing from the random stream.

use vstd::prelude::*;
use vstd::string::*;

use crate::content::{ContentDb, SChoice, Storylet};
use crate::engine::{find_storylet, storylet};
use crate::mission::{
    fmt_pence, money, off, on, quotient, Choice, ChoiceModel, Mission, MissionModel, Outcome,
    OutcomeModel, Scene, SceneModel, Stage, StageModel, DIESEL_BUY_L,
};
use crate::prose;
use crate::text::{
    clone_texts, dec, decimal_i64, opt_view, replace_all, replaced, same_text, views, Text,
};

verus! {

// -------------------------------------------------------------- substitution

/// `t` with the placeholders filled in from the run.
pub open spec fn filled(t: Text, m: MissionModel) -> Text {
    let a = replaced(t, "{dest}"@, m.dest_name);
    let b = replaced(a, "{cargo}"@, m.cargo);
    let c = replaced(b, "{qty}"@, m.qty_desc);
    let d = replaced(c, "{terrain}"@, m.terrain_name);
    replaced(d, "{reward}"@, money(m.reward_pence))
}

/// `text` with the placeholders filled in from the run.
pub fn subst(text: &str, m: &Mission) -> (r: String)
    requires
        m.reward_pence != i64::MIN,
    ensures
        r@ == filled(text@, m@),
{
    proof {
        reveal_strlit("{dest}");
        reveal_strlit("{cargo}");
        reveal_strlit("{qty}");
        reveal_strlit("{terrain}");
        reveal_strlit("{reward}");
    }
    let a = replace_all(text, "{dest}", m.dest_name.as_str());
    let b = replace_all(a.as_str(), "{cargo}", m.cargo.as_str());
    let c = replace_all(b.as_str(), "{qty}", m.qty_desc.as_str());
    let d = replace_all(c.as_str(), "{terrain}", m.terrain_name.as_str());
    replace_all(d.as_str(), "{reward}", fmt_pence(m.reward_pence).as_str())
}

/// The paragraphs of a storylet, filled in.
pub open spec fn filled_all(body: Seq<String>, m: MissionModel) -> Seq<Text> {
    body.map_values(|p: String| filled(p@, m))
}

fn subst_all(body: &Vec<String>, m: &Mission) -> (r: Vec<String>)
    requires
        m.reward_pence != i64::MIN,
    ensures
        views(r@) == filled_all(body@, m@),
{
    let mut out: Vec<String> = Vec::new();
    let mut i: usize = 0;
    while i < body.len()
        invariant
            i <= body@.len(),
            m.reward_pence != i64::MIN,
            out@.len() == i,
            forall|j: int| 0 <= j < i ==> (#[trigger] out@[j])@ == filled(body@[j]@, m@),
        decreases body@.len() - i,
    {
        out.push(subst(body[i].as_str(), m));
        i += 1;
    }
    assert(views(out@) =~= filled_all(body@, m@));
    out
}

// ------------------------------------------------------------------ briefing

/// The price of a top-up.
pub open spec fn top_up_cost(m: MissionModel) -> int {
    DIESEL_BUY_L * m.diesel_price_pence
}

/// Whether the tank is full.
pub open spec fn brimmed(m: MissionModel) -> bool {
    m.fuel_ml >= m.max_fuel_ml
}

/// "Top up 12 L (price)"
pub open spec fn top_up_label(m: MissionModel) -> Text {
    "Top up "@ + dec(DIESEL_BUY_L as int) + " L ("@ + money(top_up_cost(m)) + ")"@
}

/// The three choices at the depot.
pub open spec fn briefing_choices(m: MissionModel) -> Seq<ChoiceModel> {
    seq![
        if m.talked {
            off("Press the fixer further"@, prose::TOLD_ENOUGH@)
        } else {
            on("Ask the fixer about the road"@)
        },
        if brimmed(m) {
            off("Top up the tank"@, prose::BRIMMED@)
        } else if m.cash_pence >= top_up_cost(m) {
            on(top_up_label(m) + " — tank "@ + dec(quotient(m.fuel_ml, 1_000)) + " L"@)
        } else {
            off(top_up_label(m), prose::CANT_COVER@)
        },
        on("Set off for "@ + m.dest_name),
    ]
}

/// The paragraphs of the briefing.
pub open spec fn briefing_body(m: MissionModel) -> Seq<Text> {
    let job = "Wychford depot, before light. The job: "@ + m.qty_desc + " of "@ + m.cargo
        + " out across "@ + m.terrain_name + ", to "@ + m.dest_name + ". "@ + money(m.reward_pence)
        + " on delivery."@;
    if m.illicit {
        seq![job, m.terrain_flavor, prose::NO_FORM@]
    } else {
        seq![job, m.terrain_flavor]
    }
}

/// The scene at the depot.
pub open spec fn briefing_view(m: MissionModel) -> SceneModel {
    SceneModel {
        title: "The Job"@,
        body: briefing_body(m),
        choices: briefing_choices(m),
        speaker: Some(m.fixer),
    }
}

fn top_up_text(cost: i64) -> (r: String)
    requires
        cost != i64::MIN,
    ensures
        r@ == "Top up "@ + dec(DIESEL_BUY_L as int) + " L ("@ + money(cost as int) + ")"@,
{
    "Top up ".to_string().concat(decimal_i64(DIESEL_BUY_L).as_str()).concat(" L (").concat(
        fmt_pence(cost).as_str(),
    ).concat(")")
}

/// The scene at the depot.
pub fn briefing_scene(m: &Mission) -> (r: Scene)
    requires
        m.reward_pence != i64::MIN,
        i64::MIN < DIESEL_BUY_L * m.diesel_price_pence <= i64::MAX,
    ensures
        r@ == briefing_view(m@),
{
    let job = "Wychford depot, before light. The job: ".to_string().concat(
        m.qty_desc.as_str(),
    ).concat(" of ").concat(m.cargo.as_str()).concat(" out across ").concat(
        m.terrain_name.as_str(),
    ).concat(", to ").concat(m.dest_name.as_str()).concat(". ").concat(
        fmt_pence(m.reward_pence).as_str(),
    ).concat(" on delivery.");
    let mut body: Vec<String> = vec![job, m.terrain_flavor.clone()];
    if m.illicit {
        body.push(prose::NO_FORM.to_string());
    }
    assert(views(body@) =~= briefing_body(m@));
    let cost: i64 = DIESEL_BUY_L * m.diesel_price_pence;
    let talk = if m.talked {
        Choice::off("Press the fixer further".to_string(), prose::TOLD_ENOUGH)
    } else {
        Choice::on("Ask the fixer about the road".to_string())
    };
    let fuel = if m.fuel_ml >= m.max_fuel_ml {
        Choice::off("Top up the tank".to_string(), prose::BRIMMED)
    } else if m.cash_pence >= cost {
        Choice::on(
            top_up_text(cost).concat(" — tank ").concat(decimal_i64(m.fuel_l()).as_str()).concat(
                " L",
            ),
        )
    } else {
        Choice::off(top_up_text(cost), prose::CANT_COVER)
    };
    let leave = Choice::on("Set off for ".to_string().concat(m.dest_name.as_str()));
    let choices = vec![talk, fuel, leave];
    assert(views(choices@) =~= briefing_choices(m@));
    Scene { title: "The Job".to_string(), body, choices, speaker: Some(m.fixer.clone()) }
}

// --------------------------------------------------------------------- beats

/// The storylet that the run faces at beat `idx`, if there is one.
pub open spec fn facing(m: MissionModel, storylets: Seq<Storylet>, idx: int) -> Option<Storylet> {
    if 0 <= idx < m.beats.len() {
        find_storylet(storylets, m.beats[idx])
    } else {
        None
    }
}

/// The storylet that the run faces at beat `idx`, if there is one.
pub fn beat_storylet<'c>(m: &Mission, content: &'c ContentDb, idx: usize) -> (r: Option<
    &'c Storylet,
>)
    ensures
        match r {
            Some(st) => facing(m@, content.storylets@, idx as int) == Some(*st),
            None => facing(m@, content.storylets@, idx as int) is None,
        },
{
    if idx < m.beats.len() {
        assert(m@.beats[idx as int] == m.beats@[idx as int]@);
        storylet(content, m.beats[idx].as_str())
    } else {
        None
    }
}

/// A storylet's choice as it is shown.
pub open spec fn shown_choice(c: SChoice, m: MissionModel) -> ChoiceModel {
    if c.requires_cash matches Some(need) && m.cash_pence < need {
        off(filled(c.label@, m), prose::CANT_COVER@)
    } else {
        on(filled(c.label@, m))
    }
}

/// Which face fronts a beat, for the portrait.
pub open spec fn face_of(template: Text, heat: int) -> Option<Text> {
    if template == "checkpoint"@ {
        Some(
            if heat >= 4 {
                "finch"@
            } else {
                "hobbs"@
            },
        )
    } else if template == "shakedown"@ {
        Some("carver"@)
    } else if template == "traveller"@ {
        Some("wray"@)
    } else {
        None
    }
}

/// The road with nothing on it.
pub open spec fn empty_road_view(m: MissionModel) -> SceneModel {
    SceneModel {
        title: "On "@ + m.terrain_name,
        body: seq![prose::EMPTY_ROAD@],
        choices: seq![on("Drive on"@)],
        speaker: None,
    }
}

/// The scene of beat `idx`.
pub open spec fn beat_view(m: MissionModel, storylets: Seq<Storylet>, idx: int) -> SceneModel {
    match facing(m, storylets, idx) {
        Some(st) => SceneModel {
            title: filled(st.title@, m),
            body: filled_all(st.body@, m),
            choices: st.choices@.map_values(|c: SChoice| shown_choice(c, m)),
            speaker: face_of(st.template@, m.heat),
        },
        None => empty_road_view(m),
    }
}

/// Which face fronts a beat, for the portrait.
pub fn template_speaker(template: &str, m: &Mission) -> (r: Option<String>)
    ensures
        opt_view(r) == face_of(template@, m@.heat),
{
    if same_text(template, "checkpoint") {
        Some(
            if m.heat >= 4 {
                "finch".to_string()
            } else {
                "hobbs".to_string()
            },
        )
    } else if same_text(template, "shakedown") {
        Some("carver".to_string())
    } else if same_text(template, "traveller") {
        Some("wray".to_string())
    } else {
        None
    }
}

fn show_choice(c: &SChoice, m: &Mission) -> (r: Choice)
    requires
        m.reward_pence != i64::MIN,
    ensures
        r@ == shown_choice(*c, m@),
{
    let label = subst(c.label.as_str(), m);
    match c.requires_cash {
        Some(need) => {
            if m.cash_pence < need {
                Choice::off(label, prose::CANT_COVER)
            } else {
                Choice::on(label)
            }
        },
        None => Choice::on(label),
    }
}

fn drive_on() -> (r: Vec<Choice>)
    ensures
        views(r@) == seq![on("Drive on"@)],
{
    let choices = vec![Choice::on("Drive on".to_string())];
    assert(views(choices@) =~= seq![on("Drive on"@)]);
    choices
}

/// The scene of beat `idx`.
pub fn beat_scene(m: &Mission, content: &ContentDb, idx: usize) -> (r: Scene)
    requires
        m.reward_pence != i64::MIN,
    ensures
        r@ == beat_view(m@, content.storylets@, idx as int),
{
    match beat_storylet(m, content, idx) {
        None => {
            let body = vec![prose::EMPTY_ROAD.to_string()];
            assert(views(body@) =~= seq![prose::EMPTY_ROAD@]);
            Scene {
                title: "On ".to_string().concat(m.terrain_name.as_str()),
                body,
                choices: drive_on(),
                speaker: None,
            }
        },
        Some(st) => {
            let mut choices: Vec<Choice> = Vec::new();
            let mut i: usize = 0;
            while i < st.choices.len()
                invariant
                    i <= st.choices@.len(),
                    m.reward_pence != i64::MIN,
                    choices@.len() == i,
                    forall|j: int|
                        0 <= j < i ==> (#[trigger] choices@[j])@ == shown_choice(st.choices@[j], m@),
                decreases st.choices@.len() - i,
            {
                choices.push(show_choice(&st.choices[i], m));
                i += 1;
            }
            assert(views(choices@) =~= st.choices@.map_values(|c: SChoice| shown_choice(c, m@)));
            Scene {
                title: subst(st.title.as_str(), m),
                body: subst_all(&st.body, m),
                choices,
                speaker: template_speaker(st.template.as_str(), m),
            }
        },
    }
}

// ------------------------------------------------------- aftermath, drop, end

/// The scene behind a beat's outcome.
pub open spec fn aftermath_view(m: MissionModel, text: Text) -> SceneModel {
    SceneModel {
        title: "On "@ + m.terrain_name,
        body: seq![text],
        choices: seq![on("Drive on"@)],
        speaker: None,
    }
}

/// The scene at the drop.
pub open spec fn arrival_view(m: MissionModel) -> SceneModel {
    SceneModel {
        title: m.dest_name + " — the drop"@,
        body: seq![
            "The yard at "@ + m.dest_name + " is lamp-lit and businesslike. "@ + if m.illicit {
                prose::DROP_ILLICIT@
            } else {
                prose::DROP_LICENSED@
            },
        ],
        choices: seq![on("Hand over the cargo"@)],
        speaker: None,
    }
}

/// The title and the lines of a verdict.
pub open spec fn verdict_text(o: OutcomeModel) -> (Text, Seq<Text>) {
    match o {
        OutcomeModel::Won { lines, .. } => ("Delivered"@, lines),
        OutcomeModel::Lost { reason, lines } => ("Lost — "@ + reason, lines),
        OutcomeModel::InProgress => ("—"@, Seq::empty()),
    }
}

/// The closing scene.
pub open spec fn over_view(m: MissionModel) -> SceneModel {
    SceneModel {
        title: verdict_text(m.outcome).0,
        body: verdict_text(m.outcome).1,
        choices: seq![on("Begin a new run"@)],
        speaker: None,
    }
}

/// The scene at the drop.
pub fn arrival_scene(m: &Mission) -> (r: Scene)
    ensures
        r@ == arrival_view(m@),
{
    let manners = if m.illicit {
        prose::DROP_ILLICIT
    } else {
        prose::DROP_LICENSED
    };
    let line = "The yard at ".to_string().concat(m.dest_name.as_str()).concat(
        " is lamp-lit and businesslike. ",
    ).concat(manners);
    let body = vec![line];
    let choices = vec![Choice::on("Hand over the cargo".to_string())];
    let title = m.dest_name.clone().concat(" — the drop");
    assert(views(body@) =~= arrival_view(m@).body);
    assert(views(choices@) =~= arrival_view(m@).choices);
    Scene { title, body, choices, speaker: None }
}

/// The closing scene.
pub fn over_scene(m: &Mission) -> (r: Scene)
    ensures
        r@ == over_view(m@),
{
    let (title, body) = match &m.outcome {
        Outcome::Won { lines, .. } => ("Delivered".to_string(), clone_texts(lines)),
        Outcome::Lost { reason, lines } => (
            "Lost — ".to_string().concat(reason.as_str()),
            clone_texts(lines),
        ),
        Outcome::InProgress => ("—".to_string(), Vec::new()),
    };
    let choices = vec![Choice::on("Begin a new run".to_string())];
    assert(views(choices@) =~= over_view(m@).choices);
    assert(views(body@) =~= over_view(m@).body);
    Scene { title, body, choices, speaker: None }
}

// -------------------------------------------------------------------- scenes

/// What the player sees.
pub open spec fn scene_of(m: MissionModel, storylets: Seq<Storylet>) -> SceneModel {
    match m.stage {
        StageModel::Briefing => briefing_view(m),
        StageModel::Beat { idx } => beat_view(m, storylets, idx),
        StageModel::Outcome { text, .. } => aftermath_view(m, text),
        StageModel::Arrival => arrival_view(m),
        StageModel::Over => over_view(m),
    }
}

/// The sums that the scene shows can be worked out.
pub open spec fn scene_fits(m: MissionModel) -> bool {
    &&& (m.stage is Briefing || m.stage is Beat ==> m.reward_pence > i64::MIN)
    &&& (m.stage is Briefing ==> i64::MIN < top_up_cost(m) <= i64::MAX)
}

/// What the player sees. Pure function of state + content; never touches RNG.
pub fn scene(m: &Mission, content: &ContentDb) -> (r: Scene)
    requires
        scene_fits(m@),
    ensures
        r@ == scene_of(m@, content.storylets@),
{
    match &m.stage {
        Stage::Briefing => briefing_scene(m),
        Stage::Beat { idx } => beat_scene(m, content, *idx),
        Stage::Outcome { text, .. } => {
            let body = vec![text.clone()];
            assert(views(body@) =~= seq![text@]);
            Scene {
                title: "On ".to_string().concat(m.terrain_name.as_str()),
                body,
                choices: drive_on(),
                speaker: None,
            }
        },
        Stage::Arrival => arrival_scene(m),
        Stage::Over => over_scene(m),
    }
}

} // verus!
