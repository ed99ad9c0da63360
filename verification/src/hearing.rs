//! What the player sees of a hearing.

use vstd::prelude::*;
use vstd::string::*;

use crate::content::{ContentDb, Npc};
use crate::inquiry::{
    name_of, npc_name, Claim, ClaimModel, InqStage, InqStageModel, InquiryModel, InquiryState,
};
use crate::mission::{off, on, Choice, ChoiceModel, Scene, SceneModel};
use crate::prose;
use crate::text::{
    clone_texts, dec, decimal_u64, join_texts, joined, lemma_views_push, same_text, views, Text,
};
use crate::world::{WorldModel, WorldState};

verus! {

/// The names of the witnesses, in order.
pub open spec fn witness_names(inq: InquiryModel, npcs: Seq<Npc>) -> Seq<Text> {
    inq.witnesses.map_values(|id: Text| name_of(npcs, id))
}

/// What the record says of a challenge.
pub open spec fn challenge_mark(challenged: Option<bool>) -> Text {
    match challenged {
        Some(true) => " [CONTRADICTION ESTABLISHED]"@,
        Some(false) => " [challenge failed]"@,
        None => ""@,
    }
}

/// Claim `i` as it stands on the record.
pub open spec fn record_line(c: ClaimModel, i: int) -> Text {
    dec(i + 1) + ". "@ + c.witness_name + " ("@ + c.kind + "): \""@ + c.text + "\""@
        + challenge_mark(c.challenged)
}

/// The first `n` claims as they stand on the record.
pub open spec fn record_lines(claims: Seq<ClaimModel>, n: int) -> Seq<Text>
    decreases n,
{
    if n <= 0 {
        Seq::empty()
    } else {
        record_lines(claims, n - 1).push(record_line(claims[n - 1], n - 1))
    }
}

/// The offer to question a witness.
pub open spec fn question_choice(inq: InquiryModel, npcs: Seq<Npc>, id: Text) -> ChoiceModel {
    let label = "Question "@ + name_of(npcs, id);
    if inq.questioned.contains(id) {
        off(label, prose::ON_RECORD@)
    } else {
        on(label)
    }
}

/// The offer to challenge a claim.
pub open spec fn challenge_choice(c: ClaimModel) -> ChoiceModel {
    let label = "Challenge "@ + c.witness_name + "'s account against the record"@;
    if c.challenged is None {
        on(label)
    } else {
        off(label, prose::ALREADY_PUT@)
    }
}

/// The choices before the panel: each witness, each claim, and the verdict.
pub open spec fn hub_choices(inq: InquiryModel, npcs: Seq<Npc>) -> Seq<ChoiceModel> {
    inq.witnesses.map_values(|id: Text| question_choice(inq, npcs, id)) + inq.claims.map_values(
        |c: ClaimModel| challenge_choice(c),
    ) + seq![on("Let the panel proceed to a determination"@)]
}

/// The paragraphs before the panel.
pub open spec fn hub_body(inq: InquiryModel) -> Seq<Text> {
    if inq.claims.len() == 0 {
        seq![prose::PANEL_WAITS@]
    } else {
        seq![prose::PANEL_WAITS@, "ON THE RECORD SO FAR:"@] + record_lines(
            inq.claims,
            inq.claims.len() as int,
        )
    }
}

/// How many of the first `n` claims have been shown to contradict the record.
pub open spec fn established(claims: Seq<ClaimModel>, n: int) -> int
    decreases n,
{
    if n <= 0 {
        0
    } else {
        established(claims, n - 1) + if claims[n - 1].challenged == Some(true) {
            1int
        } else {
            0
        }
    }
}

/// The choices at the verdict. Two of them take credibility.
pub open spec fn verdict_choices(credibility: int) -> Seq<ChoiceModel> {
    seq![
        on("Accept the panel's finding and the fine (50s)"@),
        if credibility >= 1 {
            on("Lay the matter at the door of Pulver's drivers"@)
        } else {
            off("Lay the matter at the door of Pulver's drivers"@, prose::NEED_ONE@)
        },
        if credibility >= 2 {
            on("Move to dismiss for want of evidence"@)
        } else {
            off("Move to dismiss for want of evidence"@, prose::NEED_TWO@)
        },
    ]
}

/// What the player sees of a hearing.
pub open spec fn hearing_view(inq: InquiryModel, npcs: Seq<Npc>) -> SceneModel {
    match inq.stage {
        InqStageModel::Summons => SceneModel {
            title: "A Summons, in Triplicate"@,
            body: seq![prose::SUMMONS@, "Overleaf: "@ + inq.charge + "."@],
            choices: seq![on("Attend the hearing"@)],
            speaker: None,
        },
        InqStageModel::Brief => SceneModel {
            title: "The Corn Exchange — The Brief"@,
            body: seq![
                prose::BRIEF@,
                "THE MATTER: "@ + inq.charge + "."@,
                "WITNESSES CALLED: "@ + joined(witness_names(inq, npcs), "; "@) + "."@,
                prose::BRIEF_RECORD@,
            ],
            choices: seq![on("Begin the testimony"@)],
            speaker: None,
        },
        InqStageModel::Hub => SceneModel {
            title: "The Corn Exchange — Testimony"@,
            body: hub_body(inq),
            choices: hub_choices(inq, npcs),
            speaker: None,
        },
        InqStageModel::Testimony { claim_idx } => {
            let c = inq.claims[claim_idx];
            SceneModel {
                title: "The Witness: "@ + c.witness_name,
                body: seq![
                    c.witness_name + " takes the chair and gives an account:"@,
                    "\""@ + c.text + "\""@,
                    if c.kind == "gossip"@ {
                        prose::HEARSAY@
                    } else {
                        prose::EYEWITNESS@
                    },
                ],
                choices: seq![on("Return to the panel"@)],
                speaker: None,
            }
        },
        InqStageModel::Verdict => SceneModel {
            title: "The Determination"@,
            body: seq![
                prose::CONFERS@,
                "Contradictions established: "@ + dec(
                    established(inq.claims, inq.claims.len() as int),
                ) + "."@,
            ],
            choices: verdict_choices(inq.credibility),
            speaker: None,
        },
        InqStageModel::Closed { lines } => SceneModel {
            title: "The Record"@,
            body: lines,
            choices: seq![on("Step out into the morning"@)],
            speaker: None,
        },
    }
}

/// A hearing sits, and the claim that is being given is there.
pub open spec fn hearing_sits(w: WorldModel) -> bool {
    w.inquiry matches Some(inq) && (inq.stage matches InqStageModel::Testimony { claim_idx }
        ==> 0 <= claim_idx < inq.claims.len())
}

fn one_choice(label: &str) -> (r: Vec<Choice>)
    ensures
        views(r@) == seq![on(label@)],
{
    let r = vec![Choice::on(label.to_string())];
    assert(views(r@) =~= seq![on(label@)]);
    r
}

fn name_witnesses(inq: &InquiryState, content: &ContentDb) -> (r: Vec<String>)
    ensures
        views(r@) == witness_names(inq@, content.npcs@),
{
    let mut out: Vec<String> = Vec::new();
    let mut i: usize = 0;
    while i < inq.witnesses.len()
        invariant
            i <= inq.witnesses@.len(),
            out@.len() == i,
            forall|j: int|
                0 <= j < i ==> (#[trigger] out@[j])@ == name_of(
                    content.npcs@,
                    inq.witnesses@[j]@,
                ),
        decreases inq.witnesses@.len() - i,
    {
        out.push(npc_name(content, inq.witnesses[i].as_str()).to_string());
        i += 1;
    }
    assert(views(out@) =~= witness_names(inq@, content.npcs@));
    out
}

fn mark_challenge(challenged: Option<bool>) -> (r: &'static str)
    ensures
        r@ == challenge_mark(challenged),
{
    match challenged {
        Some(true) => " [CONTRADICTION ESTABLISHED]",
        Some(false) => " [challenge failed]",
        None => "",
    }
}

fn write_record(c: &Claim, i: usize) -> (r: String)
    requires
        i < usize::MAX,
    ensures
        r@ == record_line(c@, i as int),
{
    decimal_u64((i + 1) as u64).concat(". ").concat(c.witness_name.as_str()).concat(" (").concat(
        c.kind.as_str(),
    ).concat("): \"").concat(c.text.as_str()).concat("\"").concat(mark_challenge(c.challenged))
}

fn hub_scene(inq: &InquiryState, content: &ContentDb) -> (r: Scene)
    requires
        inq@.stage is Hub,
    ensures
        r@ == hearing_view(inq@, content.npcs@),
{
    let ghost model = inq@;
    let ghost npcs = content.npcs@;
    let mut body: Vec<String> = vec![prose::PANEL_WAITS.to_string()];
    if inq.claims.len() > 0 {
        body.push("ON THE RECORD SO FAR:".to_string());
        let ghost head = seq![prose::PANEL_WAITS@, "ON THE RECORD SO FAR:"@];
        assert(views(body@) =~= head + record_lines(model.claims, 0));
        let mut i: usize = 0;
        while i < inq.claims.len()
            invariant
                model == inq@,
                i <= inq.claims@.len(),
                views(body@) == head + record_lines(model.claims, i as int),
            decreases inq.claims@.len() - i,
        {
            assert(model.claims[i as int] == inq.claims@[i as int]@);
            let line = write_record(&inq.claims[i], i);
            proof {
                lemma_views_push(body@, line);
            }
            body.push(line);
            assert(views(body@) =~= head + record_lines(model.claims, i + 1));
            i += 1;
        }
    }
    assert(views(body@) =~= hub_body(model));
    let mut choices: Vec<Choice> = Vec::new();
    let ghost asked = model.witnesses.map_values(|id: Text| question_choice(model, npcs, id));
    let ghost put = model.claims.map_values(|c: ClaimModel| challenge_choice(c));
    let mut i: usize = 0;
    while i < inq.witnesses.len()
        invariant
            model == inq@,
            npcs == content.npcs@,
            i <= inq.witnesses@.len(),
            asked == model.witnesses.map_values(|id: Text| question_choice(model, npcs, id)),
            choices@.len() == i,
            forall|j: int| 0 <= j < i ==> (#[trigger] choices@[j])@ == asked[j],
        decreases inq.witnesses@.len() - i,
    {
        let id = inq.witnesses[i].as_str();
        assert(model.witnesses[i as int] == id@);
        let label = "Question ".to_string().concat(npc_name(content, id));
        if inq.questioned.contains(id) {
            choices.push(Choice::off(label, prose::ON_RECORD));
        } else {
            choices.push(Choice::on(label));
        }
        i += 1;
    }
    assert(views(choices@) =~= asked);
    let mut k: usize = 0;
    assert(asked =~= asked + put.take(0));
    while k < inq.claims.len()
        invariant
            model == inq@,
            k <= inq.claims@.len(),
            put == model.claims.map_values(|c: ClaimModel| challenge_choice(c)),
            views(choices@) == asked + put.take(k as int),
        decreases inq.claims@.len() - k,
    {
        let c = &inq.claims[k];
        assert(model.claims[k as int] == c@);
        let label = "Challenge ".to_string().concat(c.witness_name.as_str()).concat(
            "'s account against the record",
        );
        let choice = if c.challenged.is_none() {
            Choice::on(label)
        } else {
            Choice::off(label, prose::ALREADY_PUT)
        };
        proof {
            lemma_views_push(choices@, choice);
        }
        choices.push(choice);
        assert(views(choices@) =~= asked + put.take(k + 1));
        k += 1;
    }
    assert(put.take(k as int) =~= put);
    let last = Choice::on("Let the panel proceed to a determination".to_string());
    proof {
        lemma_views_push(choices@, last);
    }
    choices.push(last);
    assert(views(choices@) =~= hub_choices(model, npcs));
    Scene { title: "The Corn Exchange — Testimony".to_string(), body, choices, speaker: None }
}

fn count_established(claims: &Vec<Claim>) -> (r: usize)
    ensures
        r == established(views(claims@), claims@.len() as int),
{
    let mut n: usize = 0;
    let mut i: usize = 0;
    while i < claims.len()
        invariant
            i <= claims@.len(),
            n <= i,
            n == established(views(claims@), i as int),
        decreases claims@.len() - i,
    {
        assert(views(claims@)[i as int] == claims@[i as int]@);
        if let Some(true) = claims[i].challenged {
            n = n + 1;
        }
        i += 1;
    }
    n
}

fn verdict_scene(inq: &InquiryState) -> (r: Scene)
    requires
        inq@.stage is Verdict,
    ensures
        forall|npcs: Seq<Npc>| r@ == #[trigger] hearing_view(inq@, npcs),
{
    let accept = Choice::on("Accept the panel's finding and the fine (50s)".to_string());
    let frame_label = "Lay the matter at the door of Pulver's drivers".to_string();
    let frame = if inq.credibility >= 1 {
        Choice::on(frame_label)
    } else {
        Choice::off(frame_label, prose::NEED_ONE)
    };
    let dismiss_label = "Move to dismiss for want of evidence".to_string();
    let dismiss = if inq.credibility >= 2 {
        Choice::on(dismiss_label)
    } else {
        Choice::off(dismiss_label, prose::NEED_TWO)
    };
    let choices = vec![accept, frame, dismiss];
    assert(views(choices@) =~= verdict_choices(inq@.credibility));
    let count = count_established(&inq.claims);
    let tally = "Contradictions established: ".to_string().concat(
        decimal_u64(count as u64).as_str(),
    ).concat(".");
    let body = vec![prose::CONFERS.to_string(), tally];
    assert(views(body@) =~= seq![
        prose::CONFERS@,
        "Contradictions established: "@ + dec(
            established(inq@.claims, inq@.claims.len() as int),
        ) + "."@,
    ]);
    Scene { title: "The Determination".to_string(), body, choices, speaker: None }
}

/// What the player sees of the hearing that sits.
pub fn scene(w: &WorldState, content: &ContentDb) -> (r: Scene)
    requires
        hearing_sits(w@),
    ensures
        w@.inquiry is Some,
        r@ == hearing_view(w@.inquiry->0, content.npcs@),
{
    let inq = match &w.inquiry {
        Some(inq) => inq,
        None => {
            assert(false);
            return Scene {
                title: String::new(),
                body: Vec::new(),
                choices: Vec::new(),
                speaker: None,
            };
        },
    };
    let ghost view = hearing_view(inq@, content.npcs@);
    match &inq.stage {
        InqStage::Summons => {
            let overleaf = "Overleaf: ".to_string().concat(inq.charge.as_str()).concat(".");
            let body = vec![prose::SUMMONS.to_string(), overleaf];
            assert(views(body@) =~= view.body);
            Scene {
                title: "A Summons, in Triplicate".to_string(),
                body,
                choices: one_choice("Attend the hearing"),
                speaker: None,
            }
        },
        InqStage::Brief => {
            let matter = "THE MATTER: ".to_string().concat(inq.charge.as_str()).concat(".");
            let names = name_witnesses(inq, content);
            let calls = "WITNESSES CALLED: ".to_string().concat(
                join_texts(&names, "; ").as_str(),
            ).concat(".");
            let body = vec![
                prose::BRIEF.to_string(),
                matter,
                calls,
                prose::BRIEF_RECORD.to_string(),
            ];
            assert(views(body@) =~= view.body);
            Scene {
                title: "The Corn Exchange — The Brief".to_string(),
                body,
                choices: one_choice("Begin the testimony"),
                speaker: None,
            }
        },
        InqStage::Hub => hub_scene(inq, content),
        InqStage::Testimony { claim_idx } => {
            let c = &inq.claims[*claim_idx];
            assert(inq@.claims[*claim_idx as int] == c@);
            let chair = c.witness_name.clone().concat(" takes the chair and gives an account:");
            let quote = "\"".to_string().concat(c.text.as_str()).concat("\"");
            let source = if same_text(c.kind.as_str(), "gossip") {
                prose::HEARSAY
            } else {
                prose::EYEWITNESS
            };
            let body = vec![chair, quote, source.to_string()];
            assert(views(body@) =~= view.body);
            Scene {
                title: "The Witness: ".to_string().concat(c.witness_name.as_str()),
                body,
                choices: one_choice("Return to the panel"),
                speaker: None,
            }
        },
        InqStage::Verdict => verdict_scene(inq),
        InqStage::Closed { lines } => Scene {
            title: "The Record".to_string(),
            body: clone_texts(lines),
            choices: one_choice("Step out into the morning"),
            speaker: None,
        },
    }
}

} // verus!
