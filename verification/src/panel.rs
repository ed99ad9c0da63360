//! Playing a hearing: questioning, challenging, and the verdict.

use vstd::prelude::*;
use vstd::string::*;

use crate::content::{ContentDb, Npc};
use crate::flags::inserted;
use crate::inquiry::{
    about, name_of, npc_name, Claim, ClaimModel, InqStage, InqStageModel, InquiryModel,
    InquiryState,
};
use crate::memory::{same_attrs, FactModel, MemoryEntry, MemoryModel};
use crate::mission::{fmt_pence, money, narrate, Event};
use crate::prose;
use crate::road::fits;
use crate::text::{lemma_views_push, same_text, views, Text};
use crate::world::{shifted, standing, WorldModel, WorldState};

verus! {

/// A turn of a hearing: the world behind it and what was told on the way.
#[verifier::ext_equal]
pub struct HearingTurn {
    pub w: WorldModel,
    pub said: Seq<Text>,
}

// ---------------------------------------------------------------- questioning

/// Which of the first `n` memories `npc` speaks from about the fact `id`: the
/// one that matters most, the later of two that matter as much.
pub open spec fn testimony(mems: Seq<MemoryModel>, npc: Text, id: Text, n: int) -> Option<int>
    decreases n,
{
    if n <= 0 {
        None
    } else {
        let k = testimony(mems, npc, id, n - 1);
        if !(mems[n - 1].npc == npc && about(mems[n - 1], id)) {
            k
        } else {
            match k {
                Some(q) => if mems[n - 1].importance >= mems[q].importance {
                    Some(n - 1)
                } else {
                    Some(q)
                },
                None => Some(n - 1),
            }
        }
    }
}

/// What a memory becomes on the record. A memory without a version of its own
/// is taken to say what the record says.
pub open spec fn claim_from(
    m: MemoryModel,
    npc: Text,
    name: Text,
    canonical: FactModel,
) -> ClaimModel {
    ClaimModel {
        witness: npc,
        witness_name: name,
        text: m.text,
        asserts: match m.asserts {
            Some(a) => a,
            None => canonical,
        },
        kind: m.kind,
        challenged: None,
    }
}

/// The hearing with the witness at `idx` questioned.
pub open spec fn questioned(
    mems: Seq<MemoryModel>,
    inq: InquiryModel,
    npcs: Seq<Npc>,
    idx: int,
) -> InquiryModel {
    let npc = inq.witnesses[idx];
    match testimony(mems, npc, inq.case.fact_id, mems.len() as int) {
        Some(k) => InquiryModel {
            claims: inq.claims.push(
                claim_from(mems[k], npc, name_of(npcs, npc), inq.case.attrs),
            ),
            questioned: inserted(inq.questioned, npc),
            stage: InqStageModel::Testimony { claim_idx: inq.claims.len() as int },
            ..inq
        },
        None => inq,
    }
}

fn find_testimony(mems: &Vec<MemoryEntry>, npc: &str, id: &str) -> (r: Option<usize>)
    ensures
        match r {
            Some(k) => k < mems@.len() && testimony(views(mems@), npc@, id@, mems@.len() as int)
                == Some(k as int),
            None => testimony(views(mems@), npc@, id@, mems@.len() as int) is None,
        },
{
    let mut best: Option<usize> = None;
    let mut i: usize = 0;
    while i < mems.len()
        invariant
            i <= mems@.len(),
            match best {
                Some(k) => k < i && testimony(views(mems@), npc@, id@, i as int) == Some(k as int),
                None => testimony(views(mems@), npc@, id@, i as int) is None,
            },
        decreases mems@.len() - i,
    {
        let m = &mems[i];
        assert(views(mems@)[i as int] == m@);
        let on_case = match &m.fact_id {
            Some(f) => same_text(f.as_str(), id),
            None => false,
        };
        if same_text(m.npc.as_str(), npc) && on_case {
            match best {
                Some(k) => {
                    assert(views(mems@)[k as int] == mems@[k as int]@);
                    if m.importance >= mems[k].importance {
                        best = Some(i);
                    }
                },
                None => {
                    best = Some(i);
                },
            }
        }
        i += 1;
    }
    best
}

fn question(mems: &Vec<MemoryEntry>, inq: &mut InquiryState, content: &ContentDb, idx: usize)
    requires
        idx < old(inq).witnesses@.len(),
    ensures
        final(inq)@ == questioned(views(mems@), old(inq)@, content.npcs@, idx as int),
{
    let npc = inq.witnesses[idx].clone();
    assert(inq@.witnesses[idx as int] == npc@);
    match find_testimony(mems, npc.as_str(), inq.case.fact_id.as_str()) {
        None => {},
        Some(k) => {
            let m = &mems[k];
            assert(views(mems@)[k as int] == m@);
            let asserts = match &m.asserts {
                Some(a) => a.clone(),
                None => inq.case.attrs.clone(),
            };
            let claim = Claim {
                witness: npc.clone(),
                witness_name: npc_name(content, npc.as_str()).to_string(),
                text: m.text.clone(),
                asserts,
                kind: m.kind.clone(),
                challenged: None,
            };
            let claim_idx = inq.claims.len();
            proof {
                lemma_views_push(inq.claims@, claim);
            }
            inq.claims.push(claim);
            inq.questioned.insert(npc);
            inq.stage = InqStage::Testimony { claim_idx };
            assert(inq@ =~= questioned(views(mems@), old(inq)@, content.npcs@, idx as int));
        },
    }
}

// ---------------------------------------------------------------- challenging

/// Whether a claim contradicts the canonical record: plain comparison.
pub open spec fn contradicts(inq: InquiryModel, ci: int) -> bool {
    inq.claims[ci].asserts != inq.case.attrs
}

/// The hearing with claim `ci` put to the record.
pub open spec fn challenged(inq: InquiryModel, ci: int) -> InquiryModel {
    InquiryModel {
        claims: inq.claims.update(
            ci,
            ClaimModel { challenged: Some(contradicts(inq, ci)), ..inq.claims[ci] },
        ),
        credibility: if contradicts(inq, ci) {
            inq.credibility + 1
        } else {
            inq.credibility - 1
        },
        ..inq
    }
}

/// What is told of a challenge.
pub open spec fn challenge_words(inq: InquiryModel, ci: int) -> Text {
    let name = inq.claims[ci].witness_name;
    if contradicts(inq, ci) {
        "The record is consulted. The record disagrees with "@ + name
            + ". Finch stamps something with feeling."@
    } else {
        "The record is consulted. The record agrees with "@ + name + prose::RECORD_AGREES@
    }
}

/// Puts claim `ci` to the record.
pub fn challenge(inq: &mut InquiryState, ci: usize, events: &mut Vec<Event>)
    requires
        ci < old(inq).claims@.len(),
        fits(challenged(old(inq)@, ci as int).credibility),
    ensures
        final(inq)@ == challenged(old(inq)@, ci as int),
        views(final(events)@) == views(old(events)@).push(
            challenge_words(old(inq)@, ci as int),
        ),
{
    let ghost before = inq.claims@;
    assert(inq@.claims[ci as int] == inq.claims@[ci as int]@);
    let c = &inq.claims[ci];
    let contradiction = !same_attrs(&c.asserts, &inq.case.attrs);
    let put = Claim {
        witness: c.witness.clone(),
        witness_name: c.witness_name.clone(),
        text: c.text.clone(),
        asserts: c.asserts.clone(),
        kind: c.kind.clone(),
        challenged: Some(contradiction),
    };
    if contradiction {
        narrate(
            events,
            "The record is consulted. The record disagrees with ".to_string().concat(
                c.witness_name.as_str(),
            ).concat(". Finch stamps something with feeling."),
        );
        inq.credibility = inq.credibility + 1;
    } else {
        narrate(
            events,
            "The record is consulted. The record agrees with ".to_string().concat(
                c.witness_name.as_str(),
            ).concat(prose::RECORD_AGREES),
        );
        inq.credibility = inq.credibility - 1;
    }
    inq.claims.set(ci, put);
    assert(inq@.claims =~= challenged(old(inq)@, ci as int).claims);
}

// -------------------------------------------------------------------- verdicts

/// The fine: fifty shillings, or all there is.
pub open spec fn fine_of(cash: int) -> int {
    if 600 < cash {
        600
    } else {
        cash
    }
}

/// Suspicion cooled by `by`, not below nothing.
pub open spec fn cooled(suspicion: int, by: int) -> int {
    if suspicion - by < 0 {
        0
    } else {
        suspicion - by
    }
}

/// The lines of the verdict that is taken.
pub open spec fn verdict_lines(w: WorldModel, idx: int) -> Seq<Text> {
    if idx == 0 {
        seq![
            "FINDING: fault determined. Fine of "@ + money(fine_of(w.cash_pence))
                + " paid into the provisional fund, receipted in triplicate."@,
            prose::FINE_CLOSED@,
        ]
    } else if idx == 1 {
        seq![prose::FRAMED@, prose::FRAMED_AFTER@]
    } else {
        seq![prose::DISMISSED@, prose::DISMISSED_AFTER@]
    }
}

/// What the verdict does to the world.
pub open spec fn sentenced(w: WorldModel, idx: int) -> WorldModel {
    if idx == 0 {
        WorldModel {
            cash_pence: w.cash_pence - fine_of(w.cash_pence),
            guild_suspicion: cooled(w.guild_suspicion, 3),
            ..w
        }
    } else if idx == 1 {
        WorldModel {
            guild_suspicion: cooled(w.guild_suspicion, 4),
            factions: shifted(w.factions, "carver"@, -1),
            flags: inserted(w.flags, "framed_pulver"@),
            ..w
        }
    } else {
        WorldModel {
            guild_suspicion: cooled(w.guild_suspicion, 5),
            factions: shifted(w.factions, "collective"@, 1),
            ..w
        }
    }
}

/// The sums of the verdict can be worked out.
pub open spec fn verdict_fits(w: WorldModel, idx: int) -> bool {
    if idx == 0 {
        fits(w.guild_suspicion - 3) && w.cash_pence > i64::MIN
    } else if idx == 1 {
        fits(w.guild_suspicion - 4) && fits(standing(w.factions, "carver"@) - 1)
    } else {
        fits(w.guild_suspicion - 5) && fits(standing(w.factions, "collective"@) + 1)
    }
}

fn cool(suspicion: i64, by: i64) -> (r: i64)
    requires
        fits(suspicion - by),
    ensures
        r == cooled(suspicion as int, by as int),
{
    let left: i64 = suspicion - by;
    if left < 0 {
        0
    } else {
        left
    }
}

/// Carries out the finding that was chosen and returns its lines.
pub fn pass_verdict(w: &mut WorldState, idx: usize) -> (r: Vec<String>)
    requires
        verdict_fits(old(w)@, idx as int),
    ensures
        final(w)@ == sentenced(old(w)@, idx as int),
        views(r@) == verdict_lines(old(w)@, idx as int),
{
    if idx == 0 {
        let fine: i64 = if 600 < w.cash_pence {
            600
        } else {
            w.cash_pence
        };
        w.cash_pence = w.cash_pence - fine;
        w.guild_suspicion = cool(w.guild_suspicion, 3);
        let finding = "FINDING: fault determined. Fine of ".to_string().concat(
            fmt_pence(fine).as_str(),
        ).concat(" paid into the provisional fund, receipted in triplicate.");
        let lines = vec![finding, prose::FINE_CLOSED.to_string()];
        assert(views(lines@) =~= verdict_lines(old(w)@, idx as int));
        lines
    } else if idx == 1 {
        w.guild_suspicion = cool(w.guild_suspicion, 4);
        w.factions.shift("carver", -1);
        w.flags.insert("framed_pulver".to_string());
        let lines = vec![prose::FRAMED.to_string(), prose::FRAMED_AFTER.to_string()];
        assert(views(lines@) =~= verdict_lines(old(w)@, idx as int));
        lines
    } else {
        w.guild_suspicion = cool(w.guild_suspicion, 5);
        w.factions.shift("collective", 1);
        let lines = vec![prose::DISMISSED.to_string(), prose::DISMISSED_AFTER.to_string()];
        assert(views(lines@) =~= verdict_lines(old(w)@, idx as int));
        lines
    }
}

// -------------------------------------------------------------------- choosing

/// The world with the hearing `inq` sitting.
pub open spec fn sitting(w: WorldModel, inq: InquiryModel) -> WorldModel {
    WorldModel { inquiry: Some(inq), ..w }
}

/// A choice before the panel: the witnesses first, the claims behind them,
/// the verdict last.
pub open spec fn hub_turn(
    w: WorldModel,
    inq: InquiryModel,
    npcs: Seq<Npc>,
    idx: int,
) -> HearingTurn {
    let ci = idx - inq.witnesses.len();
    if idx < inq.witnesses.len() {
        HearingTurn {
            w: sitting(w, questioned(w.memories, inq, npcs, idx)),
            said: Seq::empty(),
        }
    } else if ci < inq.claims.len() {
        HearingTurn { w: sitting(w, challenged(inq, ci)), said: seq![challenge_words(inq, ci)] }
    } else {
        HearingTurn {
            w: sitting(w, InquiryModel { stage: InqStageModel::Verdict, ..inq }),
            said: Seq::empty(),
        }
    }
}

/// A choice in the hearing `inq`, whatever its stage.
pub open spec fn hearing_turn(
    w: WorldModel,
    inq: InquiryModel,
    npcs: Seq<Npc>,
    idx: int,
) -> HearingTurn {
    match inq.stage {
        InqStageModel::Summons => HearingTurn {
            w: sitting(w, InquiryModel { stage: InqStageModel::Brief, ..inq }),
            said: Seq::empty(),
        },
        InqStageModel::Brief => HearingTurn {
            w: sitting(w, InquiryModel { stage: InqStageModel::Hub, ..inq }),
            said: Seq::empty(),
        },
        InqStageModel::Hub => hub_turn(w, inq, npcs, idx),
        InqStageModel::Testimony { .. } => HearingTurn {
            w: sitting(w, InquiryModel { stage: InqStageModel::Hub, ..inq }),
            said: Seq::empty(),
        },
        InqStageModel::Verdict => HearingTurn {
            w: sitting(
                sentenced(w, idx),
                InquiryModel {
                    stage: InqStageModel::Closed { lines: verdict_lines(w, idx) },
                    ..inq
                },
            ),
            said: Seq::empty(),
        },
        InqStageModel::Closed { .. } => HearingTurn {
            w: WorldModel { inquiry: None, ..w },
            said: seq![prose::EMPTIES@],
        },
    }
}

/// A choice in the world: nothing happens where no hearing sits.
pub open spec fn inquiry_turn(w: WorldModel, npcs: Seq<Npc>, idx: int) -> HearingTurn {
    match w.inquiry {
        Some(inq) => hearing_turn(w, inq, npcs, idx),
        None => HearingTurn { w, said: Seq::empty() },
    }
}

/// The sums of a choice can be worked out.
pub open spec fn inquiry_fits(w: WorldModel, idx: int) -> bool {
    w.inquiry matches Some(inq) ==> {
        let ci = idx - inq.witnesses.len();
        &&& (inq.stage is Hub && 0 <= ci < inq.claims.len() ==> fits(
            challenged(inq, ci).credibility,
        ))
        &&& (inq.stage is Verdict ==> verdict_fits(w, idx))
    }
}

/// Takes a choice in the hearing that sits.
pub fn take_choice(w: &mut WorldState, idx: usize, content: &ContentDb, events: &mut Vec<Event>)
    requires
        inquiry_fits(old(w)@, idx as int),
    ensures
        final(w)@ == inquiry_turn(old(w)@, content.npcs@, idx as int).w,
        views(final(events)@) == views(old(events)@) + inquiry_turn(
            old(w)@,
            content.npcs@,
            idx as int,
        ).said,
{
    let ghost said = views(events@);
    let mut inq = match w.inquiry.take() {
        Some(inq) => inq,
        None => {
            assert(views(events@) =~= said + Seq::<Text>::empty());
            return ;
        },
    };
    let ghost start = inq@;
    let ghost left = w@;
    assert(left == (WorldModel { inquiry: None, ..old(w)@ }));
    assert(old(w)@.inquiry == Some(start));
    match &inq.stage {
        InqStage::Summons => {
            inq.stage = InqStage::Brief;
        },
        InqStage::Brief => {
            inq.stage = InqStage::Hub;
        },
        InqStage::Hub => {
            let n_wit = inq.witnesses.len();
            if idx < n_wit {
                question(&w.memories, &mut inq, content, idx);
            } else if idx - n_wit < inq.claims.len() {
                challenge(&mut inq, idx - n_wit, events);
            } else {
                inq.stage = InqStage::Verdict;
            }
        },
        InqStage::Testimony { .. } => {
            inq.stage = InqStage::Hub;
        },
        InqStage::Verdict => {
            let lines = pass_verdict(w, idx);
            inq.stage = InqStage::Closed { lines };
        },
        InqStage::Closed { .. } => {
            narrate(events, prose::EMPTIES.to_string());
            assert(views(events@) =~= said + seq![prose::EMPTIES@]);
            return ;
        },
    }
    w.inquiry = Some(inq);
    assert(views(events@) =~= said + inquiry_turn(old(w)@, content.npcs@, idx as int).said);
    assert(w@ =~= inquiry_turn(old(w)@, content.npcs@, idx as int).w);
}

} // verus!
