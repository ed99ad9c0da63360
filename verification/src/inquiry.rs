//! The Inquiry: a settlement panel convenes over something Cobb actually did.
//! Testimony is rendered from real memories, gossip and all; a contradiction
//! is found by comparing a claim with the canonical record.

use vstd::prelude::*;
use vstd::string::*;

use crate::content::{ContentDb, Npc};
use crate::flags::{inserted, inserted_all, FlagSet};
use crate::memory::{
    charge_for, chargeable, FactAttrs, FactModel, FactRec, FactRecModel, MemoryEntry, MemoryModel,
};
use crate::text::{clone_texts, same_text, views, Text};
use crate::world::{WorldModel, WorldState};

verus! {

/// What a witness has said.
#[derive(Clone, Debug, PartialEq)]
pub struct Claim {
    pub witness: String,
    pub witness_name: String,
    pub text: String,
    pub asserts: FactAttrs,
    /// "observation" | "gossip" — how the witness comes to know it.
    pub kind: String,
    /// `Some(true)` = contradiction established.
    pub challenged: Option<bool>,
}

/// Where a hearing stands.
#[derive(Clone, Debug, PartialEq)]
pub enum InqStage {
    Summons,
    Brief,
    Hub,
    Testimony { claim_idx: usize },
    Verdict,
    Closed { lines: Vec<String> },
}

/// A hearing.
#[derive(Clone, Debug, PartialEq)]
pub struct InquiryState {
    pub case: FactRec,
    pub charge: String,
    pub witnesses: Vec<String>,
    pub claims: Vec<Claim>,
    pub questioned: FlagSet,
    pub credibility: i64,
    pub stage: InqStage,
}

/// The model of [`Claim`].
pub struct ClaimModel {
    pub witness: Text,
    pub witness_name: Text,
    pub text: Text,
    pub asserts: FactModel,
    pub kind: Text,
    pub challenged: Option<bool>,
}

/// The model of [`InqStage`].
pub enum InqStageModel {
    Summons,
    Brief,
    Hub,
    Testimony { claim_idx: int },
    Verdict,
    Closed { lines: Seq<Text> },
}

/// The model of [`InquiryState`].
#[verifier::ext_equal]
pub struct InquiryModel {
    pub case: FactRecModel,
    pub charge: Text,
    pub witnesses: Seq<Text>,
    pub claims: Seq<ClaimModel>,
    pub questioned: Seq<Text>,
    pub credibility: int,
    pub stage: InqStageModel,
}

impl View for Claim {
    type V = ClaimModel;

    open spec fn view(&self) -> ClaimModel {
        ClaimModel {
            witness: self.witness@,
            witness_name: self.witness_name@,
            text: self.text@,
            asserts: self.asserts@,
            kind: self.kind@,
            challenged: self.challenged,
        }
    }
}

impl View for InqStage {
    type V = InqStageModel;

    open spec fn view(&self) -> InqStageModel {
        match *self {
            InqStage::Summons => InqStageModel::Summons,
            InqStage::Brief => InqStageModel::Brief,
            InqStage::Hub => InqStageModel::Hub,
            InqStage::Testimony { claim_idx } => InqStageModel::Testimony {
                claim_idx: claim_idx as int,
            },
            InqStage::Verdict => InqStageModel::Verdict,
            InqStage::Closed { lines } => InqStageModel::Closed { lines: views(lines@) },
        }
    }
}

impl View for InquiryState {
    type V = InquiryModel;

    open spec fn view(&self) -> InquiryModel {
        InquiryModel {
            case: self.case@,
            charge: self.charge@,
            witnesses: views(self.witnesses@),
            claims: views(self.claims@),
            questioned: self.questioned@,
            credibility: self.credibility as int,
            stage: self.stage@,
        }
    }
}

// ------------------------------------------------------------------ convening

/// Whether the memory is about the fact `id`.
pub open spec fn about(m: MemoryModel, id: Text) -> bool {
    m.fact_id == Some(id)
}

/// The greatest importance that the fact `id` has among the first `n`
/// memories; `None` where none of them is about it.
pub open spec fn gravity(mems: Seq<MemoryModel>, id: Text, n: int) -> Option<int>
    decreases n,
{
    if n <= 0 {
        None
    } else {
        let g = gravity(mems, id, n - 1);
        if !about(mems[n - 1], id) {
            g
        } else {
            match g {
                Some(v) => if mems[n - 1].importance >= v {
                    Some(mems[n - 1].importance)
                } else {
                    Some(v)
                },
                None => Some(mems[n - 1].importance),
            }
        }
    }
}

/// The people who remember the fact `id`, one for each of the first `n`
/// memories that is about it.
pub open spec fn holders(mems: Seq<MemoryModel>, id: Text, n: int) -> Seq<Text>
    decreases n,
{
    if n <= 0 {
        Seq::empty()
    } else if about(mems[n - 1], id) {
        holders(mems, id, n - 1).push(mems[n - 1].npc)
    } else {
        holders(mems, id, n - 1)
    }
}

/// The mark of a fact that has been before a panel.
pub open spec fn tried_mark(id: Text) -> Text {
    "tried_"@ + id
}

/// How grave a fact is to a panel: `None` where it cannot be charged, has been
/// tried, or nobody remembers it.
pub open spec fn case_gravity(w: WorldModel, f: FactRecModel) -> Option<int> {
    if charge_for(f.attrs.action) is None || w.flags.contains(tried_mark(f.fact_id)) {
        None
    } else {
        gravity(w.memories, f.fact_id, w.memories.len() as int)
    }
}

/// The gravest of the first `n` facts, the earlier of two that are as grave.
pub open spec fn gravest(w: WorldModel, n: int) -> Option<int>
    decreases n,
{
    if n <= 0 {
        None
    } else {
        let k = gravest(w, n - 1);
        match case_gravity(w, w.facts[n - 1]) {
            None => k,
            Some(v) => match k {
                Some(q) => if v > case_gravity(w, w.facts[q])->0 {
                    Some(n - 1)
                } else {
                    Some(q)
                },
                None => Some(n - 1),
            },
        }
    }
}

/// At most four of those who remember, in order of name, each once.
pub open spec fn called(mems: Seq<MemoryModel>, id: Text) -> Seq<Text> {
    let all = inserted_all(Seq::empty(), holders(mems, id, mems.len() as int));
    if all.len() > 4 {
        all.take(4)
    } else {
        all
    }
}

/// A hearing over the fact `f`, about to begin.
pub open spec fn opened(w: WorldModel, f: FactRecModel) -> InquiryModel {
    InquiryModel {
        case: f,
        charge: charge_for(f.attrs.action)->0,
        witnesses: called(w.memories, f.fact_id),
        claims: Seq::empty(),
        questioned: Seq::empty(),
        credibility: 0,
        stage: InqStageModel::Summons,
    }
}

/// What officialdom does at Ledger Close: the fact that it takes up, if it has
/// grounds and appetite.
pub open spec fn taken_up(w: WorldModel) -> Option<FactRecModel> {
    if w.inquiry is Some || w.guild_suspicion < 6 {
        None
    } else {
        match gravest(w, w.facts.len() as int) {
            Some(k) => Some(w.facts[k]),
            None => None,
        }
    }
}

/// The world with a hearing over `f` convened.
pub open spec fn convened(w: WorldModel, f: FactRecModel) -> WorldModel {
    WorldModel {
        flags: inserted(w.flags, tried_mark(f.fact_id)),
        inquiry: Some(opened(w, f)),
        ..w
    }
}

fn is_about(m: &MemoryEntry, id: &str) -> (r: bool)
    ensures
        r == about(m@, id@),
{
    match &m.fact_id {
        Some(f) => same_text(f.as_str(), id),
        None => false,
    }
}

fn find_gravity(mems: &Vec<MemoryEntry>, id: &str) -> (r: Option<i64>)
    ensures
        match r {
            Some(v) => gravity(views(mems@), id@, mems@.len() as int) == Some(v as int),
            None => gravity(views(mems@), id@, mems@.len() as int) is None,
        },
{
    let mut best: Option<i64> = None;
    let mut i: usize = 0;
    while i < mems.len()
        invariant
            i <= mems@.len(),
            match best {
                Some(v) => gravity(views(mems@), id@, i as int) == Some(v as int),
                None => gravity(views(mems@), id@, i as int) is None,
            },
        decreases mems@.len() - i,
    {
        assert(views(mems@)[i as int] == mems@[i as int]@);
        if is_about(&mems[i], id) {
            match best {
                Some(v) => {
                    if mems[i].importance >= v {
                        best = Some(mems[i].importance);
                    }
                },
                None => {
                    best = Some(mems[i].importance);
                },
            }
        }
        i += 1;
    }
    best
}

fn weigh_case(w: &WorldState, f: &FactRec) -> (r: Option<i64>)
    ensures
        match r {
            Some(v) => case_gravity(w@, f@) == Some(v as int),
            None => case_gravity(w@, f@) is None,
        },
{
    if chargeable(f.attrs.action.as_str()).is_none() {
        return None;
    }
    let mark = "tried_".to_string().concat(f.fact_id.as_str());
    if w.flags.contains(mark.as_str()) {
        return None;
    }
    find_gravity(&w.memories, f.fact_id.as_str())
}

fn find_gravest(w: &WorldState) -> (r: Option<usize>)
    ensures
        match r {
            Some(k) => k < w.facts@.len() && gravest(w@, w.facts@.len() as int) == Some(k as int)
                && case_gravity(w@, w@.facts[k as int]) is Some,
            None => gravest(w@, w.facts@.len() as int) is None,
        },
{
    let mut best: Option<(usize, i64)> = None;
    let mut i: usize = 0;
    while i < w.facts.len()
        invariant
            i <= w.facts@.len(),
            match best {
                Some(b) => b.0 < i && gravest(w@, i as int) == Some(b.0 as int) && case_gravity(
                    w@,
                    w@.facts[b.0 as int],
                ) == Some(b.1 as int),
                None => gravest(w@, i as int) is None,
            },
        decreases w.facts@.len() - i,
    {
        assert(w@.facts[i as int] == w.facts@[i as int]@);
        match weigh_case(w, &w.facts[i]) {
            None => {},
            Some(v) => match best {
                Some(b) => {
                    if v > b.1 {
                        best = Some((i, v));
                    }
                },
                None => {
                    best = Some((i, v));
                },
            },
        }
        i += 1;
    }
    match best {
        Some(b) => Some(b.0),
        None => None,
    }
}

fn call_witnesses(mems: &Vec<MemoryEntry>, id: &str) -> (r: Vec<String>)
    ensures
        views(r@) == called(views(mems@), id@),
{
    let mut set = FlagSet::new();
    let ghost all = views(mems@);
    let mut i: usize = 0;
    while i < mems.len()
        invariant
            all == views(mems@),
            i <= mems@.len(),
            set@ == inserted_all(Seq::empty(), holders(all, id@, i as int)),
        decreases mems@.len() - i,
    {
        assert(all[i as int] == mems@[i as int]@);
        if is_about(&mems[i], id) {
            set.insert(mems[i].npc.clone());
            let ghost before = holders(all, id@, i as int);
            assert(before.push(all[i as int].npc).drop_last() =~= before);
        }
        i += 1;
    }
    let mut names = clone_texts(set.items());
    if names.len() > 4 {
        let ghost before = names@;
        names.truncate(4);
        assert(views(names@) =~= views(before).take(4));
    }
    names
}

/// At Ledger Close: does officialdom have grounds and appetite? If so, a
/// hearing is convened over the gravest chargeable fact that somebody
/// remembers.
pub fn maybe_convene(w: &mut WorldState) -> (r: bool)
    ensures
        r == (taken_up(old(w)@) is Some),
        match taken_up(old(w)@) {
            Some(f) => final(w)@ == convened(old(w)@, f),
            None => final(w)@ == old(w)@,
        },
{
    if w.inquiry.is_some() || w.guild_suspicion < 6 {
        return false;
    }
    let k = match find_gravest(w) {
        Some(k) => k,
        None => {
            return false;
        },
    };
    assert(w@.facts[k as int] == w.facts@[k as int]@);
    let fact = w.facts[k].clone();
    let charge = match chargeable(fact.attrs.action.as_str()) {
        Some(c) => c,
        None => {
            return false;
        },
    };
    let witnesses = call_witnesses(&w.memories, fact.fact_id.as_str());
    w.flags.insert("tried_".to_string().concat(fact.fact_id.as_str()));
    let inq = InquiryState {
        case: fact,
        charge: charge.to_string(),
        witnesses,
        claims: Vec::new(),
        questioned: FlagSet::new(),
        credibility: 0,
        stage: InqStage::Summons,
    };
    assert(inq@ =~= opened(old(w)@, old(w)@.facts[k as int]));
    w.inquiry = Some(inq);
    true
}

// --------------------------------------------------------------------- names

/// The name of the one with the id `id`; the id itself where nobody has it.
pub open spec fn name_of(npcs: Seq<Npc>, id: Text) -> Text
    decreases npcs.len(),
{
    if npcs.len() == 0 {
        id
    } else if npcs[0].id@ == id {
        npcs[0].name@
    } else {
        name_of(npcs.drop_first(), id)
    }
}

/// The name of the one with the id `id`; the id itself where nobody has it.
pub fn npc_name<'c>(content: &'c ContentDb, id: &'c str) -> (r: &'c str)
    ensures
        r@ == name_of(content.npcs@, id@),
{
    let ghost all = content.npcs@;
    let mut i: usize = 0;
    assert(all.skip(0) =~= all);
    while i < content.npcs.len()
        invariant
            all == content.npcs@,
            i <= all.len(),
            name_of(all, id@) == name_of(all.skip(i as int), id@),
        decreases all.len() - i,
    {
        if same_text(content.npcs[i].id.as_str(), id) {
            return content.npcs[i].name.as_str();
        }
        assert(all.skip(i as int).drop_first() =~= all.skip(i + 1));
        i += 1;
    }
    id
}

} // verus!
