//! What people know. Observations and gossip are made here, deterministically;
//! who knows what is decided here and nowhere else.

use vstd::prelude::*;
use vstd::string::*;

use crate::content::{is_settlement, ContentDb, Settlement};
use crate::dice::{draw_index, draw_small, drawn_u32, DiceModel};
use crate::flags::FlagSet;
use crate::text::{dec, decimal_u64, lemma_views_push, opt_view, same_text, views, Text};
use crate::world::{Tick, WorldModel, WorldState};

verus! {

/// How much one person remembers.
pub const MEMORIES_PER_NPC: usize = 30;

/// The attributes of a happening. The record holds the canonical ones; a
/// memory carries its own, possibly distorted, copy.
#[derive(Debug, PartialEq, Eq)]
pub struct FactAttrs {
    pub actor: String,
    pub action: String,
    pub location: String,
}

/// An entry of the canonical record.
#[derive(Debug, PartialEq)]
pub struct FactRec {
    pub fact_id: String,
    pub tick: Tick,
    pub attrs: FactAttrs,
}

/// One thing that one person remembers.
#[derive(Clone, Debug, PartialEq)]
pub struct MemoryEntry {
    pub id: u64,
    pub npc: String,
    /// "observation" | "gossip" | "reflection" | "chat"
    pub kind: String,
    pub text: String,
    /// Links to a fact when the memory is about a concrete happening.
    pub fact_id: Option<String>,
    /// The witness's own version of events. Gossip may distort this.
    pub asserts: Option<FactAttrs>,
    /// 1..=10, mundane to poignant.
    pub importance: i64,
    pub tick: Tick,
}

/// The model of [`FactAttrs`].
pub struct FactModel {
    pub actor: Text,
    pub action: Text,
    pub location: Text,
}

/// The model of [`FactRec`].
pub struct FactRecModel {
    pub fact_id: Text,
    pub tick: int,
    pub attrs: FactModel,
}

/// The model of [`MemoryEntry`].
pub struct MemoryModel {
    pub id: int,
    pub npc: Text,
    pub kind: Text,
    pub text: Text,
    pub fact_id: Option<Text>,
    pub asserts: Option<FactModel>,
    pub importance: int,
    pub tick: int,
}

impl View for FactAttrs {
    type V = FactModel;

    open spec fn view(&self) -> FactModel {
        FactModel { actor: self.actor@, action: self.action@, location: self.location@ }
    }
}

impl View for FactRec {
    type V = FactRecModel;

    open spec fn view(&self) -> FactRecModel {
        FactRecModel { fact_id: self.fact_id@, tick: self.tick as int, attrs: self.attrs@ }
    }
}

impl View for MemoryEntry {
    type V = MemoryModel;

    open spec fn view(&self) -> MemoryModel {
        MemoryModel {
            id: self.id as int,
            npc: self.npc@,
            kind: self.kind@,
            text: self.text@,
            fact_id: opt_view(self.fact_id),
            asserts: opt_view(self.asserts),
            importance: self.importance as int,
            tick: self.tick as int,
        }
    }
}

impl Clone for FactAttrs {
    fn clone(&self) -> (r: Self)
        ensures
            r == *self,
    {
        FactAttrs {
            actor: self.actor.clone(),
            action: self.action.clone(),
            location: self.location.clone(),
        }
    }
}

impl Clone for FactRec {
    fn clone(&self) -> (r: Self)
        ensures
            r == *self,
    {
        FactRec { fact_id: self.fact_id.clone(), tick: self.tick, attrs: self.attrs.clone() }
    }
}

/// Whether two accounts say the same.
pub fn same_attrs(a: &FactAttrs, b: &FactAttrs) -> (r: bool)
    ensures
        r == (a@ == b@),
{
    same_text(a.actor.as_str(), b.actor.as_str()) && same_text(
        a.action.as_str(),
        b.action.as_str(),
    ) && same_text(a.location.as_str(), b.location.as_str())
}

// -------------------------------------------------------------------- witnesses

/// Who sees a flag happen, how much it matters, and whom it is told to.
pub open spec fn witness_of(flag: Text) -> Option<(Text, int, Option<Text>)> {
    if flag == "gate_smashed"@ {
        Some(("hobbs"@, 8, Some("tansy"@)))
    } else if flag == "bribed_checkpoint"@ {
        Some(("hobbs"@, 6, Some("carver"@)))
    } else if flag == "helped_traveller"@ {
        Some(("wray"@, 6, Some("tansy"@)))
    } else if flag == "passed_traveller"@ {
        Some(("wray"@, 4, None))
    } else if flag == "paid_carver"@ {
        Some(("carver"@, 5, None))
    } else if flag == "refused_carver"@ {
        Some(("carver"@, 6, Some("tansy"@)))
    } else if flag == "took_salvage"@ {
        Some(("tansy"@, 5, Some("finch"@)))
    } else if flag == "ran_ambush"@ {
        Some(("carver"@, 5, None))
    } else if flag == "yielded_to_pulver"@ {
        Some(("tansy"@, 3, None))
    } else if flag == "shaken_down"@ {
        Some(("tansy"@, 3, None))
    } else if flag == "took_drove_lane"@ {
        Some(("finch"@, 3, None))
    } else if flag == "owes_form_4b"@ {
        Some(("finch"@, 4, Some("arthur"@)))
    } else {
        None
    }
}

/// flag -> (first-hand witness, importance, gossip recipient). The witness map
/// is the social physics of the four roads.
pub fn flag_witness(flag: &str) -> (r: Option<(&'static str, i64, Option<&'static str>)>)
    ensures
        match r {
            Some(w) => witness_of(flag@) == Some((w.0@, w.1 as int, opt_view(w.2))),
            None => witness_of(flag@) is None,
        },
        r matches Some(w) ==> 3 <= w.1 <= 8,
{
    if same_text(flag, "gate_smashed") {
        Some(("hobbs", 8, Some("tansy")))
    } else if same_text(flag, "bribed_checkpoint") {
        Some(("hobbs", 6, Some("carver")))
    } else if same_text(flag, "helped_traveller") {
        Some(("wray", 6, Some("tansy")))
    } else if same_text(flag, "passed_traveller") {
        Some(("wray", 4, None))
    } else if same_text(flag, "paid_carver") {
        Some(("carver", 5, None))
    } else if same_text(flag, "refused_carver") {
        Some(("carver", 6, Some("tansy")))
    } else if same_text(flag, "took_salvage") {
        Some(("tansy", 5, Some("finch")))
    } else if same_text(flag, "ran_ambush") {
        Some(("carver", 5, None))
    } else if same_text(flag, "yielded_to_pulver") {
        Some(("tansy", 3, None))
    } else if same_text(flag, "shaken_down") {
        Some(("tansy", 3, None))
    } else if same_text(flag, "took_drove_lane") {
        Some(("finch", 3, None))
    } else if same_text(flag, "owes_form_4b") {
        Some(("finch", 4, Some("arthur")))
    } else {
        None
    }
}

/// The charge that a flag is grave enough for, if it is.
pub open spec fn charge_for(flag: Text) -> Option<Text> {
    if flag == "gate_smashed"@ {
        Some("wilful destruction of Collective property, to wit one pole"@)
    } else if flag == "bribed_checkpoint"@ {
        Some("corruption of a barrier officer in the execution of his kettle"@)
    } else if flag == "took_salvage"@ {
        Some("appropriation of goods in transit, forty tins thereof"@)
    } else if flag == "owes_form_4b"@ {
        Some("failure to apply for Form 4B within the prescribed Tuesday"@)
    } else {
        None
    }
}

/// Flags grave enough to convene an Inquiry over.
pub fn chargeable(flag: &str) -> (r: Option<&'static str>)
    ensures
        match r {
            Some(t) => charge_for(flag@) == Some(t@),
            None => charge_for(flag@) is None,
        },
{
    if same_text(flag, "gate_smashed") {
        Some("wilful destruction of Collective property, to wit one pole")
    } else if same_text(flag, "bribed_checkpoint") {
        Some("corruption of a barrier officer in the execution of his kettle")
    } else if same_text(flag, "took_salvage") {
        Some("appropriation of goods in transit, forty tins thereof")
    } else if same_text(flag, "owes_form_4b") {
        Some("failure to apply for Form 4B within the prescribed Tuesday")
    } else {
        None
    }
}

// -------------------------------------------------------------------- wording

/// What was done, in words.
pub open spec fn deed_of(flag: Text) -> Text {
    if flag == "gate_smashed"@ {
        "took the barrier pole off its bracket at speed"@
    } else if flag == "bribed_checkpoint"@ {
        "paid the 'paperwork fee' at the barrier"@
    } else if flag == "helped_traveller"@ {
        "stopped for a stranded rider and got him running"@
    } else if flag == "passed_traveller"@ {
        "drove past a man broken down on the verge"@
    } else if flag == "paid_carver"@ {
        "paid the road maintenance toll without fuss"@
    } else if flag == "refused_carver"@ {
        "refused the toll and cited the highways acts"@
    } else if flag == "took_salvage"@ {
        "loaded tins from an overturned cart"@
    } else if flag == "ran_ambush"@ {
        "drove straight through a staged breakdown"@
    } else if flag == "yielded_to_pulver"@ {
        "gave way to Pulver's Leyland on the straight"@
    } else if flag == "shaken_down"@ {
        "paid a 'toll' to men with clean coats"@
    } else if flag == "took_drove_lane"@ {
        "took the drove lane to dodge the barrier"@
    } else if flag == "owes_form_4b"@ {
        "was found carrying a 4C where a 4B was wanted"@
    } else {
        "did something on the road"@
    }
}

fn deed(flag: &str) -> (r: &'static str)
    ensures
        r@ == deed_of(flag@),
{
    if same_text(flag, "gate_smashed") {
        "took the barrier pole off its bracket at speed"
    } else if same_text(flag, "bribed_checkpoint") {
        "paid the 'paperwork fee' at the barrier"
    } else if same_text(flag, "helped_traveller") {
        "stopped for a stranded rider and got him running"
    } else if same_text(flag, "passed_traveller") {
        "drove past a man broken down on the verge"
    } else if same_text(flag, "paid_carver") {
        "paid the road maintenance toll without fuss"
    } else if same_text(flag, "refused_carver") {
        "refused the toll and cited the highways acts"
    } else if same_text(flag, "took_salvage") {
        "loaded tins from an overturned cart"
    } else if same_text(flag, "ran_ambush") {
        "drove straight through a staged breakdown"
    } else if same_text(flag, "yielded_to_pulver") {
        "gave way to Pulver's Leyland on the straight"
    } else if same_text(flag, "shaken_down") {
        "paid a 'toll' to men with clean coats"
    } else if same_text(flag, "took_drove_lane") {
        "took the drove lane to dodge the barrier"
    } else if same_text(flag, "owes_form_4b") {
        "was found carrying a 4C where a 4B was wanted"
    } else {
        "did something on the road"
    }
}

/// A deed as somebody remembers it, or as somebody tells it.
pub open spec fn remembered(flag: Text, attrs: FactModel, gossip: bool) -> Text {
    let actor = if attrs.actor == "cobb"@ {
        "Cobb"@
    } else {
        attrs.actor
    };
    if gossip {
        "They say "@ + actor + " "@ + deed_of(flag) + ", out by "@ + attrs.location + "."@
    } else {
        actor + " "@ + deed_of(flag) + ", on the "@ + attrs.location + " road."@
    }
}

/// A deed as somebody remembers it, or as somebody tells it.
pub fn memory_text(flag: &str, attrs: &FactAttrs, gossip: bool) -> (r: String)
    ensures
        r@ == remembered(flag@, attrs@, gossip),
{
    let actor = if same_text(attrs.actor.as_str(), "cobb") {
        "Cobb"
    } else {
        attrs.actor.as_str()
    };
    if gossip {
        "They say ".to_string().concat(actor).concat(" ").concat(deed(flag)).concat(
            ", out by ",
        ).concat(attrs.location.as_str()).concat(".")
    } else {
        actor.to_string().concat(" ").concat(deed(flag)).concat(", on the ").concat(
            attrs.location.as_str(),
        ).concat(" road.")
    }
}

// ------------------------------------------------------------------ remembering

/// How many of the first `n` memories are those of `npc`.
pub open spec fn count_of(mems: Seq<MemoryModel>, npc: Text, n: int) -> int
    decreases n,
{
    if n <= 0 {
        0
    } else {
        count_of(mems, npc, n - 1) + if mems[n - 1].npc == npc {
            1int
        } else {
            0
        }
    }
}

/// Whether `a` is dropped rather than `b`: it matters less, or it matters as
/// much and is the older one.
pub open spec fn fades_before(a: MemoryModel, b: MemoryModel) -> bool {
    a.importance < b.importance || (a.importance == b.importance && a.tick < b.tick)
}

/// Which of the first `n` memories is the one that `npc` drops: the first of
/// those before which none fades.
pub open spec fn forgettable(mems: Seq<MemoryModel>, npc: Text, n: int) -> Option<int>
    decreases n,
{
    if n <= 0 {
        None
    } else {
        let k = forgettable(mems, npc, n - 1);
        if mems[n - 1].npc != npc {
            k
        } else {
            match k {
                Some(q) => if fades_before(mems[n - 1], mems[q]) {
                    Some(n - 1)
                } else {
                    Some(q)
                },
                None => Some(n - 1),
            }
        }
    }
}

/// The memories after the cap for `npc` is applied.
pub open spec fn capped(mems: Seq<MemoryModel>, npc: Text) -> Seq<MemoryModel> {
    if count_of(mems, npc, mems.len() as int) > MEMORIES_PER_NPC {
        match forgettable(mems, npc, mems.len() as int) {
            Some(k) => mems.remove(k),
            None => mems,
        }
    } else {
        mems
    }
}

/// The world with `entry` remembered under the next id.
pub open spec fn with_memory(w: WorldModel, entry: MemoryModel) -> WorldModel {
    let e = MemoryModel { id: w.next_memory_id, ..entry };
    WorldModel {
        memories: capped(w.memories.push(e), entry.npc),
        next_memory_id: w.next_memory_id + 1,
        ..w
    }
}

proof fn lemma_forgettable_found(mems: Seq<MemoryModel>, npc: Text, n: int)
    requires
        0 <= n <= mems.len(),
    ensures
        match forgettable(mems, npc, n) {
            Some(k) => 0 <= k < n && mems[k].npc == npc,
            None => count_of(mems, npc, n) == 0,
        },
        0 <= count_of(mems, npc, n) <= n,
    decreases n,
{
    if n > 0 {
        lemma_forgettable_found(mems, npc, n - 1);
    }
}

/// Remembers `entry` under the next id. A person who then remembers too much
/// drops the most forgettable memory: the one of lowest importance, and among
/// those the oldest.
pub fn add_memory(w: &mut WorldState, entry: MemoryEntry)
    requires
        old(w).next_memory_id < u64::MAX,
    ensures
        final(w)@ == with_memory(old(w)@, entry@),
{
    let ghost before = w.memories@;
    let mut e = entry;
    e.id = w.next_memory_id;
    w.next_memory_id = w.next_memory_id + 1;
    let npc = e.npc.clone();
    proof {
        lemma_views_push(before, e);
    }
    w.memories.push(e);
    let ghost mems = views(w.memories@);
    assert(mems == old(w)@.memories.push(
        MemoryModel { id: old(w)@.next_memory_id, ..entry@ },
    ));
    let mut count: usize = 0;
    let mut worst: Option<usize> = None;
    let mut i: usize = 0;
    while i < w.memories.len()
        invariant
            mems == views(w.memories@),
            w@ == (WorldModel {
                memories: mems,
                next_memory_id: old(w)@.next_memory_id + 1,
                ..old(w)@
            }),
            i <= mems.len(),
            count <= i,
            count == count_of(mems, npc@, i as int),
            match worst {
                Some(q) => q < i && forgettable(mems, npc@, i as int) == Some(q as int),
                None => forgettable(mems, npc@, i as int) is None,
            },
        decreases mems.len() - i,
    {
        let m = &w.memories[i];
        assert(mems[i as int] == m@);
        if same_text(m.npc.as_str(), npc.as_str()) {
            count = count + 1;
            match worst {
                Some(q) => {
                    let b = &w.memories[q];
                    assert(mems[q as int] == b@);
                    if m.importance < b.importance || (m.importance == b.importance && m.tick
                        < b.tick) {
                        worst = Some(i);
                    }
                },
                None => {
                    worst = Some(i);
                },
            }
        }
        i += 1;
    }
    if count > MEMORIES_PER_NPC {
        if let Some(k) = worst {
            let ghost all = w.memories@;
            w.memories.remove(k);
            assert(views(w.memories@) =~= mems.remove(k as int)) by {
                assert(w.memories@ == all.remove(k as int));
            }
        }
    }
    assert(w@ =~= with_memory(old(w)@, entry@));
}

// --------------------------------------------------------------------- gossip

/// The settlements other than `here`, in content order.
pub open spec fn elsewhere(settlements: Seq<Settlement>, here: Text) -> Seq<Settlement> {
    settlements.filter(|s: Settlement| s.id@ != here)
}

/// What is elsewhere is a settlement, and not here.
pub proof fn lemma_elsewhere(settlements: Seq<Settlement>, here: Text, x: Settlement)
    requires
        elsewhere(settlements, here).contains(x),
    ensures
        settlements.contains(x),
        x.id@ != here,
    decreases settlements.len(),
{
    reveal(Seq::filter);
    if settlements.len() > 0 {
        let d = settlements.drop_last();
        if elsewhere(d, here).contains(x) {
            lemma_elsewhere(d, here, x);
            assert(settlements[d.index_of(x)] == x);
        } else {
            let i = elsewhere(settlements, here).index_of(x);
            if i < elsewhere(d, here).len() {
                assert(elsewhere(d, here)[i] == x);
            }
            assert(settlements[settlements.len() - 1] == x);
        }
    }
}

/// A tale after the telling: the turn of the die says what is got wrong, the
/// place, the actor or nothing, and `pick` which place it becomes.
pub open spec fn retold(
    attrs: FactModel,
    settlements: Seq<Settlement>,
    turn: int,
    pick: int,
) -> FactModel {
    if turn == 0 {
        let others = elsewhere(settlements, attrs.location);
        if others.len() > 0 {
            FactModel { location: others[pick].id@, ..attrs }
        } else {
            attrs
        }
    } else if turn == 1 {
        FactModel { actor: "one of Pulver's drivers"@, ..attrs }
    } else {
        attrs
    }
}

/// A tale after the telling, rolled from the stream: a three-way turn, and a
/// place where the place is got wrong and there is another.
pub open spec fn gossiped(
    rng: DiceModel,
    attrs: FactModel,
    settlements: Seq<Settlement>,
) -> (FactModel, DiceModel) {
    let turn = draw_small(rng, 0, 2);
    let others = elsewhere(settlements, attrs.location);
    if turn.0 == 0 && others.len() > 0 {
        let pick = draw_index(turn.1, others.len());
        (retold(attrs, settlements, 0, pick.0 as int), pick.1)
    } else {
        (retold(attrs, settlements, turn.0 as int, 0), turn.1)
    }
}

fn places_elsewhere(settlements: &Vec<Settlement>, here: &str) -> (r: Vec<usize>)
    ensures
        r@.len() == elsewhere(settlements@, here@).len(),
        forall|i: int|
            0 <= i < r@.len() ==> (#[trigger] r@[i]) < settlements@.len() && settlements@[r@[i] as int]
                == elsewhere(settlements@, here@)[i],
{
    let ghost all = settlements@;
    let ghost f = |s: Settlement| s.id@ != here@;
    let mut out: Vec<usize> = Vec::new();
    let mut i: usize = 0;
    assert(all.take(0).filter(f) =~= Seq::empty()) by {
        reveal(Seq::filter);
    }
    while i < settlements.len()
        invariant
            all == settlements@,
            f == (|s: Settlement| s.id@ != here@),
            i <= all.len(),
            out@.len() == all.take(i as int).filter(f).len(),
            forall|j: int|
                0 <= j < out@.len() ==> (#[trigger] out@[j]) < all.len() && all[out@[j] as int]
                    == all.take(i as int).filter(f)[j],
        decreases all.len() - i,
    {
        proof {
            reveal(Seq::filter);
            assert(all.take(i + 1).drop_last() =~= all.take(i as int));
        }
        if !same_text(settlements[i].id.as_str(), here) {
            out.push(i);
        }
        i += 1;
    }
    assert(all.take(i as int) =~= all);
    out
}

/// A tale after the telling, given what was rolled.
pub fn retell(attrs: &FactAttrs, settlements: &Vec<Settlement>, turn: u32, pick: u64) -> (r:
    FactAttrs)
    requires
        turn == 0 && elsewhere(settlements@, attrs@.location).len() > 0 ==> pick < elsewhere(
            settlements@,
            attrs@.location,
        ).len(),
    ensures
        r@ == retold(attrs@, settlements@, turn as int, pick as int),
{
    let mut out = attrs.clone();
    if turn == 0 {
        let others = places_elsewhere(settlements, attrs.location.as_str());
        if others.len() > 0 {
            out.location = settlements[others[pick as usize]].id.clone();
        }
    } else if turn == 1 {
        out.actor = "one of Pulver's drivers".to_string();
    }
    out
}

/// Whether `place` is where it happened or one of the settlements.
pub open spec fn told_place(settlements: Seq<Settlement>, here: Text, place: Text) -> bool {
    place == here || is_settlement(settlements, place)
}

/// Wherever a tale puts a deed, it is where it happened or a settlement.
proof fn lemma_retold_place(
    attrs: FactModel,
    settlements: Seq<Settlement>,
    turn: int,
    pick: int,
)
    requires
        turn == 0 && elsewhere(settlements, attrs.location).len() > 0 ==> 0 <= pick < elsewhere(
            settlements,
            attrs.location,
        ).len(),
    ensures
        told_place(
            settlements,
            attrs.location,
            retold(attrs, settlements, turn, pick).location,
        ),
{
    let others = elsewhere(settlements, attrs.location);
    if turn == 0 && others.len() > 0 {
        assert(others.contains(others[pick]));
        lemma_elsewhere(settlements, attrs.location, others[pick]);
        let j = settlements.index_of(others[pick]);
        assert(settlements[j].id@ == others[pick].id@);
    }
}

/// Rolls a tale's telling.
pub fn tell(w: &mut WorldState, attrs: &FactAttrs, settlements: &Vec<Settlement>) -> (r: FactAttrs)
    ensures
        r@ == gossiped(old(w)@.rng, attrs@, settlements@).0,
        final(w)@ == (WorldModel {
            rng: gossiped(old(w)@.rng, attrs@, settlements@).1,
            ..old(w)@
        }),
        told_place(settlements@, attrs@.location, r@.location),
        drawn_u32(
            old(w)@.rng.seed,
            old(w)@.rng.stream,
            old(w)@.rng.word_pos,
            0,
            2,
        ).0 == 0 && elsewhere(settlements@, attrs@.location).len() > 0 ==> r@.location
            != attrs@.location,
{
    let turn: u32 = w.rng.between_small(0, 2);
    let others = places_elsewhere(settlements, attrs.location.as_str());
    if turn == 0 && others.len() > 0 {
        let pick: u64 = w.rng.index(others.len());
        proof {
            lemma_retold_place(attrs@, settlements@, 0, pick as int);
            let away = elsewhere(settlements@, attrs@.location);
            assert(away.contains(away[pick as int]));
            lemma_elsewhere(settlements@, attrs@.location, away[pick as int]);
        }
        retell(attrs, settlements, 0, pick)
    } else {
        proof {
            lemma_retold_place(attrs@, settlements@, turn as int, 0);
        }
        retell(attrs, settlements, turn, 0)
    }
}

// -------------------------------------------------------------------- recording

/// "run<n>-<flag>"
pub open spec fn fact_name(w: WorldModel, flag: Text) -> Text {
    let n = if w.runs_completed > 0 {
        w.runs_completed - 1
    } else {
        0
    };
    "run"@ + dec(n) + "-"@ + flag
}

/// What Cobb did, and where the run went.
pub open spec fn canonical(w: WorldModel, flag: Text) -> FactModel {
    FactModel { actor: "cobb"@, action: flag, location: w.contract.dest_id }
}

/// The memory of the one who saw it.
pub open spec fn observation(w: WorldModel, flag: Text, witness: Text, importance: int) -> MemoryModel {
    MemoryModel {
        id: 0,
        npc: witness,
        kind: "observation"@,
        text: remembered(flag, canonical(w, flag), false),
        fact_id: Some(fact_name(w, flag)),
        asserts: Some(canonical(w, flag)),
        importance,
        tick: w.tick,
    }
}

/// The memory of the one who was told.
pub open spec fn hearsay(
    w: WorldModel,
    flag: Text,
    to: Text,
    tale: FactModel,
    importance: int,
) -> MemoryModel {
    MemoryModel {
        id: 0,
        npc: to,
        kind: "gossip"@,
        text: remembered(flag, tale, true),
        fact_id: Some(fact_name(w, flag)),
        asserts: Some(tale),
        importance: if importance - 2 < 1 {
            1
        } else {
            importance - 2
        },
        tick: w.tick,
    }
}

/// The world with a fact on the record.
pub open spec fn with_fact(w: WorldModel, flag: Text) -> WorldModel {
    WorldModel {
        facts: w.facts.push(
            FactRecModel { fact_id: fact_name(w, flag), tick: w.tick, attrs: canonical(w, flag) },
        ),
        ..w
    }
}

/// The world with one flag of a run recorded: the fact, the observation and
/// the gossip. A flag that nobody witnesses leaves no trace.
pub open spec fn flag_recorded(
    w: WorldModel,
    flag: Text,
    settlements: Seq<Settlement>,
) -> WorldModel {
    match witness_of(flag) {
        None => w,
        Some(seen) => {
            let w1 = with_memory(with_fact(w, flag), observation(w, flag, seen.0, seen.1));
            match seen.2 {
                None => w1,
                Some(to) => {
                    let tale = gossiped(w1.rng, canonical(w, flag), settlements);
                    with_memory(
                        WorldModel { rng: tale.1, ..w1 },
                        hearsay(w, flag, to, tale.0, seen.1),
                    )
                },
            }
        },
    }
}

/// The world with the flags of a run recorded in turn.
pub open spec fn flags_recorded(
    w: WorldModel,
    flags: Seq<Text>,
    settlements: Seq<Settlement>,
) -> WorldModel
    decreases flags.len(),
{
    if flags.len() == 0 {
        w
    } else {
        flag_recorded(
            flags_recorded(w, flags.drop_last(), settlements),
            flags.last(),
            settlements,
        )
    }
}

/// What Arthur remembers of a delivery that no docket exists for.
pub open spec fn arthurs_note(w: WorldModel) -> MemoryModel {
    MemoryModel {
        id: 0,
        npc: "arthur"@,
        kind: "observation"@,
        text: "Cobb ran "@ + w.contract.cargo + " to "@ + w.contract.dest_name
            + " and the docket never existed."@,
        fact_id: None,
        asserts: Some(
            FactModel { actor: "cobb"@, action: "ran_cargo"@, location: w.contract.dest_id },
        ),
        importance: 3,
        tick: w.tick,
    }
}

/// The world with a run recorded.
pub open spec fn run_recorded(
    w: WorldModel,
    flags: Seq<Text>,
    settlements: Seq<Settlement>,
) -> WorldModel {
    let w1 = if w.contract.illicit {
        with_memory(w, arthurs_note(w))
    } else {
        w
    };
    flags_recorded(w1, flags, settlements)
}

/// Whether each of the memories `after` was among those `before`, or puts what
/// it is about at `here` or at a settlement.
pub open spec fn added_in_place(
    before: Seq<MemoryModel>,
    after: Seq<MemoryModel>,
    settlements: Seq<Settlement>,
    here: Text,
) -> bool {
    forall|i: int|
        0 <= i < after.len() ==> before.contains(#[trigger] after[i]) || memory_in_place(
            after[i],
            settlements,
            here,
        )
}

/// Whether a memory puts what it is about at `here` or at a settlement.
pub open spec fn memory_in_place(m: MemoryModel, settlements: Seq<Settlement>, here: Text) -> bool {
    m.asserts matches Some(a) && told_place(settlements, here, a.location)
}

/// Remembering adds the one memory, if any.
proof fn lemma_with_memory_in_place(
    before: Seq<MemoryModel>,
    w: WorldModel,
    entry: MemoryModel,
    settlements: Seq<Settlement>,
    here: Text,
)
    requires
        added_in_place(before, w.memories, settlements, here),
        memory_in_place(entry, settlements, here),
    ensures
        added_in_place(before, with_memory(w, entry).memories, settlements, here),
{
    let e = MemoryModel { id: w.next_memory_id, ..entry };
    let all = w.memories.push(e);
    let out = with_memory(w, entry).memories;
    lemma_forgettable_found(all, entry.npc, all.len() as int);
    assert forall|i: int| 0 <= i < out.len() implies before.contains(#[trigger] out[i])
        || memory_in_place(out[i], settlements, here) by {
        let q = if out.len() == all.len() || i < forgettable(
            all,
            entry.npc,
            all.len() as int,
        )->0 {
            i
        } else {
            i + 1
        };
        assert(out[i] == all[q]);
        if q < w.memories.len() {
            assert(all[q] == w.memories[q]);
        }
    }
}

/// Recording changes neither the run in hand nor the clock, and uses at most
/// two memory ids for each flag.
proof fn lemma_recorded_frame(w: WorldModel, flags: Seq<Text>, settlements: Seq<Settlement>)
    ensures
        ({
            let r = flags_recorded(w, flags, settlements);
            &&& r.contract == w.contract
            &&& r.tick == w.tick
            &&& r.runs_completed == w.runs_completed
            &&& w.next_memory_id <= r.next_memory_id <= w.next_memory_id + 2 * flags.len()
        }),
    decreases flags.len(),
{
    if flags.len() > 0 {
        lemma_recorded_frame(w, flags.drop_last(), settlements);
    }
}

fn record_flag(w: &mut WorldState, flag: &str, settlements: &Vec<Settlement>)
    requires
        old(w).next_memory_id <= u64::MAX - 2,
    ensures
        final(w)@ == flag_recorded(old(w)@, flag@, settlements@),
        forall|before: Seq<MemoryModel>| #[trigger]
            added_in_place(before, old(w)@.memories, settlements@, old(w)@.contract.dest_id)
                ==> added_in_place(
                before,
                final(w)@.memories,
                settlements@,
                old(w)@.contract.dest_id,
            ),
{
    match flag_witness(flag) {
        None => {},
        Some((witness, importance, gossip_to)) => {
            let n: u32 = if w.runs_completed > 0 {
                w.runs_completed - 1
            } else {
                0
            };
            let fact_id = "run".to_string().concat(decimal_u64(n as u64).as_str()).concat(
                "-",
            ).concat(flag);
            let attrs = FactAttrs {
                actor: "cobb".to_string(),
                action: flag.to_string(),
                location: w.run.contract.dest_id.clone(),
            };
            let rec = FactRec { fact_id: fact_id.clone(), tick: w.tick, attrs: attrs.clone() };
            proof {
                lemma_views_push(w.facts@, rec);
            }
            w.facts.push(rec);
            assert(w@ =~= with_fact(old(w)@, flag@));
            let seen = MemoryEntry {
                id: 0,
                npc: witness.to_string(),
                kind: "observation".to_string(),
                text: memory_text(flag, &attrs, false),
                fact_id: Some(fact_id.clone()),
                asserts: Some(attrs.clone()),
                importance,
                tick: w.tick,
            };
            let ghost here = w@.contract.dest_id;
            proof {
                assert forall|before: Seq<MemoryModel>| #[trigger]
                    added_in_place(before, w@.memories, settlements@, here) implies added_in_place(
                    before,
                    with_memory(w@, seen@).memories,
                    settlements@,
                    here,
                ) by {
                    lemma_with_memory_in_place(before, w@, seen@, settlements@, here);
                }
            }
            add_memory(w, seen);
            match gossip_to {
                None => {},
                Some(to) => {
                    let tale = tell(w, &attrs, settlements);
                    let text = memory_text(flag, &tale, true);
                    let heard = MemoryEntry {
                        id: 0,
                        npc: to.to_string(),
                        kind: "gossip".to_string(),
                        text,
                        fact_id: Some(fact_id),
                        asserts: Some(tale),
                        importance: if importance - 2 < 1 {
                            1
                        } else {
                            importance - 2
                        },
                        tick: w.tick,
                    };
                    proof {
                        assert forall|before: Seq<MemoryModel>| #[trigger]
                            added_in_place(
                            before,
                            w@.memories,
                            settlements@,
                            here,
                        ) implies added_in_place(
                            before,
                            with_memory(w@, heard@).memories,
                            settlements@,
                            here,
                        ) by {
                            lemma_with_memory_in_place(before, w@, heard@, settlements@, here);
                        }
                    }
                    add_memory(w, heard);
                },
            }
        },
    }
}

/// Called at Ledger Close with the run's flags: writes canonical facts,
/// first-hand observations, and (deterministically distorted) gossip.
pub fn record_run_memories(w: &mut WorldState, run_flags: &FlagSet, content: &ContentDb)
    requires
        old(w).next_memory_id + 2 * run_flags@.len() + 1 <= u64::MAX,
    ensures
        final(w)@ == run_recorded(old(w)@, run_flags@, content.settlements@),
        added_in_place(
            old(w)@.memories,
            final(w)@.memories,
            content.settlements@,
            old(w)@.contract.dest_id,
        ),
{
    let ghost before = w@.memories;
    let ghost here = w@.contract.dest_id;
    assert(added_in_place(before, w@.memories, content.settlements@, here));
    if w.run.contract.illicit {
        let attrs = FactAttrs {
            actor: "cobb".to_string(),
            action: "ran_cargo".to_string(),
            location: w.run.contract.dest_id.clone(),
        };
        let text = "Cobb ran ".to_string().concat(w.run.contract.cargo.as_str()).concat(
            " to ",
        ).concat(w.run.contract.dest_name.as_str()).concat(" and the docket never existed.");
        let entry = MemoryEntry {
            id: 0,
            npc: "arthur".to_string(),
            kind: "observation".to_string(),
            text,
            fact_id: None,
            asserts: Some(attrs),
            importance: 3,
            tick: w.tick,
        };
        proof {
            lemma_with_memory_in_place(before, w@, entry@, content.settlements@, here);
        }
        add_memory(w, entry);
    }
    let ghost start = w@;
    let ghost all = run_flags@;
    let mut i: usize = 0;
    assert(flags_recorded(start, all.take(0), content.settlements@) == start);
    while i < run_flags.len()
        invariant
            all == run_flags@,
            i <= all.len(),
            start.next_memory_id + 2 * all.len() <= u64::MAX,
            w@ == flags_recorded(start, all.take(i as int), content.settlements@),
            start.contract.dest_id == here,
            added_in_place(before, w@.memories, content.settlements@, here),
        decreases all.len() - i,
    {
        proof {
            lemma_recorded_frame(start, all.take(i as int), content.settlements@);
            assert(all.take(i + 1).drop_last() =~= all.take(i as int));
        }
        record_flag(w, run_flags.get(i).as_str(), &content.settlements);
        i += 1;
    }
    assert(all.take(i as int) =~= all);
}

} // verus!
