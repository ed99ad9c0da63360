//! What becomes of deeds: what is put on the record, who remembers what of it
//! and how it is told on, which of it is tried, and what a hearing comes to.

use vstd::prelude::*;

use crate::content::{Npc, Settlement};
use crate::dice::{drawn_u32, drawn_u64, DiceModel};
use crate::flags::{
    ascending, inserted, inserted_all, lemma_inserted_all, lemma_inserted_ascending,
    lemma_inserted_contains,
};
use crate::hearing::{established, hearing_view, record_line, record_lines, witness_names};
use crate::inquiry::{
    called, case_gravity, convened, gravest, gravity, holders, name_of, taken_up, ClaimModel,
    InqStageModel, InquiryModel,
};
use crate::memory::{
    arthurs_note, charge_for, count_of, deed_of, elsewhere, flag_recorded, flags_recorded,
    forgettable, gossiped, lemma_elsewhere, remembered, run_recorded, with_memory, witness_of,
    FactModel, FactRecModel, MemoryModel,
};
use crate::mission::money;
use crate::panel::{
    challenged, claim_from, inquiry_turn, questioned, sentenced, testimony, verdict_lines,
};
use crate::text::{dec, joined, lemma_text_lt_irreflexive, lemma_text_lt_transitive, text_lt, Text};
use crate::world::{names_ascending, standing, WorldModel};
use crate::world_laws::law_shifts_touch_one_standing;

verus! {

// -------------------------------------------------------------------- memories

/// The memories of one person.
pub open spec fn held_by(mems: Seq<MemoryModel>, npc: Text) -> Seq<MemoryModel> {
    mems.filter(|x: MemoryModel| x.npc == npc)
}

/// Whether memory `k` is the one that `npc` can best do without: none of theirs
/// matters less, none that matters as little is older, and none that is as old
/// stands in front.
pub open spec fn least_missed(mems: Seq<MemoryModel>, npc: Text, k: int) -> bool {
    &&& 0 <= k < mems.len()
    &&& mems[k].npc == npc
    &&& forall|i: int|
        0 <= i < mems.len() && (#[trigger] mems[i]).npc == npc ==> {
            ||| mems[k].importance < mems[i].importance
            ||| mems[k].importance == mems[i].importance && mems[k].tick < mems[i].tick
            ||| mems[k].importance == mems[i].importance && mems[k].tick == mems[i].tick && k <= i
        }
}

proof fn lemma_count_is_held(mems: Seq<MemoryModel>, npc: Text, n: int)
    requires
        0 <= n <= mems.len(),
    ensures
        count_of(mems, npc, n) == held_by(mems.take(n), npc).len(),
    decreases n,
{
    reveal(Seq::filter);
    if n > 0 {
        lemma_count_is_held(mems, npc, n - 1);
        assert(mems.take(n).drop_last() =~= mems.take(n - 1));
        assert(mems.take(n).last() == mems[n - 1]);
    }
}

proof fn lemma_forgettable_is_least_missed(mems: Seq<MemoryModel>, npc: Text, n: int)
    requires
        0 <= n <= mems.len(),
    ensures
        forgettable(mems, npc, n) matches Some(k) ==> 0 <= k < n && least_missed(
            mems.take(n),
            npc,
            k,
        ),
        forgettable(mems, npc, n) is None ==> forall|i: int|
            0 <= i < n ==> (#[trigger] mems[i]).npc != npc,
    decreases n,
{
    if n > 0 {
        lemma_forgettable_is_least_missed(mems, npc, n - 1);
        let t = mems.take(n);
        let d = mems.take(n - 1);
        assert(forall|i: int| 0 <= i < n ==> #[trigger] t[i] == mems[i]);
        assert(forall|i: int| 0 <= i < n - 1 ==> #[trigger] d[i] == mems[i]);
        if let Some(k) = forgettable(mems, npc, n) {
            assert forall|i: int| 0 <= i < t.len() && (#[trigger] t[i]).npc == npc implies {
                ||| t[k].importance < t[i].importance
                ||| t[k].importance == t[i].importance && t[k].tick < t[i].tick
                ||| t[k].importance == t[i].importance && t[k].tick == t[i].tick && k <= i
            } by {
                if i < n - 1 {
                    assert(d[i] == t[i]);
                    let q = forgettable(mems, npc, n - 1)->0;
                    assert(d[q] == t[q]);
                }
            }
        }
    }
}

/// A person remembers what comes last and forgets what can best be missed: the
/// new memory stands last under the next id; where it makes more than thirty,
/// one is dropped, and else none.
pub proof fn law_people_remember_thirty_things(w: WorldModel, entry: MemoryModel)
    ensures
        ({
            let r = with_memory(w, entry);
            let all = w.memories.push(MemoryModel { id: w.next_memory_id, ..entry });
            &&& r == (WorldModel {
                memories: r.memories,
                next_memory_id: w.next_memory_id + 1,
                ..w
            })
            &&& (held_by(all, entry.npc).len() <= 30 ==> r.memories == all)
            &&& (held_by(all, entry.npc).len() > 30 ==> exists|k: int|
                #[trigger] least_missed(all, entry.npc, k) && r.memories == all.remove(k))
        }),
{
    let all = w.memories.push(MemoryModel { id: w.next_memory_id, ..entry });
    let n = all.len() as int;
    lemma_count_is_held(all, entry.npc, n);
    lemma_forgettable_is_least_missed(all, entry.npc, n);
    assert(all.take(n) =~= all);
    assert(all[n - 1].npc == entry.npc);
}

// ---------------------------------------------------------------------- gossip

/// What is elsewhere is every settlement but this one.
pub proof fn law_elsewhere_is_not_here(settlements: Seq<Settlement>, here: Text, x: Settlement)
    ensures
        elsewhere(settlements, here).contains(x) <==> settlements.contains(x) && x.id@ != here,
    decreases settlements.len(),
{
    reveal(Seq::filter);
    if elsewhere(settlements, here).contains(x) {
        lemma_elsewhere(settlements, here, x);
    }
    if settlements.len() > 0 && settlements.contains(x) && x.id@ != here {
        let d = settlements.drop_last();
        law_elsewhere_is_not_here(d, here, x);
        let out = elsewhere(settlements, here);
        let inner = elsewhere(d, here);
        let k = settlements.index_of(x);
        if k < d.len() {
            assert(d[k] == x);
            assert(out[inner.index_of(x)] == x);
        } else {
            assert(out[inner.len() as int] == x);
        }
    }
}

/// Whether `tale` is what a telling makes of `attrs`, with `after` the position
/// of the stream behind it. A three-way draw decides: on the first the deed is
/// moved to another settlement, drawn in turn, where there is one; on the second
/// it is put on one of Pulver's drivers; on the third it is told as it was.
pub open spec fn told_as(
    rng: DiceModel,
    attrs: FactModel,
    settlements: Seq<Settlement>,
    tale: FactModel,
    after: DiceModel,
) -> bool {
    let turn = drawn_u32(rng.seed, rng.stream, rng.word_pos, 0, 2);
    let others = elsewhere(settlements, attrs.location);
    let moved = turn.0 == 0 && others.len() > 0;
    &&& tale.action == attrs.action
    &&& (turn.0 == 1 ==> tale.actor == "one of Pulver's drivers"@)
    &&& (turn.0 != 1 ==> tale.actor == attrs.actor)
    &&& (!moved ==> tale.location == attrs.location && after == (DiceModel {
        word_pos: turn.1,
        ..rng
    }))
    &&& (moved && usize::BITS == 64 ==> {
        let pick = drawn_u64(rng.seed, rng.stream, turn.1, 0, (others.len() - 1) as u64);
        &&& tale.location == others[pick.0 as int].id@
        &&& after == (DiceModel { word_pos: pick.1, ..rng })
    })
    &&& (moved && usize::BITS != 64 ==> {
        let pick = drawn_u32(rng.seed, rng.stream, turn.1, 0, (others.len() - 1) as u32);
        &&& tale.location == others[pick.0 as int].id@
        &&& after == (DiceModel { word_pos: pick.1, ..rng })
    })
}

/// A telling distorts as the draw has it.
pub proof fn law_the_draw_distorts_the_tale(
    rng: DiceModel,
    attrs: FactModel,
    settlements: Seq<Settlement>,
)
    ensures
        told_as(
            rng,
            attrs,
            settlements,
            gossiped(rng, attrs, settlements).0,
            gossiped(rng, attrs, settlements).1,
        ),
{
}

/// What Cobb did, as the record has it.
pub open spec fn on_record(w: WorldModel, flag: Text) -> FactModel {
    FactModel { actor: "cobb"@, action: flag, location: w.contract.dest_id }
}

/// The number of the run that is being closed.
pub open spec fn run_number(w: WorldModel) -> int {
    if w.runs_completed >= 1 {
        w.runs_completed - 1
    } else {
        0
    }
}

/// The entry that a deed makes on the record.
pub open spec fn entry_for(w: WorldModel, flag: Text) -> FactRecModel {
    FactRecModel {
        fact_id: "run"@ + dec(run_number(w)) + "-"@ + flag,
        tick: w.tick,
        attrs: on_record(w, flag),
    }
}

/// A deed that somebody sees goes on the record as it was. The one who saw it
/// remembers it as it was. Where it is told on, the one who is told remembers
/// the tale as it was told: that is what they assert, the same that their words
/// say, and it matters two less to them, though at least one.
pub proof fn law_deeds_are_recorded(w: WorldModel, flag: Text, settlements: Seq<Settlement>)
    ensures
        witness_of(flag) is None ==> flag_recorded(w, flag, settlements) == w,
        witness_of(flag) matches Some(seen) ==> {
            let fact = entry_for(w, flag);
            let seen_as = MemoryModel {
                id: 0,
                npc: seen.0,
                kind: "observation"@,
                text: remembered(flag, fact.attrs, false),
                fact_id: Some(fact.fact_id),
                asserts: Some(fact.attrs),
                importance: seen.1,
                tick: w.tick,
            };
            let w1 = with_memory(WorldModel { facts: w.facts.push(fact), ..w }, seen_as);
            &&& (seen.2 is None ==> flag_recorded(w, flag, settlements) == w1)
            &&& (seen.2 is Some ==> {
                let told = gossiped(w.rng, fact.attrs, settlements);
                let heard_as = MemoryModel {
                    id: 0,
                    npc: seen.2->0,
                    kind: "gossip"@,
                    text: remembered(flag, told.0, true),
                    fact_id: Some(fact.fact_id),
                    asserts: Some(told.0),
                    importance: if seen.1 >= 3 {
                        seen.1 - 2
                    } else {
                        1
                    },
                    tick: w.tick,
                };
                flag_recorded(w, flag, settlements) == with_memory(
                    WorldModel { rng: told.1, ..w1 },
                    heard_as,
                )
            })
        },
{
}

/// What is asserted in gossip is what was told: where nobody is near the limit
/// of what they remember, the memory that a telling leaves stands last, asserts
/// the tale that the draw made, and says it in the same words; and a claim made
/// from it contradicts the record exactly where the tale differs from it.
pub proof fn law_gossip_asserts_the_tale(
    w: WorldModel,
    flag: Text,
    settlements: Seq<Settlement>,
    name: Text,
)
    requires
        witness_of(flag) matches Some(seen) && seen.2 is Some,
        forall|npc: Text| (#[trigger] held_by(w.memories, npc)).len() < 29,
    ensures
        ({
            let r = flag_recorded(w, flag, settlements);
            let seen = r.memories[r.memories.len() - 2];
            let heard = r.memories.last();
            let fact = r.facts.last();
            let tale = heard.asserts->0;
            &&& r.memories.len() == w.memories.len() + 2
            &&& r.memories.take(w.memories.len() as int) == w.memories
            &&& seen.npc == (witness_of(flag)->0).0
            &&& seen.kind == "observation"@
            &&& seen.fact_id == Some(fact.fact_id)
            &&& seen.asserts == Some(fact.attrs)
            &&& heard.npc == (witness_of(flag)->0).2->0
            &&& heard.kind == "gossip"@
            &&& heard.fact_id == Some(fact.fact_id)
            &&& heard.asserts is Some
            &&& told_as(w.rng, fact.attrs, settlements, tale, r.rng)
            &&& heard.text == remembered(flag, tale, true)
            &&& (claim_from(heard, heard.npc, name, fact.attrs).asserts != fact.attrs <==> tale
                != fact.attrs)
        }),
{
    let seen = witness_of(flag)->0;
    let fact = entry_for(w, flag);
    law_deeds_are_recorded(w, flag, settlements);
    law_the_draw_distorts_the_tale(w.rng, fact.attrs, settlements);
    let told = gossiped(w.rng, fact.attrs, settlements);
    let o = MemoryModel {
        id: 0,
        npc: seen.0,
        kind: "observation"@,
        text: remembered(flag, fact.attrs, false),
        fact_id: Some(fact.fact_id),
        asserts: Some(fact.attrs),
        importance: seen.1,
        tick: w.tick,
    };
    let h = MemoryModel {
        id: 0,
        npc: seen.2->0,
        kind: "gossip"@,
        text: remembered(flag, told.0, true),
        fact_id: Some(fact.fact_id),
        asserts: Some(told.0),
        importance: if seen.1 >= 3 {
            seen.1 - 2
        } else {
            1
        },
        tick: w.tick,
    };
    let w0 = WorldModel { facts: w.facts.push(fact), ..w };
    law_people_remember_thirty_things(w0, o);
    let first = MemoryModel { id: w.next_memory_id, ..o };
    lemma_held_push(w.memories, first, o.npc);
    assert(held_by(w.memories, o.npc).len() < 29);
    let w1 = with_memory(w0, o);
    assert(w1.memories == w.memories.push(first));
    let w2 = WorldModel { rng: told.1, ..w1 };
    law_people_remember_thirty_things(w2, h);
    let second = MemoryModel { id: w1.next_memory_id, ..h };
    lemma_held_push(w1.memories, second, h.npc);
    lemma_held_push(w.memories, first, h.npc);
    assert(held_by(w.memories, h.npc).len() < 29);
    let r = flag_recorded(w, flag, settlements);
    assert(r.memories == w.memories.push(first).push(second));
    assert(r.memories.take(w.memories.len() as int) =~= w.memories);
}

proof fn lemma_held_push(mems: Seq<MemoryModel>, x: MemoryModel, npc: Text)
    ensures
        held_by(mems.push(x), npc).len() <= held_by(mems, npc).len() + 1,
{
    reveal(Seq::filter);
    assert(mems.push(x).drop_last() =~= mems);
}

/// A tale that puts the deed on somebody else, or moves it, contradicts the
/// record: challenging the one who had it from hearsay establishes as much.
pub proof fn law_distorted_gossip_is_caught(
    w: WorldModel,
    flag: Text,
    settlements: Seq<Settlement>,
    inq: InquiryModel,
    ci: int,
)
    requires
        0 <= ci < inq.claims.len(),
        inq.case.attrs == on_record(w, flag),
        inq.claims[ci].asserts == gossiped(w.rng, on_record(w, flag), settlements).0,
    ensures
        ({
            let turn = drawn_u32(w.rng.seed, w.rng.stream, w.rng.word_pos, 0, 2).0;
            let after = challenged(inq, ci);
            &&& (turn == 1 ==> after.claims[ci].challenged == Some(true) && after.credibility
                == inq.credibility + 1)
            &&& (turn > 1 ==> after.claims[ci].challenged == Some(false) && after.credibility
                == inq.credibility - 1)
        }),
{
    reveal_strlit("cobb");
    reveal_strlit("one of Pulver's drivers");
    assert("cobb"@.len() == 4);
    assert("one of Pulver's drivers"@.len() == 23);
    law_the_draw_distorts_the_tale(w.rng, on_record(w, flag), settlements);
}

/// Words follow what is asserted: who did it, what was done, and where.
pub proof fn law_words_follow_what_is_asserted(flag: Text, attrs: FactModel)
    ensures
        attrs.actor == "cobb"@ ==> remembered(flag, attrs, true) == "They say "@ + "Cobb"@ + " "@
            + deed_of(flag) + ", out by "@ + attrs.location + "."@,
        attrs.actor == "cobb"@ ==> remembered(flag, attrs, false) == "Cobb"@ + " "@ + deed_of(flag)
            + ", on the "@ + attrs.location + " road."@,
        attrs.actor != "cobb"@ ==> remembered(flag, attrs, true) == "They say "@ + attrs.actor
            + " "@ + deed_of(flag) + ", out by "@ + attrs.location + "."@,
        attrs.actor != "cobb"@ ==> remembered(flag, attrs, false) == attrs.actor + " "@ + deed_of(
            flag,
        ) + ", on the "@ + attrs.location + " road."@,
{
}

/// The record of a run is what was seen of it, deed by deed: every deed that
/// somebody sees has its entry, in order, and no other has.
pub proof fn law_the_record_is_what_was_seen(
    w: WorldModel,
    flags: Seq<Text>,
    settlements: Seq<Settlement>,
)
    ensures
        run_recorded(w, flags, settlements).facts == w.facts + flags.filter(
            |f: Text| witness_of(f) is Some,
        ).map_values(|f: Text| entry_for(w, f)),
{
    let w1 = if w.contract.illicit {
        with_memory(w, arthurs_note(w))
    } else {
        w
    };
    lemma_facts_of(w1, flags, settlements);
    let seen = flags.filter(|f: Text| witness_of(f) is Some);
    assert(seen.map_values(|f: Text| entry_for(w1, f)) =~= seen.map_values(
        |f: Text| entry_for(w, f),
    ));
}

proof fn lemma_facts_of(w: WorldModel, flags: Seq<Text>, settlements: Seq<Settlement>)
    ensures
        ({
            let r = flags_recorded(w, flags, settlements);
            &&& r.facts == w.facts + flags.filter(|f: Text| witness_of(f) is Some).map_values(
                |f: Text| entry_for(w, f),
            )
            &&& r.contract == w.contract
            &&& r.tick == w.tick
            &&& r.runs_completed == w.runs_completed
        }),
    decreases flags.len(),
{
    reveal(Seq::filter);
    let p = |f: Text| witness_of(f) is Some;
    let g = |f: Text| entry_for(w, f);
    if flags.len() > 0 {
        let d = flags.drop_last();
        lemma_facts_of(w, d, settlements);
        let mid = flags_recorded(w, d, settlements);
        let last = flags.last();
        law_deeds_are_recorded(mid, last, settlements);
        assert(entry_for(mid, last) == entry_for(w, last));
        let r = flags_recorded(w, flags, settlements);
        if witness_of(last) is Some {
            assert(r.facts == mid.facts.push(entry_for(w, last)));
            assert(d.filter(p).push(last).map_values(g) =~= d.filter(p).map_values(g).push(
                entry_for(w, last),
            ));
            assert(r.facts =~= w.facts + flags.filter(p).map_values(g));
        } else {
            assert(r.facts =~= w.facts + flags.filter(p).map_values(g));
        }
    } else {
        assert(flags.filter(p).map_values(g) =~= Seq::empty());
        assert(w.facts + flags.filter(p).map_values(g) =~= w.facts);
    }
}

/// Deeds are recorded one after another, and Arthur makes a note first of every
/// delivery that no docket exists for.
pub proof fn law_deeds_are_recorded_in_turn(
    w: WorldModel,
    flags: Seq<Text>,
    flag: Text,
    settlements: Seq<Settlement>,
)
    ensures
        run_recorded(w, flags.push(flag), settlements) == flag_recorded(
            run_recorded(w, flags, settlements),
            flag,
            settlements,
        ),
        !w.contract.illicit ==> run_recorded(w, Seq::empty(), settlements) == w,
        w.contract.illicit ==> run_recorded(w, Seq::empty(), settlements) == with_memory(
            w,
            (MemoryModel {
                id: 0,
                npc: "arthur"@,
                kind: "observation"@,
                text: "Cobb ran "@ + w.contract.cargo + " to "@ + w.contract.dest_name
                    + " and the docket never existed."@,
                fact_id: None,
                asserts: Some(
                    FactModel { actor: "cobb"@, action: "ran_cargo"@, location: w.contract.dest_id },
                ),
                importance: 3,
                tick: w.tick,
            }),
        ),
{
    assert(flags.push(flag).drop_last() =~= flags);
}

// ----------------------------------------------------------------------- deeds

/// The deeds that somebody sees are told apart by their names.
proof fn lemma_flags_differ()
    ensures
        "gate_smashed"@ != "bribed_checkpoint"@,
        "gate_smashed"@ != "helped_traveller"@,
        "gate_smashed"@ != "passed_traveller"@,
        "gate_smashed"@ != "paid_carver"@,
        "gate_smashed"@ != "refused_carver"@,
        "gate_smashed"@ != "took_salvage"@,
        "gate_smashed"@ != "ran_ambush"@,
        "gate_smashed"@ != "yielded_to_pulver"@,
        "gate_smashed"@ != "shaken_down"@,
        "gate_smashed"@ != "took_drove_lane"@,
        "gate_smashed"@ != "owes_form_4b"@,
        "bribed_checkpoint"@ != "helped_traveller"@,
        "bribed_checkpoint"@ != "passed_traveller"@,
        "bribed_checkpoint"@ != "paid_carver"@,
        "bribed_checkpoint"@ != "refused_carver"@,
        "bribed_checkpoint"@ != "took_salvage"@,
        "bribed_checkpoint"@ != "ran_ambush"@,
        "bribed_checkpoint"@ != "yielded_to_pulver"@,
        "bribed_checkpoint"@ != "shaken_down"@,
        "bribed_checkpoint"@ != "took_drove_lane"@,
        "bribed_checkpoint"@ != "owes_form_4b"@,
        "helped_traveller"@ != "passed_traveller"@,
        "helped_traveller"@ != "paid_carver"@,
        "helped_traveller"@ != "refused_carver"@,
        "helped_traveller"@ != "took_salvage"@,
        "helped_traveller"@ != "ran_ambush"@,
        "helped_traveller"@ != "yielded_to_pulver"@,
        "helped_traveller"@ != "shaken_down"@,
        "helped_traveller"@ != "took_drove_lane"@,
        "helped_traveller"@ != "owes_form_4b"@,
        "passed_traveller"@ != "paid_carver"@,
        "passed_traveller"@ != "refused_carver"@,
        "passed_traveller"@ != "took_salvage"@,
        "passed_traveller"@ != "ran_ambush"@,
        "passed_traveller"@ != "yielded_to_pulver"@,
        "passed_traveller"@ != "shaken_down"@,
        "passed_traveller"@ != "took_drove_lane"@,
        "passed_traveller"@ != "owes_form_4b"@,
        "paid_carver"@ != "refused_carver"@,
        "paid_carver"@ != "took_salvage"@,
        "paid_carver"@ != "ran_ambush"@,
        "paid_carver"@ != "yielded_to_pulver"@,
        "paid_carver"@ != "shaken_down"@,
        "paid_carver"@ != "took_drove_lane"@,
        "paid_carver"@ != "owes_form_4b"@,
        "refused_carver"@ != "took_salvage"@,
        "refused_carver"@ != "ran_ambush"@,
        "refused_carver"@ != "yielded_to_pulver"@,
        "refused_carver"@ != "shaken_down"@,
        "refused_carver"@ != "took_drove_lane"@,
        "refused_carver"@ != "owes_form_4b"@,
        "took_salvage"@ != "ran_ambush"@,
        "took_salvage"@ != "yielded_to_pulver"@,
        "took_salvage"@ != "shaken_down"@,
        "took_salvage"@ != "took_drove_lane"@,
        "took_salvage"@ != "owes_form_4b"@,
        "ran_ambush"@ != "yielded_to_pulver"@,
        "ran_ambush"@ != "shaken_down"@,
        "ran_ambush"@ != "took_drove_lane"@,
        "ran_ambush"@ != "owes_form_4b"@,
        "yielded_to_pulver"@ != "shaken_down"@,
        "yielded_to_pulver"@ != "took_drove_lane"@,
        "yielded_to_pulver"@ != "owes_form_4b"@,
        "shaken_down"@ != "took_drove_lane"@,
        "shaken_down"@ != "owes_form_4b"@,
        "took_drove_lane"@ != "owes_form_4b"@,
{
    reveal_strlit("gate_smashed");
    reveal_strlit("bribed_checkpoint");
    reveal_strlit("helped_traveller");
    reveal_strlit("passed_traveller");
    reveal_strlit("paid_carver");
    reveal_strlit("refused_carver");
    reveal_strlit("took_salvage");
    reveal_strlit("ran_ambush");
    reveal_strlit("yielded_to_pulver");
    reveal_strlit("shaken_down");
    reveal_strlit("took_drove_lane");
    reveal_strlit("owes_form_4b");
    assert("gate_smashed"@.len() == 12);
    assert("bribed_checkpoint"@.len() == 17);
    assert("helped_traveller"@.len() == 16);
    assert("passed_traveller"@.len() == 16);
    assert("paid_carver"@.len() == 11);
    assert("refused_carver"@.len() == 14);
    assert("took_salvage"@.len() == 12);
    assert("ran_ambush"@.len() == 10);
    assert("yielded_to_pulver"@.len() == 17);
    assert("shaken_down"@.len() == 11);
    assert("took_drove_lane"@.len() == 15);
    assert("owes_form_4b"@.len() == 12);
    assert("gate_smashed"@[0] != "took_salvage"@[0]);
    assert("gate_smashed"@[0] != "owes_form_4b"@[0]);
    assert("bribed_checkpoint"@[0] != "yielded_to_pulver"@[0]);
    assert("helped_traveller"@[0] != "passed_traveller"@[0]);
    assert("paid_carver"@[0] != "shaken_down"@[0]);
    assert("took_salvage"@[0] != "owes_form_4b"@[0]);
}

/// What was done, in words, deed by deed.
pub proof fn law_deeds_are_put_in_words(flag: Text)
    ensures
        flag == "gate_smashed"@ ==> deed_of(flag) == "took the barrier pole off its bracket at speed"@,
        flag == "bribed_checkpoint"@ ==> deed_of(flag) == "paid the 'paperwork fee' at the barrier"@,
        flag == "helped_traveller"@ ==> deed_of(flag) == "stopped for a stranded rider and got him running"@,
        flag == "passed_traveller"@ ==> deed_of(flag) == "drove past a man broken down on the verge"@,
        flag == "paid_carver"@ ==> deed_of(flag) == "paid the road maintenance toll without fuss"@,
        flag == "refused_carver"@ ==> deed_of(flag) == "refused the toll and cited the highways acts"@,
        flag == "took_salvage"@ ==> deed_of(flag) == "loaded tins from an overturned cart"@,
        flag == "ran_ambush"@ ==> deed_of(flag) == "drove straight through a staged breakdown"@,
        flag == "yielded_to_pulver"@ ==> deed_of(flag) == "gave way to Pulver's Leyland on the straight"@,
        flag == "shaken_down"@ ==> deed_of(flag) == "paid a 'toll' to men with clean coats"@,
        flag == "took_drove_lane"@ ==> deed_of(flag) == "took the drove lane to dodge the barrier"@,
        flag == "owes_form_4b"@ ==> deed_of(flag) == "was found carrying a 4C where a 4B was wanted"@,
        deed_of(flag) != "did something on the road"@ ==> witness_of(flag) is Some,
{
    lemma_flags_differ();
}

/// Who sees a deed, how much it matters to them, and whom they tell.
pub proof fn law_deeds_have_their_witnesses(flag: Text)
    ensures
        flag == "gate_smashed"@ ==> witness_of(flag) == Some(("hobbs"@, 8int, Some("tansy"@))),
        flag == "bribed_checkpoint"@ ==> witness_of(flag) == Some(("hobbs"@, 6int, Some("carver"@))),
        flag == "helped_traveller"@ ==> witness_of(flag) == Some(("wray"@, 6int, Some("tansy"@))),
        flag == "passed_traveller"@ ==> witness_of(flag) == Some(("wray"@, 4int, None::<Text>)),
        flag == "paid_carver"@ ==> witness_of(flag) == Some(("carver"@, 5int, None::<Text>)),
        flag == "refused_carver"@ ==> witness_of(flag) == Some(("carver"@, 6int, Some("tansy"@))),
        flag == "took_salvage"@ ==> witness_of(flag) == Some(("tansy"@, 5int, Some("finch"@))),
        flag == "ran_ambush"@ ==> witness_of(flag) == Some(("carver"@, 5int, None::<Text>)),
        flag == "yielded_to_pulver"@ ==> witness_of(flag) == Some(("tansy"@, 3int, None::<Text>)),
        flag == "shaken_down"@ ==> witness_of(flag) == Some(("tansy"@, 3int, None::<Text>)),
        flag == "took_drove_lane"@ ==> witness_of(flag) == Some(("finch"@, 3int, None::<Text>)),
        flag == "owes_form_4b"@ ==> witness_of(flag) == Some(("finch"@, 4int, Some("arthur"@))),
        witness_of(flag) is Some ==> {
            ||| flag == "gate_smashed"@
            ||| flag == "bribed_checkpoint"@
            ||| flag == "helped_traveller"@
            ||| flag == "passed_traveller"@
            ||| flag == "paid_carver"@
            ||| flag == "refused_carver"@
            ||| flag == "took_salvage"@
            ||| flag == "ran_ambush"@
            ||| flag == "yielded_to_pulver"@
            ||| flag == "shaken_down"@
            ||| flag == "took_drove_lane"@
            ||| flag == "owes_form_4b"@
        },
{
    lemma_flags_differ();
}

/// Which deeds can be charged, and as what.
pub proof fn law_deeds_have_their_charges(flag: Text)
    ensures
        flag == "gate_smashed"@ ==> charge_for(flag) == Some(
            "wilful destruction of Collective property, to wit one pole"@,
        ),
        flag == "bribed_checkpoint"@ ==> charge_for(flag) == Some(
            "corruption of a barrier officer in the execution of his kettle"@,
        ),
        flag == "took_salvage"@ ==> charge_for(flag) == Some(
            "appropriation of goods in transit, forty tins thereof"@,
        ),
        flag == "owes_form_4b"@ ==> charge_for(flag) == Some(
            "failure to apply for Form 4B within the prescribed Tuesday"@,
        ),
        charge_for(flag) is Some ==> witness_of(flag) is Some && {
            ||| flag == "gate_smashed"@
            ||| flag == "bribed_checkpoint"@
            ||| flag == "took_salvage"@
            ||| flag == "owes_form_4b"@
        },
{
    lemma_flags_differ();
}

// ------------------------------------------------------------------- convening

/// The gravity of a fact is the greatest importance that it has to anybody: one
/// of the memories about it has that importance, none has more, and where there
/// is no such memory there is no gravity.
pub proof fn law_gravity_is_the_greatest_importance(mems: Seq<MemoryModel>, id: Text, n: int)
    requires
        0 <= n <= mems.len(),
    ensures
        match gravity(mems, id, n) {
            Some(v) => {
                &&& exists|i: int|
                    0 <= i < n && (#[trigger] mems[i]).fact_id == Some(id) && mems[i].importance
                        == v
                &&& forall|i: int|
                    0 <= i < n && (#[trigger] mems[i]).fact_id == Some(id) ==> mems[i].importance
                        <= v
            },
            None => forall|i: int| 0 <= i < n ==> (#[trigger] mems[i]).fact_id != Some(id),
        },
    decreases n,
{
    if n > 0 {
        law_gravity_is_the_greatest_importance(mems, id, n - 1);
        if let Some(v) = gravity(mems, id, n) {
            if mems[n - 1].fact_id == Some(id) && mems[n - 1].importance == v {
                assert(mems[n - 1].fact_id == Some(id));
            }
        }
    }
}

/// Whether a fact could be tried: it can be charged and has not been tried.
pub open spec fn triable(w: WorldModel, f: FactRecModel) -> bool {
    &&& charge_for(f.attrs.action) is Some
    &&& forall|i: int|
        0 <= i < w.flags.len() ==> #[trigger] w.flags[i] != "tried_"@ + f.fact_id
}

proof fn lemma_case(w: WorldModel, f: FactRecModel)
    ensures
        case_gravity(w, f) is Some ==> triable(w, f) && case_gravity(w, f) == gravity(
            w.memories,
            f.fact_id,
            w.memories.len() as int,
        ),
        triable(w, f) ==> case_gravity(w, f) == gravity(
            w.memories,
            f.fact_id,
            w.memories.len() as int,
        ),
{
    let mark = "tried_"@ + f.fact_id;
    if w.flags.contains(mark) {
        assert(w.flags[w.flags.index_of(mark)] == mark);
    }
}

proof fn lemma_gravest_of(w: WorldModel, n: int)
    requires
        0 <= n <= w.facts.len(),
    ensures
        match gravest(w, n) {
            Some(k) => {
                &&& 0 <= k < n
                &&& case_gravity(w, w.facts[k]) is Some
                &&& forall|i: int|
                    0 <= i < n ==> (case_gravity(w, #[trigger] w.facts[i]) matches Some(v) ==> v
                        <= case_gravity(w, w.facts[k])->0 && (i < k ==> v < case_gravity(
                        w,
                        w.facts[k],
                    )->0))
            },
            None => forall|i: int| 0 <= i < n ==> case_gravity(w, #[trigger] w.facts[i]) is None,
        },
    decreases n,
{
    if n > 0 {
        lemma_gravest_of(w, n - 1);
    }
}

/// The fact that is taken up is the one that matters most to anybody: some
/// memory of it is at least as important as every memory of any other fact that
/// could be tried, and more so than those of one that stands in front of it on
/// the record.
pub proof fn law_the_fact_that_matters_most_is_tried(w: WorldModel)
    ensures
        taken_up(w) matches Some(f) ==> exists|k: int, j: int|
            {
                &&& 0 <= k < w.facts.len()
                &&& #[trigger] w.facts[k] == f
                &&& triable(w, f)
                &&& 0 <= j < w.memories.len()
                &&& (#[trigger] w.memories[j]).fact_id == Some(f.fact_id)
                &&& forall|i: int, q: int|
                    0 <= i < w.facts.len() && triable(w, #[trigger] w.facts[i]) && 0 <= q
                        < w.memories.len() && (#[trigger] w.memories[q]).fact_id == Some(
                        w.facts[i].fact_id,
                    ) ==> w.memories[q].importance <= w.memories[j].importance && (i < k
                        ==> w.memories[q].importance < w.memories[j].importance)
            },
{
    if let Some(f) = taken_up(w) {
        let n = w.memories.len() as int;
        lemma_gravest_of(w, w.facts.len() as int);
        let k = gravest(w, w.facts.len() as int)->0;
        lemma_case(w, f);
        law_gravity_is_the_greatest_importance(w.memories, f.fact_id, n);
        let v = gravity(w.memories, f.fact_id, n)->0;
        let j = choose|i: int|
            0 <= i < n && (#[trigger] w.memories[i]).fact_id == Some(f.fact_id)
                && w.memories[i].importance == v;
        assert forall|i: int, q: int|
            0 <= i < w.facts.len() && triable(w, #[trigger] w.facts[i]) && 0 <= q
                < w.memories.len() && (#[trigger] w.memories[q]).fact_id == Some(
                w.facts[i].fact_id,
            ) implies w.memories[q].importance <= w.memories[j].importance && (i < k
            ==> w.memories[q].importance < w.memories[j].importance) by {
            lemma_case(w, w.facts[i]);
            law_gravity_is_the_greatest_importance(w.memories, w.facts[i].fact_id, n);
            assert(case_gravity(w, w.facts[i]) is Some);
        }
        assert(w.facts[k] == f && w.memories[j].fact_id == Some(f.fact_id));
    }
}

/// A hearing is convened exactly where none sits, suspicion is six or more, and
/// some fact that could be tried is remembered by somebody.
pub proof fn law_when_a_hearing_is_convened(w: WorldModel)
    ensures
        taken_up(w) is Some <==> {
            &&& w.inquiry is None
            &&& w.guild_suspicion >= 6
            &&& exists|i: int, q: int|
                0 <= i < w.facts.len() && triable(w, #[trigger] w.facts[i]) && 0 <= q
                    < w.memories.len() && (#[trigger] w.memories[q]).fact_id == Some(
                    w.facts[i].fact_id,
                )
        },
{
    lemma_gravest_of(w, w.facts.len() as int);
    if taken_up(w) is Some {
        law_the_fact_that_matters_most_is_tried(w);
    }
    if exists|i: int, q: int|
        0 <= i < w.facts.len() && triable(w, #[trigger] w.facts[i]) && 0 <= q < w.memories.len()
            && (#[trigger] w.memories[q]).fact_id == Some(w.facts[i].fact_id) {
        let (i, q) = choose|i: int, q: int|
            0 <= i < w.facts.len() && triable(w, #[trigger] w.facts[i]) && 0 <= q
                < w.memories.len() && (#[trigger] w.memories[q]).fact_id == Some(
                w.facts[i].fact_id,
            );
        lemma_case(w, w.facts[i]);
        law_gravity_is_the_greatest_importance(
            w.memories,
            w.facts[i].fact_id,
            w.memories.len() as int,
        );
        assert(case_gravity(w, w.facts[i]) is Some);
    }
}

/// A hearing opens on the fact with its charge, with nothing said and nothing
/// put yet; the fact is marked as tried, and nothing else changes.
pub proof fn law_how_a_hearing_opens(w: WorldModel, f: FactRecModel, flag: Text)
    requires
        charge_for(f.attrs.action) is Some,
    ensures
        ({
            let r = convened(w, f);
            let inq = r.inquiry->0;
            &&& r == (WorldModel { flags: r.flags, inquiry: r.inquiry, ..w })
            &&& r.inquiry is Some
            &&& inq.case == f
            &&& inq.charge == charge_for(f.attrs.action)->0
            &&& inq.claims.len() == 0
            &&& inq.questioned.len() == 0
            &&& inq.credibility == 0
            &&& inq.stage is Summons
            &&& (r.flags.contains(flag) <==> w.flags.contains(flag) || flag == "tried_"@
                + f.fact_id)
        }),
{
    lemma_inserted_contains(w.flags, "tried_"@ + f.fact_id, flag);
}

proof fn lemma_holders_are_all(mems: Seq<MemoryModel>, id: Text, n: int, npc: Text)
    requires
        0 <= n <= mems.len(),
    ensures
        holders(mems, id, n).contains(npc) <==> exists|i: int|
            0 <= i < n && (#[trigger] mems[i]).fact_id == Some(id) && mems[i].npc == npc,
    decreases n,
{
    if n > 0 {
        lemma_holders_are_all(mems, id, n - 1, npc);
        let h = holders(mems, id, n);
        let g = holders(mems, id, n - 1);
        if g.contains(npc) {
            assert(h[g.index_of(npc)] == npc);
        }
        if mems[n - 1].fact_id == Some(id) {
            assert(h[g.len() as int] == mems[n - 1].npc);
        }
        if h.contains(npc) {
            let k = h.index_of(npc);
            if k < g.len() {
                assert(g[k] == npc);
            }
        }
    }
}

/// Everybody who remembers the fact is called, up to four: one who is not called
/// comes in order of name behind four who are.
pub proof fn law_those_who_remember_are_called(mems: Seq<MemoryModel>, id: Text, q: int)
    requires
        0 <= q < mems.len(),
        mems[q].fact_id == Some(id),
    ensures
        called(mems, id).contains(mems[q].npc) || (called(mems, id).len() == 4 && forall|k: int|
            0 <= k < 4 ==> text_lt(#[trigger] called(mems, id)[k], mems[q].npc)),
{
    let n = mems.len() as int;
    let npc = mems[q].npc;
    let hs = holders(mems, id, n);
    let all = inserted_all(Seq::empty(), hs);
    lemma_holders_are_all(mems, id, n, npc);
    lemma_inserted_all(hs);
    assert(all.contains(npc));
    let k = all.index_of(npc);
    let c = called(mems, id);
    if k < c.len() {
        assert(c[k] == npc);
    } else {
        assert forall|i: int| 0 <= i < 4 implies text_lt(#[trigger] c[i], npc) by {
            assert(c[i] == all[i]);
            assert(text_lt(all[i], all[k]));
        }
    }
}

// ----------------------------------------------------------------- the hearing

/// A witness speaks from the memory of the case that matters most to them, the
/// later of two that matter as much.
pub proof fn law_witnesses_speak_from_what_matters(
    mems: Seq<MemoryModel>,
    npc: Text,
    id: Text,
    n: int,
)
    requires
        0 <= n <= mems.len(),
    ensures
        match testimony(mems, npc, id, n) {
            Some(k) => {
                &&& 0 <= k < n
                &&& mems[k].npc == npc
                &&& mems[k].fact_id == Some(id)
                &&& forall|i: int|
                    0 <= i < n && (#[trigger] mems[i]).npc == npc && mems[i].fact_id == Some(id)
                        ==> mems[i].importance < mems[k].importance || (mems[i].importance
                        == mems[k].importance && i <= k)
            },
            None => forall|i: int|
                0 <= i < n && (#[trigger] mems[i]).npc == npc ==> mems[i].fact_id != Some(id),
        },
    decreases n,
{
    if n > 0 {
        law_witnesses_speak_from_what_matters(mems, npc, id, n - 1);
    }
}

/// A question puts on the record what the witness remembers: the words and the
/// version of events of that memory, or the record's own version where the
/// memory has none, under the witness's name and not yet challenged. The witness
/// is then on the record and being heard. One who remembers nothing of the case
/// changes nothing.
pub proof fn law_questions_put_memories_on_record(
    mems: Seq<MemoryModel>,
    inq: InquiryModel,
    npcs: Seq<Npc>,
    idx: int,
)
    requires
        0 <= idx < inq.witnesses.len(),
    ensures
        ({
            let npc = inq.witnesses[idx];
            let k = testimony(mems, npc, inq.case.fact_id, mems.len() as int);
            let r = questioned(mems, inq, npcs, idx);
            let c = r.claims.last();
            &&& (k is None ==> r == inq)
            &&& (k is Some ==> {
                &&& r.claims.drop_last() == inq.claims
                &&& r.claims.len() == inq.claims.len() + 1
                &&& c.witness == npc
                &&& c.witness_name == name_of(npcs, npc)
                &&& c.text == mems[k->0].text
                &&& c.kind == mems[k->0].kind
                &&& c.challenged is None
                &&& (mems[k->0].asserts is Some ==> c.asserts == mems[k->0].asserts->0)
                &&& (mems[k->0].asserts is None ==> c.asserts == inq.case.attrs)
                &&& r.questioned.contains(npc)
                &&& r.stage == (InqStageModel::Testimony { claim_idx: inq.claims.len() as int })
                &&& r == (InquiryModel {
                    claims: r.claims,
                    questioned: r.questioned,
                    stage: r.stage,
                    ..inq
                })
            })
        }),
{
    let npc = inq.witnesses[idx];
    lemma_inserted_contains(inq.questioned, npc, npc);
    let r = questioned(mems, inq, npcs, idx);
    if testimony(mems, npc, inq.case.fact_id, mems.len() as int) is Some {
        assert(r.claims.drop_last() =~= inq.claims);
    }
}

/// A name is that of the first with the id, and the id itself where nobody has
/// it.
pub proof fn law_names_are_looked_up(npcs: Seq<Npc>, id: Text, k: int)
    requires
        0 <= k <= npcs.len(),
        forall|i: int| 0 <= i < k ==> (#[trigger] npcs[i]).id@ != id,
    ensures
        k < npcs.len() && npcs[k].id@ == id ==> name_of(npcs, id) == npcs[k].name@,
        k == npcs.len() ==> name_of(npcs, id) == id,
    decreases k,
{
    if k > 0 {
        let d = npcs.drop_first();
        assert forall|i: int| 0 <= i < k - 1 implies (#[trigger] d[i]).id@ != id by {
            assert(d[i] == npcs[i + 1]);
        }
        assert(npcs[0].id@ != id);
        law_names_are_looked_up(d, id, k - 1);
    }
}

/// A challenge is decided by the record: credibility goes up by one where what
/// was asserted differs from it in who, what or where, and down by one where it
/// does not; the claim is marked accordingly, and no other claim changes.
pub proof fn law_challenges_are_decided_by_the_record(inq: InquiryModel, ci: int, other: int)
    requires
        0 <= ci < inq.claims.len(),
    ensures
        ({
            let a = inq.claims[ci].asserts;
            let b = inq.case.attrs;
            let same = a.actor == b.actor && a.action == b.action && a.location == b.location;
            let r = challenged(inq, ci);
            &&& (same ==> r.credibility == inq.credibility - 1 && r.claims[ci].challenged == Some(
                false,
            ))
            &&& (!same ==> r.credibility == inq.credibility + 1 && r.claims[ci].challenged == Some(
                true,
            ))
            &&& r.claims.len() == inq.claims.len()
            &&& (0 <= other < inq.claims.len() && other != ci ==> r.claims[other]
                == inq.claims[other])
            &&& r.claims[ci] == (ClaimModel {
                challenged: r.claims[ci].challenged,
                ..inq.claims[ci]
            })
            &&& r == (InquiryModel { claims: r.claims, credibility: r.credibility, ..inq })
        }),
{
}

/// What the panel offers: to question each witness who is not on the record, to
/// challenge each claim that has not been put, and always to go on.
pub proof fn law_what_the_panel_offers(inq: InquiryModel, npcs: Seq<Npc>, i: int)
    requires
        inq.stage is Hub,
    ensures
        ({
            let c = hearing_view(inq, npcs).choices;
            let n = inq.witnesses.len();
            &&& c.len() == n + inq.claims.len() + 1
            &&& (0 <= i < n ==> (c[i].enabled <==> !inq.questioned.contains(inq.witnesses[i])))
            &&& (0 <= i < inq.claims.len() ==> (c[n + i].enabled
                <==> inq.claims[i].challenged is None))
            &&& c.last().enabled
        }),
{
}

/// What the verdict offers: the fine always, the blame on others with a
/// credibility of one or more, and dismissal with two or more.
pub proof fn law_what_the_verdict_offers(inq: InquiryModel, npcs: Seq<Npc>)
    requires
        inq.stage is Verdict,
    ensures
        ({
            let c = hearing_view(inq, npcs).choices;
            &&& c.len() == 3
            &&& c[0].enabled
            &&& (c[1].enabled <==> inq.credibility >= 1)
            &&& (c[2].enabled <==> inq.credibility >= 2)
        }),
{
}

/// What is counted as established is the claims that were shown to contradict
/// the record.
pub proof fn law_established_is_counted(claims: Seq<ClaimModel>, n: int)
    requires
        0 <= n <= claims.len(),
    ensures
        established(claims, n) == claims.take(n).filter(
            |c: ClaimModel| c.challenged == Some(true),
        ).len(),
    decreases n,
{
    reveal(Seq::filter);
    if n > 0 {
        law_established_is_counted(claims, n - 1);
        assert(claims.take(n).drop_last() =~= claims.take(n - 1));
        assert(claims.take(n).last() == claims[n - 1]);
    }
}

/// How a hearing goes: from the summons to the brief, to the panel, to each
/// witness and back, to the verdict, to the record, and out. What is chosen
/// before the panel is a question to the witness at that place, a challenge to
/// the claim at that place behind the witnesses, or the verdict.
pub proof fn law_how_a_hearing_goes(w: WorldModel, inq: InquiryModel, npcs: Seq<Npc>, idx: int)
    requires
        w.inquiry == Some(inq),
        0 <= idx,
    ensures
        ({
            let t = inquiry_turn(w, npcs, idx);
            let n = inq.witnesses.len();
            let staged = |stage: InqStageModel|
                WorldModel { inquiry: Some(InquiryModel { stage, ..inq }), ..w };
            &&& (inq.stage is Summons ==> t.w == staged(InqStageModel::Brief))
            &&& (inq.stage is Brief || inq.stage is Testimony ==> t.w == staged(
                InqStageModel::Hub,
            ))
            &&& (inq.stage is Hub && idx < n ==> t.w == (WorldModel {
                inquiry: Some(questioned(w.memories, inq, npcs, idx)),
                ..w
            }) && t.said.len() == 0)
            &&& (inq.stage is Hub && n <= idx < n + inq.claims.len() ==> t.w == (WorldModel {
                inquiry: Some(challenged(inq, idx - n)),
                ..w
            }) && t.said.len() == 1)
            &&& (inq.stage is Hub && n + inq.claims.len() <= idx ==> t.w == staged(
                InqStageModel::Verdict,
            ))
            &&& (inq.stage is Verdict ==> t.w.inquiry is Some && t.w.inquiry->0.stage is Closed
                && t.w == (WorldModel { inquiry: t.w.inquiry, ..sentenced(w, idx) }))
            &&& (inq.stage is Closed ==> t.w == (WorldModel { inquiry: None, ..w }) && t.said.len()
                == 1)
        }),
{
}

/// What each verdict does. The fine takes fifty shillings, or all there is, and
/// cools suspicion by three. Blaming others cools it by four, costs a point with
/// Carver and is not forgotten. Dismissal cools it by five and gains a point with
/// the Collective. Suspicion never goes below nothing, and nothing else changes.
pub proof fn law_what_each_verdict_does(w: WorldModel, idx: int, flag: Text, faction: Text)
    requires
        names_ascending(w.factions),
    ensures
        ({
            let r = sentenced(w, idx);
            let by = if idx == 0 {
                3int
            } else if idx == 1 {
                4
            } else {
                5
            };
            &&& (w.guild_suspicion >= by ==> r.guild_suspicion == w.guild_suspicion - by)
            &&& (w.guild_suspicion < by ==> r.guild_suspicion == 0)
            &&& (idx == 0 && w.cash_pence > 600 ==> r.cash_pence == w.cash_pence - 600)
            &&& (idx == 0 && w.cash_pence <= 600 ==> r.cash_pence == 0)
            &&& (idx != 0 ==> r.cash_pence == w.cash_pence)
            &&& (r.flags.contains(flag) <==> w.flags.contains(flag) || (idx == 1 && flag
                == "framed_pulver"@))
            &&& (idx == 0 ==> r.factions == w.factions)
            &&& (idx == 1 && -4 <= standing(w.factions, "carver"@) <= 5 ==> standing(
                r.factions,
                "carver"@,
            ) == standing(w.factions, "carver"@) - 1)
            &&& (idx > 1 && -5 <= standing(w.factions, "collective"@) <= 4 ==> standing(
                r.factions,
                "collective"@,
            ) == standing(w.factions, "collective"@) + 1)
            &&& (idx == 1 && faction != "carver"@ ==> standing(r.factions, faction) == standing(
                w.factions,
                faction,
            ))
            &&& (idx > 1 && faction != "collective"@ ==> standing(r.factions, faction) == standing(
                w.factions,
                faction,
            ))
            &&& r == (WorldModel {
                cash_pence: r.cash_pence,
                guild_suspicion: r.guild_suspicion,
                factions: r.factions,
                flags: r.flags,
                ..w
            })
        }),
{
    lemma_inserted_contains(w.flags, "framed_pulver"@, flag);
    law_shifts_touch_one_standing(w.factions, "carver"@, -1, faction);
    law_shifts_touch_one_standing(w.factions, "collective"@, 1, faction);
}

/// What a hearing says of how a witness knows, of what cannot be chosen, and of
/// what it came to.
pub proof fn law_what_a_hearing_says(w: WorldModel, inq: InquiryModel, npcs: Seq<Npc>, i: int)
    ensures
        ({
            let s = hearing_view(inq, npcs);
            let n = inq.witnesses.len();
            &&& (inq.stage matches InqStageModel::Testimony { claim_idx } ==> {
                let c = inq.claims[claim_idx];
                &&& s.body[1] == "\""@ + c.text + "\""@
                &&& (c.kind == "gossip"@ ==> s.body[2]
                    == "Pressed on how they come to know it, the witness allows that they had it from somebody who had it from somebody. The stenographer records this as 'directly'."@)
                &&& (c.kind != "gossip"@ ==> s.body[2]
                    == "The witness was there, and looks sorry for it."@)
            })
            &&& (inq.stage is Hub && 0 <= i < n && !s.choices[i].enabled ==> s.choices[i].note
                == Some("Their account is on the record."@))
            &&& (inq.stage is Hub && 0 <= i < inq.claims.len() && !s.choices[n + i].enabled
                ==> s.choices[n + i].note == Some("Already put to the panel."@))
            &&& (inq.stage is Verdict && inq.credibility < 1 ==> s.choices[1].note == Some(
                "You'd need an established contradiction to hang it on."@,
            ))
            &&& (inq.stage is Verdict && inq.credibility < 2 ==> s.choices[2].note == Some(
                "The record holds together too well. (Two contradictions needed.)"@,
            ))
            &&& (inq.stage matches InqStageModel::Closed { lines } ==> s.body == lines)
            &&& (inq.stage is Summons ==> s.body[1] == "Overleaf: "@ + inq.charge + "."@)
            &&& (inq.stage is Brief ==> s.body[1] == "THE MATTER: "@ + inq.charge + "."@)
        }),
        verdict_lines(w, 1)[0]
            == "FINDING: fault determined against persons unknown, believed to be drivers in the employ of one Pulver. A warrant is typed. Somewhere on the night roads, a young man in a scarf has acquired a paperwork problem."@,
        verdict_lines(w, 2)[0]
            == "FINDING: dismissed for want of evidence. Finch pronounces the words like a eulogy for the record's good name. The Collective captain shakes your hand, once, as if testing a gate for soundness."@,
        verdict_lines(w, 0)[0] == "FINDING: fault determined. Fine of "@ + money(
            if w.cash_pence > 600 {
                600
            } else {
                w.cash_pence
            },
        ) + " paid into the provisional fund, receipted in triplicate."@,
        w.inquiry == Some(inq) && inq.stage is Verdict ==> inquiry_turn(
            w,
            npcs,
            i,
        ).w.inquiry->0.stage == (InqStageModel::Closed { lines: verdict_lines(w, i) }),
{
}

/// What the record shows of a claim: its number, who said it, how they know it,
/// what they said, and what came of a challenge.
pub proof fn law_the_record_shows_the_claims(inq: InquiryModel, npcs: Seq<Npc>, i: int)
    requires
        inq.stage is Hub,
        0 <= i < inq.claims.len(),
    ensures
        ({
            let body = hearing_view(inq, npcs).body;
            let c = inq.claims[i];
            &&& body.len() == inq.claims.len() + 2
            &&& body[2 + i] == dec(i + 1) + ". "@ + c.witness_name + " ("@ + c.kind + "): \""@
                + c.text + "\""@ + (if c.challenged == Some(true) {
                " [CONTRADICTION ESTABLISHED]"@
            } else if c.challenged == Some(false) {
                " [challenge failed]"@
            } else {
                ""@
            })
        }),
{
    lemma_record_lines(inq.claims, inq.claims.len() as int, i);
}

proof fn lemma_record_lines(claims: Seq<ClaimModel>, n: int, i: int)
    requires
        0 <= n,
    ensures
        record_lines(claims, n).len() == n,
        0 <= i < n ==> record_lines(claims, n)[i] == record_line(claims[i], i),
    decreases n,
{
    if n > 0 {
        lemma_record_lines(claims, n - 1, i);
    }
}

/// A standing is what is written beside the name, and nothing where the name is
/// not written.
pub proof fn law_standings_are_looked_up(s: Seq<(Text, int)>, name: Text, k: int)
    requires
        0 <= k <= s.len(),
        forall|i: int| 0 <= i < k ==> (#[trigger] s[i]).0 != name,
    ensures
        k < s.len() && s[k].0 == name ==> standing(s, name) == s[k].1,
        k == s.len() ==> standing(s, name) == 0,
    decreases k,
{
    if k > 0 {
        let d = s.drop_first();
        assert forall|i: int| 0 <= i < k - 1 implies (#[trigger] d[i]).0 != name by {
            assert(d[i] == s[i + 1]);
        }
        assert(s[0].0 != name);
        law_standings_are_looked_up(d, name, k - 1);
    }
}

/// How a hearing words its stages: what each is headed, and what there is to
/// choose.
pub proof fn law_how_a_hearing_is_worded(inq: InquiryModel, npcs: Seq<Npc>, i: int)
    ensures
        ({
            let s = hearing_view(inq, npcs);
            let n = inq.witnesses.len();
            &&& s.speaker is None
            &&& (inq.stage is Summons ==> {
                &&& s.title == "A Summons, in Triplicate"@
                &&& s.body.len() == 2
                &&& s.choices.len() == 1
                &&& s.choices[0].label == "Attend the hearing"@
            })
            &&& (inq.stage is Brief ==> {
                &&& s.title == "The Corn Exchange — The Brief"@
                &&& s.body.len() == 4
                &&& s.choices.len() == 1
                &&& s.choices[0].label == "Begin the testimony"@
            })
            &&& (inq.stage is Hub ==> {
                &&& s.title == "The Corn Exchange — Testimony"@
                &&& s.body[0]
                    == "The panel waits. The stenographer flexes her fingers."@
                &&& (inq.claims.len() == 0 ==> s.body.len() == 1)
                &&& (inq.claims.len() > 0 ==> s.body[1] == "ON THE RECORD SO FAR:"@)
                &&& (0 <= i < n ==> s.choices[i].label == "Question "@ + name_of(
                    npcs,
                    inq.witnesses[i],
                ))
                &&& (0 <= i < inq.claims.len() ==> s.choices[n + i].label == "Challenge "@
                    + inq.claims[i].witness_name + "'s account against the record"@)
                &&& s.choices.last().label == "Let the panel proceed to a determination"@
            })
            &&& (inq.stage is Testimony ==> {
                let c = inq.claims[inq.stage->claim_idx];
                &&& s.title == "The Witness: "@ + c.witness_name
                &&& s.body.len() == 3
                &&& s.body[0] == c.witness_name + " takes the chair and gives an account:"@
                &&& s.choices.len() == 1
                &&& s.choices[0].label == "Return to the panel"@
            })
            &&& (inq.stage is Verdict ==> {
                &&& s.title == "The Determination"@
                &&& s.body.len() == 2
                &&& s.body[1] == "Contradictions established: "@ + dec(
                    established(inq.claims, inq.claims.len() as int),
                ) + "."@
                &&& s.choices[0].label == "Accept the panel's finding and the fine (50s)"@
                &&& s.choices[1].label == "Lay the matter at the door of Pulver's drivers"@
                &&& s.choices[2].label == "Move to dismiss for want of evidence"@
            })
            &&& (inq.stage is Closed ==> {
                &&& s.title == "The Record"@
                &&& s.choices.len() == 1
                &&& s.choices[0].label == "Step out into the morning"@
            })
            &&& (!(inq.stage is Hub) ==> s.choices[0].enabled && s.choices[0].note is None)
        }),
{
}

/// What the papers of a hearing say: the summons, the brief with the witnesses
/// by name, and the panel before it decides.
pub proof fn law_what_the_papers_say(inq: InquiryModel, npcs: Seq<Npc>)
    ensures
        ({
            let s = hearing_view(inq, npcs);
            &&& (inq.stage is Summons ==> s.body[0]
                == "It arrives before dawn, under the wiper blade like a parking notice: Form 7C, Petition for Determination of Fault, your name typed with two fingers and great conviction. The Joint Committee requests and requires your attendance at the Wychford corn exchange, today, in the matter described overleaf."@)
            &&& (inq.stage is Brief ==> {
                &&& s.body[0]
                    == "Trestle tables in a horseshoe, a jug of water nobody will touch, and a panel of three: a Collective captain, a Guild alderman, and Mr. Finch, who has brought his own stamps. You are handed the dossier — a carbon so faint it is less a document than a rumour of one."@
                &&& s.body[2] == "WITNESSES CALLED: "@ + joined(
                    inq.witnesses.map_values(|id: Text| name_of(npcs, id)),
                    "; "@,
                ) + "."@
                &&& s.body[3]
                    == "Their accounts will go into the record. The record, Finch observes, is the only thing in the room that cannot be wrong."@
            })
            &&& (inq.stage is Verdict ==> s.body[0]
                == "The panel confers in the manner of men agreeing about something they have not discussed. Finch uncaps a stamp. The room arrives at the part it was always going to arrive at."@)
        }),
{
    assert(witness_names(inq, npcs) =~= inq.witnesses.map_values(|id: Text| name_of(npcs, id)));
}

/// What a hearing tells: of a challenge, whether the record disagrees; and of
/// its end, that the room empties. Of anything else it tells nothing.
pub proof fn law_what_a_hearing_tells(w: WorldModel, inq: InquiryModel, npcs: Seq<Npc>, idx: int)
    requires
        w.inquiry == Some(inq),
        0 <= idx,
    ensures
        ({
            let said = inquiry_turn(w, npcs, idx).said;
            let n = inq.witnesses.len();
            let put = inq.stage is Hub && n <= idx < n + inq.claims.len();
            &&& (put && inq.claims[idx - n].asserts != inq.case.attrs ==> said == seq![
                "The record is consulted. The record disagrees with "@ + inq.claims[idx
                    - n].witness_name + ". Finch stamps something with feeling."@,
            ])
            &&& (put && inq.claims[idx - n].asserts == inq.case.attrs ==> said == seq![
                "The record is consulted. The record agrees with "@ + inq.claims[idx
                    - n].witness_name
                    + " to the letter. The panel looks at you as at a man who has wasted a stamp."@,
            ])
            &&& (inq.stage is Closed ==> said == seq![
                "The corn exchange empties. Wychford pretends it wasn't listening."@,
            ])
            &&& (!put && !(inq.stage is Closed) ==> said.len() == 0)
        }),
        verdict_lines(w, 0).len() == 2 && verdict_lines(w, 1).len() == 2 && verdict_lines(
            w,
            2,
        ).len() == 2,
        verdict_lines(w, 0)[1]
            == "The matter is closed, the file is opened, and both will outlive everyone in this room."@,
        verdict_lines(w, 1)[1]
            == "You walk out lighter. The lightness has a price that hasn't been named yet."@,
        verdict_lines(w, 2)[1]
            == "You are, officially, a man about whom nothing can be proved. There are worse reputations on these roads."@,
{
}

/// Where no hearing sits there is nothing to choose.
pub proof fn law_nothing_happens_out_of_session(w: WorldModel, npcs: Seq<Npc>, idx: int)
    requires
        w.inquiry is None,
    ensures
        inquiry_turn(w, npcs, idx).w == w,
        inquiry_turn(w, npcs, idx).said.len() == 0,
{
}

// ------------------------------------------------------------------------- flags

/// Flags are a set in dictionary order: a flag that is put in is there, with
/// those that were there and no other, and putting in one that is there changes
/// nothing.
pub proof fn law_flags_are_a_set(s: Seq<Text>, ts: Seq<Text>, t: Text, x: Text)
    requires
        forall|i: int, j: int|
            0 <= i < j < s.len() ==> text_lt(#[trigger] s[i], #[trigger] s[j]),
    ensures
        inserted(s, t).contains(x) <==> s.contains(x) || x == t,
        forall|i: int, j: int|
            0 <= i < j < inserted(s, t).len() ==> text_lt(
                #[trigger] inserted(s, t)[i],
                #[trigger] inserted(s, t)[j],
            ),
        s.contains(t) ==> inserted(s, t) == s,
        !s.contains(t) ==> inserted(s, t).len() == s.len() + 1,
        inserted_all(s, ts).contains(x) <==> s.contains(x) || ts.contains(x),
{
    assert(ascending(s));
    lemma_inserted_contains(s, t, x);
    lemma_inserted_ascending(s, t);
    assert(ascending(inserted(s, t)));
    lemma_inserted_size(s, t);
    lemma_all_inserted(s, ts, x);
}

proof fn lemma_inserted_size(s: Seq<Text>, t: Text)
    requires
        ascending(s),
    ensures
        s.contains(t) ==> inserted(s, t) == s,
        !s.contains(t) ==> inserted(s, t).len() == s.len() + 1,
    decreases s.len(),
{
    if s.len() > 0 {
        let d = s.drop_first();
        if s[0] == t {
            assert(s.contains(s[0]));
        } else if text_lt(t, s[0]) {
            if s.contains(t) {
                let k = s.index_of(t);
                assert(text_lt(s[0], s[k]));
                lemma_text_lt_transitive(t, s[0], t);
                lemma_text_lt_irreflexive(t);
            }
        } else {
            assert forall|i: int, j: int| 0 <= i < j < d.len() implies text_lt(
                #[trigger] d[i],
                #[trigger] d[j],
            ) by {
                assert(d[i] == s[i + 1] && d[j] == s[j + 1]);
            }
            lemma_inserted_size(d, t);
            if s.contains(t) {
                let k = s.index_of(t);
                assert(d[k - 1] == t);
                assert(seq![s[0]] + d =~= s);
            } else if d.contains(t) {
                assert(s[d.index_of(t) + 1] == t);
            }
        }
    }
}

proof fn lemma_all_inserted(s: Seq<Text>, ts: Seq<Text>, x: Text)
    ensures
        inserted_all(s, ts).contains(x) <==> s.contains(x) || ts.contains(x),
    decreases ts.len(),
{
    if ts.len() > 0 {
        let d = ts.drop_last();
        lemma_all_inserted(s, d, x);
        lemma_inserted_contains(inserted_all(s, d), ts.last(), x);
        if ts.contains(x) {
            let k = ts.index_of(x);
            if k < d.len() {
                assert(d[k] == x);
            }
        }
        if d.contains(x) {
            assert(ts[d.index_of(x)] == x);
        }
        assert(ts[ts.len() - 1] == ts.last());
    }
}

} // verus!
