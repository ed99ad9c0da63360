//! What holds of the persistent world: of memories, of standings, and of every
//! hearing.

use vstd::prelude::*;

use crate::content::{Npc, Settlement};
use crate::flags::{
    ascending, inserted_all, lemma_inserted_all, lemma_inserted_ascending, lemma_inserted_contains,
};
use crate::hearing::{established, hearing_sits, hearing_view};
use crate::inquiry::{
    about, called, case_gravity, convened, gravest, gravity, holders, taken_up, tried_mark,
    ClaimModel, InquiryModel,
};
use crate::memory::{
    arthurs_note, canonical, charge_for, count_of, elsewhere, fades_before, flag_recorded,
    flags_recorded, forgettable, gossiped, hearsay, lemma_elsewhere, observation, retold,
    run_recorded, with_fact, with_memory, witness_of, FactModel, FactRecModel, MemoryModel,
    MEMORIES_PER_NPC,
};
use crate::mission::clamped;
use crate::panel::{
    challenged, claim_from, contradicts, hearing_turn, inquiry_turn, questioned, sentenced,
    testimony,
};
use crate::text::{
    lemma_text_lt_irreflexive, lemma_text_lt_total, lemma_text_lt_transitive, text_lt, Text,
};
use crate::world::{names_ascending, shifted, standing, WorldModel};

verus! {

// ------------------------------------------------------------------- memories

/// Whether nobody remembers more than one can.
pub open spec fn memories_capped(mems: Seq<MemoryModel>) -> bool {
    forall|npc: Text| #[trigger] count_of(mems, npc, mems.len() as int) <= MEMORIES_PER_NPC
}

/// Whether memories stand in the order in which they were made, under ids that
/// have been given out.
pub open spec fn ids_ascending(mems: Seq<MemoryModel>, next: int) -> bool {
    &&& forall|i: int, j: int|
        0 <= i < j < mems.len() ==> (#[trigger] mems[i]).id < (#[trigger] mems[j]).id
    &&& forall|i: int| 0 <= i < mems.len() ==> (#[trigger] mems[i]).id < next
}

proof fn lemma_count_prefix(a: Seq<MemoryModel>, b: Seq<MemoryModel>, npc: Text, n: int)
    requires
        0 <= n <= a.len(),
        n <= b.len(),
        forall|i: int| 0 <= i < n ==> a[i] == b[i],
    ensures
        count_of(a, npc, n) == count_of(b, npc, n),
    decreases n,
{
    if n > 0 {
        lemma_count_prefix(a, b, npc, n - 1);
    }
}

proof fn lemma_count_removed(mems: Seq<MemoryModel>, npc: Text, k: int, n: int)
    requires
        0 <= k < n <= mems.len(),
    ensures
        count_of(mems.remove(k), npc, n - 1) == count_of(mems, npc, n) - if mems[k].npc == npc {
            1int
        } else {
            0
        },
    decreases n,
{
    if n == k + 1 {
        lemma_count_prefix(mems.remove(k), mems, npc, k);
    } else {
        lemma_count_removed(mems, npc, k, n - 1);
        assert(mems.remove(k)[n - 2] == mems[n - 1]);
    }
}

/// The memory that is dropped is one that the person holds, and none of theirs
/// fades before it.
pub proof fn law_the_most_forgettable_goes(mems: Seq<MemoryModel>, npc: Text, n: int)
    requires
        0 <= n <= mems.len(),
    ensures
        forgettable(mems, npc, n) is Some <==> count_of(mems, npc, n) > 0,
        0 <= count_of(mems, npc, n),
        forgettable(mems, npc, n) is None ==> forall|i: int|
            0 <= i < n ==> (#[trigger] mems[i]).npc != npc,
        forgettable(mems, npc, n) matches Some(k) ==> {
            &&& 0 <= k < n
            &&& mems[k].npc == npc
            &&& forall|i: int|
                0 <= i < n && (#[trigger] mems[i]).npc == npc ==> !fades_before(mems[i], mems[k])
        },
    decreases n,
{
    if n > 0 {
        law_the_most_forgettable_goes(mems, npc, n - 1);
        if let Some(k) = forgettable(mems, npc, n) {
            let last = mems[n - 1];
            assert forall|i: int| 0 <= i < n && (#[trigger] mems[i]).npc == npc implies !fades_before(
                mems[i],
                mems[k],
            ) by {
                if k == n - 1 && i < n - 1 {
                    let q = forgettable(mems, npc, n - 1)->0;
                    assert(!fades_before(mems[i], mems[q]));
                }
            }
        }
    }
}

/// Remembering keeps everybody's memories within the cap.
pub proof fn law_memories_stay_within_the_cap(w: WorldModel, entry: MemoryModel)
    requires
        memories_capped(w.memories),
    ensures
        memories_capped(with_memory(w, entry).memories),
{
    let e = MemoryModel { id: w.next_memory_id, ..entry };
    let all = w.memories.push(e);
    let n = all.len() as int;
    law_the_most_forgettable_goes(all, entry.npc, n);
    let out = with_memory(w, entry).memories;
    assert forall|npc: Text| #[trigger] count_of(out, npc, out.len() as int)
        <= MEMORIES_PER_NPC by {
        lemma_count_prefix(all, w.memories, npc, n - 1);
        assert(count_of(w.memories, npc, w.memories.len() as int) <= MEMORIES_PER_NPC);
        if count_of(all, entry.npc, n) > MEMORIES_PER_NPC {
            let k = forgettable(all, entry.npc, n)->0;
            lemma_count_removed(all, npc, k, n);
        }
    }
}

/// Memories keep the order in which they were made, under ids of their own.
pub proof fn law_memory_ids_are_never_reused(w: WorldModel, entry: MemoryModel)
    requires
        ids_ascending(w.memories, w.next_memory_id),
    ensures
        ids_ascending(with_memory(w, entry).memories, with_memory(w, entry).next_memory_id),
{
    let e = MemoryModel { id: w.next_memory_id, ..entry };
    let all = w.memories.push(e);
    law_the_most_forgettable_goes(all, entry.npc, all.len() as int);
    assert(ids_ascending(all, w.next_memory_id + 1));
    if count_of(all, entry.npc, all.len() as int) > MEMORIES_PER_NPC {
        let k = forgettable(all, entry.npc, all.len() as int)->0;
        let out = all.remove(k);
        assert forall|i: int, j: int| 0 <= i < j < out.len() implies (#[trigger] out[i]).id < (
        #[trigger] out[j]).id by {
            let p = if i < k {
                i
            } else {
                i + 1
            };
            let q = if j < k {
                j
            } else {
                j + 1
            };
            assert(out[i] == all[p] && out[j] == all[q]);
        }
        assert forall|i: int| 0 <= i < out.len() implies (#[trigger] out[i]).id < w.next_memory_id
            + 1 by {
            let p = if i < k {
                i
            } else {
                i + 1
            };
            assert(out[i] == all[p]);
        }
    }
}

proof fn lemma_flag_recorded_keeps(w: WorldModel, flag: Text, settlements: Seq<Settlement>)
    requires
        memories_capped(w.memories),
        ids_ascending(w.memories, w.next_memory_id),
    ensures
        ({
            let r = flag_recorded(w, flag, settlements);
            memories_capped(r.memories) && ids_ascending(r.memories, r.next_memory_id)
        }),
{
    if let Some(seen) = witness_of(flag) {
        let w0 = with_fact(w, flag);
        let o = observation(w, flag, seen.0, seen.1);
        law_memories_stay_within_the_cap(w0, o);
        law_memory_ids_are_never_reused(w0, o);
        let w1 = with_memory(w0, o);
        if let Some(to) = seen.2 {
            let tale = gossiped(w1.rng, canonical(w, flag), settlements);
            let w2 = WorldModel { rng: tale.1, ..w1 };
            let h = hearsay(w, flag, to, tale.0, seen.1);
            law_memories_stay_within_the_cap(w2, h);
            law_memory_ids_are_never_reused(w2, h);
        }
    }
}

proof fn lemma_flags_recorded_keeps(
    w: WorldModel,
    flags: Seq<Text>,
    settlements: Seq<Settlement>,
)
    requires
        memories_capped(w.memories),
        ids_ascending(w.memories, w.next_memory_id),
    ensures
        ({
            let r = flags_recorded(w, flags, settlements);
            memories_capped(r.memories) && ids_ascending(r.memories, r.next_memory_id)
        }),
    decreases flags.len(),
{
    if flags.len() > 0 {
        lemma_flags_recorded_keeps(w, flags.drop_last(), settlements);
        lemma_flag_recorded_keeps(
            flags_recorded(w, flags.drop_last(), settlements),
            flags.last(),
            settlements,
        );
    }
}

/// Recording a run keeps everybody's memories within the cap and in order.
pub proof fn law_recording_keeps_memories_in_order(
    w: WorldModel,
    flags: Seq<Text>,
    settlements: Seq<Settlement>,
)
    requires
        memories_capped(w.memories),
        ids_ascending(w.memories, w.next_memory_id),
    ensures
        ({
            let r = run_recorded(w, flags, settlements);
            memories_capped(r.memories) && ids_ascending(r.memories, r.next_memory_id)
        }),
{
    let note = arthurs_note(w);
    if w.contract.illicit {
        law_memories_stay_within_the_cap(w, note);
        law_memory_ids_are_never_reused(w, note);
        lemma_flags_recorded_keeps(with_memory(w, note), flags, settlements);
    } else {
        lemma_flags_recorded_keeps(w, flags, settlements);
    }
}

// ----------------------------------------------------------- record and gossip

/// The record is only added to: what is recorded of a run stands behind what
/// was on the record, and nothing that was there changes.
pub proof fn law_the_record_only_grows(
    w: WorldModel,
    flags: Seq<Text>,
    settlements: Seq<Settlement>,
)
    ensures
        w.facts.len() <= run_recorded(w, flags, settlements).facts.len(),
        run_recorded(w, flags, settlements).facts.take(w.facts.len() as int) == w.facts,
{
    let w1 = if w.contract.illicit {
        with_memory(w, arthurs_note(w))
    } else {
        w
    };
    lemma_facts_grow(w1, flags, settlements);
}

proof fn lemma_facts_grow(w: WorldModel, flags: Seq<Text>, settlements: Seq<Settlement>)
    ensures
        w.facts.len() <= flags_recorded(w, flags, settlements).facts.len(),
        flags_recorded(w, flags, settlements).facts.take(w.facts.len() as int) == w.facts,
    decreases flags.len(),
{
    if flags.len() > 0 {
        lemma_facts_grow(w, flags.drop_last(), settlements);
        let mid = flags_recorded(w, flags.drop_last(), settlements);
        let r = flag_recorded(mid, flags.last(), settlements);
        assert(r.facts.take(w.facts.len() as int) =~= mid.facts.take(w.facts.len() as int));
    } else {
        assert(w.facts.take(w.facts.len() as int) =~= w.facts);
    }
}

/// One who saw it says what the record says: the claim made of an observation
/// never contradicts the fact that it is about.
pub proof fn law_eyewitnesses_agree_with_the_record(
    w: WorldModel,
    flag: Text,
    witness: Text,
    importance: int,
    name: Text,
)
    ensures
        ({
            let fact = with_fact(w, flag).facts.last();
            let seen = observation(w, flag, witness, importance);
            &&& about(seen, fact.fact_id)
            &&& claim_from(seen, witness, name, fact.attrs).asserts == fact.attrs
        }),
{
}

/// Gossip gets at most one thing wrong, the place or the actor, and never what
/// was done.
pub proof fn law_gossip_gets_one_thing_wrong(
    attrs: FactModel,
    settlements: Seq<Settlement>,
    turn: int,
    pick: int,
)
    ensures
        ({
            let tale = retold(attrs, settlements, turn, pick);
            &&& tale.action == attrs.action
            &&& (tale.actor == attrs.actor || tale.location == attrs.location)
        }),
{
}

/// A wrong place in a tale is another settlement: a tale that moves a deed
/// always contradicts the record.
pub proof fn law_a_moved_deed_contradicts(
    attrs: FactModel,
    settlements: Seq<Settlement>,
    pick: int,
)
    requires
        0 <= pick < elsewhere(settlements, attrs.location).len(),
    ensures
        retold(attrs, settlements, 0, pick).location != attrs.location,
        retold(attrs, settlements, 0, pick) != attrs,
{
    let others = elsewhere(settlements, attrs.location);
    assert(others.contains(others[pick]));
    lemma_elsewhere(settlements, attrs.location, others[pick]);
}

// ------------------------------------------------------------------- standings

/// Whether every standing is within five either way.
pub open spec fn standings_bounded(s: Seq<(Text, int)>) -> bool {
    forall|i: int| 0 <= i < s.len() ==> -5 <= (#[trigger] s[i]).1 <= 5
}

/// Moving a standing keeps the names in order and every standing within five
/// either way.
pub proof fn law_standings_stay_in_bounds(s: Seq<(Text, int)>, name: Text, delta: int)
    requires
        names_ascending(s),
        standings_bounded(s),
    ensures
        names_ascending(shifted(s, name, delta)),
        standings_bounded(shifted(s, name, delta)),
        forall|i: int|
            0 <= i < shifted(s, name, delta).len() ==> (#[trigger] shifted(s, name, delta)[i]).0
                == name || s.contains(shifted(s, name, delta)[i]),
    decreases s.len(),
{
    let r = shifted(s, name, delta);
    if s.len() > 0 {
        let d = s.drop_first();
        assert forall|i: int, j: int| 0 <= i < j < d.len() implies text_lt(
            (#[trigger] d[i]).0,
            (#[trigger] d[j]).0,
        ) by {
            assert(d[i] == s[i + 1] && d[j] == s[j + 1]);
        }
        assert forall|i: int| 0 <= i < d.len() implies -5 <= (#[trigger] d[i]).1 <= 5 by {
            assert(d[i] == s[i + 1]);
        }
        if s[0].0 == name {
            assert forall|i: int, j: int| 0 <= i < j < r.len() implies text_lt(
                (#[trigger] r[i]).0,
                (#[trigger] r[j]).0,
            ) by {
                assert(r[j] == s[j]);
                if i > 0 {
                    assert(r[i] == s[i]);
                }
            }
            assert forall|i: int| 0 <= i < r.len() implies -5 <= (#[trigger] r[i]).1 <= 5 && (
            r[i].0 == name || s.contains(r[i])) by {
                if i > 0 {
                    assert(r[i] == s[i]);
                }
            }
        } else if text_lt(name, s[0].0) {
            assert forall|i: int, j: int| 0 <= i < j < r.len() implies text_lt(
                (#[trigger] r[i]).0,
                (#[trigger] r[j]).0,
            ) by {
                assert(r[j] == s[j - 1]);
                if i > 0 {
                    assert(r[i] == s[i - 1]);
                } else if j > 1 {
                    lemma_text_lt_transitive(name, s[0].0, s[j - 1].0);
                }
            }
            assert forall|i: int| 0 <= i < r.len() implies -5 <= (#[trigger] r[i]).1 <= 5 && (
            r[i].0 == name || s.contains(r[i])) by {
                if i > 0 {
                    assert(r[i] == s[i - 1]);
                }
            }
        } else {
            law_standings_stay_in_bounds(d, name, delta);
            let t = shifted(d, name, delta);
            assert forall|i: int| 0 <= i < r.len() implies -5 <= (#[trigger] r[i]).1 <= 5 && (
            r[i].0 == name || s.contains(r[i])) by {
                if i > 0 {
                    assert(r[i] == t[i - 1]);
                    if t[i - 1].0 != name {
                        let q = d.index_of(t[i - 1]);
                        assert(s[q + 1] == r[i]);
                    }
                } else {
                    assert(s[0] == r[0]);
                }
            }
            assert forall|i: int, j: int| 0 <= i < j < r.len() implies text_lt(
                (#[trigger] r[i]).0,
                (#[trigger] r[j]).0,
            ) by {
                assert(r[j] == t[j - 1]);
                if i > 0 {
                    assert(r[i] == t[i - 1]);
                } else if t[j - 1].0 == name {
                    lemma_text_lt_total(s[0].0, name);
                } else {
                    let q = d.index_of(t[j - 1]);
                    assert(s[q + 1] == t[j - 1]);
                }
            }
        }
    } else {
        assert(r[0].0 == name);
    }
}

/// A standing that is missing because every name comes after it is nothing.
proof fn lemma_standing_before(s: Seq<(Text, int)>, name: Text)
    requires
        forall|i: int| 0 <= i < s.len() ==> text_lt(name, (#[trigger] s[i]).0),
    ensures
        standing(s, name) == 0,
    decreases s.len(),
{
    if s.len() > 0 {
        lemma_text_lt_irreflexive(name);
        let d = s.drop_first();
        assert forall|i: int| 0 <= i < d.len() implies text_lt(name, (#[trigger] d[i]).0) by {
            assert(d[i] == s[i + 1]);
        }
        lemma_standing_before(d, name);
    }
}

/// Moving a standing moves that one by so much, within bounds, and no other.
pub proof fn law_shifts_touch_one_standing(
    s: Seq<(Text, int)>,
    name: Text,
    delta: int,
    other: Text,
)
    requires
        names_ascending(s),
    ensures
        standing(shifted(s, name, delta), name) == clamped(standing(s, name) + delta, -5, 5),
        other != name ==> standing(shifted(s, name, delta), other) == standing(s, other),
    decreases s.len(),
{
    let r = shifted(s, name, delta);
    if s.len() == 0 {
        assert(r.drop_first() =~= s);
    } else {
        let d = s.drop_first();
        assert forall|i: int, j: int| 0 <= i < j < d.len() implies text_lt(
            (#[trigger] d[i]).0,
            (#[trigger] d[j]).0,
        ) by {
            assert(d[i] == s[i + 1] && d[j] == s[j + 1]);
        }
        if s[0].0 == name {
            assert(r.drop_first() =~= d);
        } else if text_lt(name, s[0].0) {
            assert(r.drop_first() =~= s);
            assert forall|i: int| 0 <= i < s.len() implies text_lt(name, (#[trigger] s[i]).0) by {
                if i > 0 {
                    lemma_text_lt_transitive(name, s[0].0, s[i].0);
                }
            }
            lemma_standing_before(s, name);
        } else {
            law_shifts_touch_one_standing(d, name, delta, other);
            assert(r.drop_first() =~= shifted(d, name, delta));
        }
    }
}

// ------------------------------------------------------------------- convening

proof fn lemma_gravest(w: WorldModel, n: int)
    requires
        0 <= n <= w.facts.len(),
    ensures
        match gravest(w, n) {
            Some(k) => {
                &&& 0 <= k < n
                &&& case_gravity(w, w.facts[k]) is Some
                &&& forall|i: int|
                    0 <= i < n ==> (case_gravity(w, #[trigger] w.facts[i]) matches Some(v) ==> v
                        <= case_gravity(w, w.facts[k])->0)
            },
            None => forall|i: int| 0 <= i < n ==> case_gravity(w, #[trigger] w.facts[i]) is None,
        },
    decreases n,
{
    if n > 0 {
        lemma_gravest(w, n - 1);
    }
}

/// A hearing is convened only where none sits and suspicion is at least six,
/// and only over a fact on the record that can be charged, has not been tried,
/// and that somebody remembers; no such fact is graver.
pub proof fn law_the_gravest_fact_is_taken_up(w: WorldModel)
    ensures
        taken_up(w) matches Some(f) ==> {
            &&& w.inquiry is None
            &&& w.guild_suspicion >= 6
            &&& w.facts.contains(f)
            &&& charge_for(f.attrs.action) is Some
            &&& !w.flags.contains(tried_mark(f.fact_id))
            &&& case_gravity(w, f) is Some
            &&& forall|i: int|
                0 <= i < w.facts.len() ==> (case_gravity(w, #[trigger] w.facts[i]) matches Some(v)
                    ==> v <= case_gravity(w, f)->0)
        },
        taken_up(w) is None && w.inquiry is None && w.guild_suspicion >= 6 ==> forall|i: int|
            0 <= i < w.facts.len() ==> case_gravity(w, #[trigger] w.facts[i]) is None,
{
    lemma_gravest(w, w.facts.len() as int);
}

/// What is flagged stays flagged through a hearing.
pub proof fn law_hearings_keep_flags(w: WorldModel, npcs: Seq<Npc>, idx: int, flag: Text)
    requires
        w.flags.contains(flag),
    ensures
        inquiry_turn(w, npcs, idx).w.flags.contains(flag),
{
    lemma_inserted_contains(w.flags, "framed_pulver"@, flag);
}

/// No fact is tried twice: convening marks it, and a marked fact is never taken
/// up.
pub proof fn law_no_fact_is_tried_twice(w: WorldModel, f: FactRecModel, later: WorldModel)
    requires
        taken_up(w) == Some(f),
    ensures
        convened(w, f).flags.contains(tried_mark(f.fact_id)),
        later.flags.contains(tried_mark(f.fact_id)) ==> (taken_up(later) matches Some(g)
            ==> g.fact_id != f.fact_id),
{
    lemma_inserted_contains(w.flags, tried_mark(f.fact_id), tried_mark(f.fact_id));
    law_the_gravest_fact_is_taken_up(later);
}

proof fn lemma_holders(mems: Seq<MemoryModel>, id: Text, n: int)
    requires
        0 <= n <= mems.len(),
    ensures
        forall|x: Text| #[trigger]
            holders(mems, id, n).contains(x) ==> exists|i: int|
                0 <= i < n && about(#[trigger] mems[i], id) && mems[i].npc == x,
        holders(mems, id, n).len() > 0 <==> gravity(mems, id, n) is Some,
    decreases n,
{
    if n > 0 {
        lemma_holders(mems, id, n - 1);
        let h = holders(mems, id, n);
        let g = holders(mems, id, n - 1);
        assert forall|x: Text| #[trigger] h.contains(x) implies exists|i: int|
            0 <= i < n && about(#[trigger] mems[i], id) && mems[i].npc == x by {
            let k = h.index_of(x);
            if about(mems[n - 1], id) && k == g.len() {
                assert(mems[n - 1].npc == x);
            } else {
                assert(g[k] == x);
                assert(g.contains(x));
            }
        }
    }
}

/// The witnesses of a hearing are people who remember the fact: at most four,
/// each once, in order of name, and at least one where anybody remembers it.
pub proof fn law_witnesses_remember(mems: Seq<MemoryModel>, id: Text)
    ensures
        ascending(called(mems, id)),
        called(mems, id).len() <= 4,
        gravity(mems, id, mems.len() as int) is Some ==> called(mems, id).len() > 0,
        forall|k: int|
            0 <= k < called(mems, id).len() ==> exists|i: int|
                0 <= i < mems.len() && about(#[trigger] mems[i], id) && mems[i].npc
                    == #[trigger] called(mems, id)[k],
{
    let hs = holders(mems, id, mems.len() as int);
    let all = inserted_all(Seq::empty(), hs);
    lemma_holders(mems, id, mems.len() as int);
    lemma_inserted_all(hs);
    if hs.len() > 0 {
        assert(hs.contains(hs[0]));
        assert(all.contains(hs[0]));
    }
    let c = called(mems, id);
    assert forall|k: int| 0 <= k < c.len() implies exists|i: int|
        0 <= i < mems.len() && about(#[trigger] mems[i], id) && mems[i].npc == #[trigger] c[k] by {
        assert(c[k] == all[k]);
        assert(all.contains(all[k]));
        assert(hs.contains(all[k]));
    }
}

// ------------------------------------------------------------------ the hearing

/// How many of the first `n` claims were challenged in vain.
pub open spec fn challenges_failed(claims: Seq<ClaimModel>, n: int) -> int
    decreases n,
{
    if n <= 0 {
        0
    } else {
        challenges_failed(claims, n - 1) + if claims[n - 1].challenged == Some(false) {
            1int
        } else {
            0
        }
    }
}

/// Whether credibility is what the challenges come to: one up for each
/// contradiction, one down for each challenge in vain.
pub open spec fn tally_kept(inq: InquiryModel) -> bool {
    inq.credibility == established(inq.claims, inq.claims.len() as int) - challenges_failed(
        inq.claims,
        inq.claims.len() as int,
    )
}

proof fn lemma_tally_same(a: Seq<ClaimModel>, b: Seq<ClaimModel>, n: int)
    requires
        0 <= n <= a.len(),
        n <= b.len(),
        forall|i: int| 0 <= i < n ==> (#[trigger] a[i]).challenged == b[i].challenged,
    ensures
        established(a, n) == established(b, n),
        challenges_failed(a, n) == challenges_failed(b, n),
    decreases n,
{
    if n > 0 {
        lemma_tally_same(a, b, n - 1);
        assert(a[n - 1].challenged == b[n - 1].challenged);
    }
}

proof fn lemma_tally_update(claims: Seq<ClaimModel>, ci: int, c: ClaimModel, n: int)
    requires
        0 <= ci < n <= claims.len(),
        claims[ci].challenged is None,
        c.challenged is Some,
    ensures
        established(claims.update(ci, c), n) - challenges_failed(claims.update(ci, c), n)
            == established(claims, n) - challenges_failed(claims, n) + if c.challenged
            == Some(true) {
            1int
        } else {
            -1
        },
    decreases n,
{
    let u = claims.update(ci, c);
    if n == ci + 1 {
        lemma_tally_same(u, claims, ci);
        assert(u[ci] == c);
        assert(c.challenged == Some(true) || c.challenged == Some(false));
    } else {
        lemma_tally_update(claims, ci, c, n - 1);
        assert(u[n - 1] == claims[n - 1]);
    }
}

/// Every choice that a hearing offers keeps the tally: credibility counts the
/// contradictions that were established against the challenges that failed.
pub proof fn law_credibility_is_the_tally(
    w: WorldModel,
    inq: InquiryModel,
    npcs: Seq<Npc>,
    idx: int,
)
    requires
        tally_kept(inq),
        0 <= idx < hearing_view(inq, npcs).choices.len(),
        hearing_view(inq, npcs).choices[idx].enabled,
    ensures
        hearing_turn(w, inq, npcs, idx).w.inquiry matches Some(after) ==> tally_kept(after),
{
    if inq.stage is Hub {
        let ci = idx - inq.witnesses.len();
        if idx < inq.witnesses.len() {
            let after = questioned(w.memories, inq, npcs, idx);
            if after.claims.len() > inq.claims.len() {
                lemma_tally_same(after.claims, inq.claims, inq.claims.len() as int);
            }
        } else if ci < inq.claims.len() {
            assert(inq.claims[ci].challenged is None);
            lemma_tally_update(
                inq.claims,
                ci,
                ClaimModel { challenged: Some(contradicts(inq, ci)), ..inq.claims[ci] },
                inq.claims.len() as int,
            );
        }
    }
}

proof fn lemma_failed_nonnegative(claims: Seq<ClaimModel>, n: int)
    ensures
        0 <= challenges_failed(claims, n),
    decreases n,
{
    if n > 0 {
        lemma_failed_nonnegative(claims, n - 1);
    }
}

/// A way out has to be won on the record: blame can be shifted only with a
/// contradiction established, and the case dismissed only with two.
pub proof fn law_verdicts_are_won_on_the_record(inq: InquiryModel, npcs: Seq<Npc>)
    requires
        inq.stage is Verdict,
        tally_kept(inq),
    ensures
        hearing_view(inq, npcs).choices.len() == 3,
        hearing_view(inq, npcs).choices[0].enabled,
        hearing_view(inq, npcs).choices[1].enabled ==> established(
            inq.claims,
            inq.claims.len() as int,
        ) >= 1,
        hearing_view(inq, npcs).choices[2].enabled ==> established(
            inq.claims,
            inq.claims.len() as int,
        ) >= 2,
{
    lemma_failed_nonnegative(inq.claims, inq.claims.len() as int);
}

/// Witnesses testify from what they really remember: a testimony is a memory
/// of the witness about the case, and none of theirs matters more.
pub proof fn law_testimony_is_remembered(mems: Seq<MemoryModel>, npc: Text, id: Text, n: int)
    requires
        0 <= n <= mems.len(),
    ensures
        testimony(mems, npc, id, n) matches Some(k) ==> {
            &&& 0 <= k < n
            &&& mems[k].npc == npc
            &&& about(mems[k], id)
            &&& forall|i: int|
                0 <= i < n && (#[trigger] mems[i]).npc == npc && about(mems[i], id)
                    ==> mems[i].importance <= mems[k].importance
        },
        testimony(mems, npc, id, n) is None ==> forall|i: int|
            0 <= i < n ==> !((#[trigger] mems[i]).npc == npc && about(mems[i], id)),
    decreases n,
{
    if n > 0 {
        law_testimony_is_remembered(mems, npc, id, n - 1);
    }
}

/// A contradiction is found exactly where what was said differs from the
/// record.
pub proof fn law_contradictions_are_differences(inq: InquiryModel, ci: int)
    requires
        0 <= ci < inq.claims.len(),
    ensures
        challenged(inq, ci).claims[ci].challenged == Some(
            inq.claims[ci].asserts != inq.case.attrs,
        ),
        challenged(inq, ci).case == inq.case,
        challenged(inq, ci).claims[ci].asserts == inq.claims[ci].asserts,
{
}

/// A verdict never leaves anybody in debt, cools suspicion but not below
/// nothing, and takes fifty shillings at the most.
pub proof fn law_verdicts_leave_no_debt(w: WorldModel, idx: int)
    requires
        0 <= w.cash_pence,
    ensures
        0 <= sentenced(w, idx).cash_pence <= w.cash_pence,
        w.cash_pence - sentenced(w, idx).cash_pence <= 600,
        0 <= sentenced(w, idx).guild_suspicion,
        0 <= w.guild_suspicion ==> sentenced(w, idx).guild_suspicion <= w.guild_suspicion,
        idx != 0 ==> sentenced(w, idx).cash_pence == w.cash_pence,
{
}

/// A hearing changes neither what people remember nor what is on the record.
pub proof fn law_hearings_do_not_change_canon(w: WorldModel, npcs: Seq<Npc>, idx: int)
    ensures
        inquiry_turn(w, npcs, idx).w.memories == w.memories,
        inquiry_turn(w, npcs, idx).w.facts == w.facts,
        inquiry_turn(w, npcs, idx).w.rng == w.rng,
{
}

/// A hearing always goes on: whatever its stage, there is a choice to take.
pub proof fn law_hearings_always_offer_a_choice(inq: InquiryModel, npcs: Seq<Npc>)
    ensures
        hearing_view(inq, npcs).choices.len() > 0,
        inq.stage is Verdict ==> hearing_view(inq, npcs).choices[0].enabled,
        !(inq.stage is Verdict) ==> hearing_view(inq, npcs).choices.last().enabled,
{
}

// ------------------------------------------------------------------- the world

/// What holds of every world: nobody is in debt or suspected less than not at
/// all, flags and standings are in order and within bounds, memories are within
/// the cap and in order, and a hearing that sits can be shown and has its tally
/// right.
pub open spec fn in_order(w: WorldModel) -> bool {
    &&& 0 <= w.cash_pence
    &&& 0 <= w.guild_suspicion
    &&& ascending(w.flags)
    &&& names_ascending(w.factions)
    &&& standings_bounded(w.factions)
    &&& memories_capped(w.memories)
    &&& ids_ascending(w.memories, w.next_memory_id)
    &&& (w.inquiry matches Some(inq) ==> hearing_sits(w) && tally_kept(inq))
}

proof fn lemma_flags_recorded_frame(w: WorldModel, flags: Seq<Text>, settlements: Seq<Settlement>)
    ensures
        ({
            let r = flags_recorded(w, flags, settlements);
            &&& r.cash_pence == w.cash_pence
            &&& r.guild_suspicion == w.guild_suspicion
            &&& r.flags == w.flags
            &&& r.factions == w.factions
            &&& r.inquiry == w.inquiry
        }),
    decreases flags.len(),
{
    if flags.len() > 0 {
        lemma_flags_recorded_frame(w, flags.drop_last(), settlements);
    }
}

/// Recording a run keeps the world in order.
pub proof fn law_recording_keeps_order(
    w: WorldModel,
    flags: Seq<Text>,
    settlements: Seq<Settlement>,
)
    requires
        in_order(w),
    ensures
        in_order(run_recorded(w, flags, settlements)),
{
    law_recording_keeps_memories_in_order(w, flags, settlements);
    if w.contract.illicit {
        lemma_flags_recorded_frame(with_memory(w, arthurs_note(w)), flags, settlements);
    } else {
        lemma_flags_recorded_frame(w, flags, settlements);
    }
}

/// Convening a hearing keeps the world in order.
pub proof fn law_convening_keeps_order(w: WorldModel, f: FactRecModel)
    requires
        in_order(w),
    ensures
        in_order(convened(w, f)),
{
    lemma_inserted_ascending(w.flags, tried_mark(f.fact_id));
}

/// Every choice that a hearing offers keeps the world in order.
pub proof fn law_hearings_keep_order(w: WorldModel, npcs: Seq<Npc>, idx: int)
    requires
        in_order(w),
        w.inquiry matches Some(inq) && 0 <= idx < hearing_view(inq, npcs).choices.len()
            && hearing_view(inq, npcs).choices[idx].enabled,
    ensures
        in_order(inquiry_turn(w, npcs, idx).w),
{
    let inq = w.inquiry->0;
    law_credibility_is_the_tally(w, inq, npcs, idx);
    if inq.stage is Verdict {
        law_verdicts_leave_no_debt(w, idx);
        lemma_inserted_ascending(w.flags, "framed_pulver"@);
        law_standings_stay_in_bounds(w.factions, "carver"@, -1);
        law_standings_stay_in_bounds(w.factions, "collective"@, 1);
    }
}

} // verus!
