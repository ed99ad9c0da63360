//! The persistent world: what outlives a run. People's memories, the record of
//! facts, the standing with the factions, and an inquiry if one sits.

use vstd::prelude::*;
use vstd::string::*;

use crate::dice::{Dice, DiceModel};
use crate::flags::FlagSet;
use crate::inquiry::{InquiryModel, InquiryState};
use crate::memory::{FactRec, FactRecModel, MemoryEntry, MemoryModel};
use crate::mission::{clamp_i64, clamped};
use crate::text::{opt_view, same_text, text_before, text_lt, views, Text};

verus! {

/// The world's clock.
pub type Tick = i64;

/// The job of the run in hand.
#[derive(Debug, PartialEq)]
pub struct Contract {
    pub cargo: String,
    pub dest_id: String,
    pub dest_name: String,
    pub illicit: bool,
}

/// The run in hand.
#[derive(Debug, PartialEq)]
pub struct Run {
    pub contract: Contract,
}

/// The state of the world.
#[derive(Debug, PartialEq)]
pub struct WorldState {
    pub tick: Tick,
    pub cash_pence: i64,
    pub guild_suspicion: i64,
    pub runs_completed: u32,
    pub run: Run,
    pub flags: FlagSet,
    pub factions: Standings,
    pub facts: Vec<FactRec>,
    pub memories: Vec<MemoryEntry>,
    pub next_memory_id: u64,
    pub inquiry: Option<InquiryState>,
    pub rng: Dice,
}

/// The model of [`Contract`].
pub struct ContractModel {
    pub cargo: Text,
    pub dest_id: Text,
    pub dest_name: Text,
    pub illicit: bool,
}

/// The model of [`WorldState`].
#[verifier::ext_equal]
pub struct WorldModel {
    pub tick: int,
    pub cash_pence: int,
    pub guild_suspicion: int,
    pub runs_completed: int,
    pub contract: ContractModel,
    pub flags: Seq<Text>,
    pub factions: Seq<(Text, int)>,
    pub facts: Seq<FactRecModel>,
    pub memories: Seq<MemoryModel>,
    pub next_memory_id: int,
    pub inquiry: Option<InquiryModel>,
    pub rng: DiceModel,
}

impl View for Contract {
    type V = ContractModel;

    open spec fn view(&self) -> ContractModel {
        ContractModel {
            cargo: self.cargo@,
            dest_id: self.dest_id@,
            dest_name: self.dest_name@,
            illicit: self.illicit,
        }
    }
}

impl View for WorldState {
    type V = WorldModel;

    open spec fn view(&self) -> WorldModel {
        WorldModel {
            tick: self.tick as int,
            cash_pence: self.cash_pence as int,
            guild_suspicion: self.guild_suspicion as int,
            runs_completed: self.runs_completed as int,
            contract: self.run.contract@,
            flags: self.flags@,
            factions: self.factions@,
            facts: views(self.facts@),
            memories: views(self.memories@),
            next_memory_id: self.next_memory_id as int,
            inquiry: opt_view(self.inquiry),
            rng: self.rng@,
        }
    }
}

// ------------------------------------------------------------------ standings

/// Standing with each faction. Its model is the list of names and values in
/// ascending order of name.
#[derive(Debug, PartialEq, Eq)]
pub struct Standings {
    entries: Vec<(String, i64)>,
}

/// The model of one entry.
pub open spec fn entry_view(e: (String, i64)) -> (Text, int) {
    (e.0@, e.1 as int)
}

impl View for Standings {
    type V = Seq<(Text, int)>;

    closed spec fn view(&self) -> Seq<(Text, int)> {
        self.entries@.map_values(|e: (String, i64)| entry_view(e))
    }
}

/// Whether the names strictly ascend.
pub open spec fn names_ascending(s: Seq<(Text, int)>) -> bool {
    forall|i: int, j: int| 0 <= i < j < s.len() ==> text_lt((#[trigger] s[i]).0, (#[trigger] s[j]).0)
}

/// The standing with `name`: nothing, where there is none yet.
pub open spec fn standing(s: Seq<(Text, int)>, name: Text) -> int
    decreases s.len(),
{
    if s.len() == 0 {
        0
    } else if s[0].0 == name {
        s[0].1
    } else {
        standing(s.drop_first(), name)
    }
}

/// The standings with that of `name` moved by `delta`, within five either way.
pub open spec fn shifted(s: Seq<(Text, int)>, name: Text, delta: int) -> Seq<(Text, int)>
    decreases s.len(),
{
    if s.len() == 0 {
        seq![(name, clamped(delta, -5, 5))]
    } else if s[0].0 == name {
        seq![(name, clamped(s[0].1 + delta, -5, 5))] + s.drop_first()
    } else if text_lt(name, s[0].0) {
        seq![(name, clamped(delta, -5, 5))] + s
    } else {
        seq![s[0]] + shifted(s.drop_first(), name, delta)
    }
}

impl Standings {
    /// No standing with anybody.
    pub fn new() -> (r: Self)
        ensures
            r@ == Seq::<(Text, int)>::empty(),
    {
        let r = Standings { entries: Vec::new() };
        assert(r@ =~= Seq::<(Text, int)>::empty());
        r
    }

    /// The standing with `name`.
    pub fn get(&self, name: &str) -> (r: i64)
        ensures
            r == standing(self@, name@),
    {
        let ghost s = self@;
        let mut i: usize = 0;
        assert(s.skip(0) =~= s);
        while i < self.entries.len()
            invariant
                s == self@,
                i <= self.entries@.len(),
                standing(s, name@) == standing(s.skip(i as int), name@),
            decreases self.entries@.len() - i,
        {
            assert(s.skip(i as int)[0] == entry_view(self.entries@[i as int]));
            if same_text(self.entries[i].0.as_str(), name) {
                return self.entries[i].1;
            }
            assert(s.skip(i as int).drop_first() =~= s.skip(i + 1));
            i += 1;
        }
        0
    }

    /// Moves the standing with `name` by `delta`, within five either way.
    pub fn shift(&mut self, name: &str, delta: i64)
        requires
            i64::MIN <= standing(old(self)@, name@) + delta <= i64::MAX,
        ensures
            final(self)@ == shifted(old(self)@, name@, delta as int),
    {
        let ghost s = self@;
        let ghost t = name@;
        let mut i: usize = 0;
        assert(s.skip(0) =~= s);
        assert(s.take(0) + shifted(s, t, delta as int) =~= shifted(s, t, delta as int));
        while i < self.entries.len()
            invariant
                s == self@,
                s == old(self)@,
                t == name@,
                i <= self.entries@.len(),
                i64::MIN <= standing(s, t) + delta <= i64::MAX,
                standing(s, t) == standing(s.skip(i as int), t),
                shifted(s, t, delta as int) == s.take(i as int) + shifted(
                    s.skip(i as int),
                    t,
                    delta as int,
                ),
            ensures
                i == s.len() || (s[i as int].0 != t && text_lt(t, s[i as int].0)),
            decreases self.entries@.len() - i,
        {
            assert(s.skip(i as int)[0] == s[i as int]);
            assert(s[i as int] == entry_view(self.entries@[i as int]));
            if same_text(self.entries[i].0.as_str(), name) {
                let v: i64 = clamp_i64(self.entries[i].1 + delta, -5, 5);
                self.entries.set(i, (name.to_string(), v));
                assert(self@ =~= s.take(i as int) + (seq![(t, v as int)] + s.skip(
                    i as int,
                ).drop_first()));
                return ;
            }
            if text_before(name, self.entries[i].0.as_str()) {
                break ;
            }
            assert(s.skip(i as int).drop_first() =~= s.skip(i + 1));
            assert(s.take(i as int) + (seq![s[i as int]] + shifted(s.skip(i + 1), t, delta as int))
                =~= s.take(i + 1) + shifted(s.skip(i + 1), t, delta as int));
            i += 1;
        }
        let ghost k = i as int;
        let v: i64 = clamp_i64(delta, -5, 5);
        assert(shifted(s.skip(k), t, delta as int) =~= seq![(t, v as int)] + s.skip(k));
        self.entries.insert(i, (name.to_string(), v));
        assert(self@ =~= s.take(k) + (seq![(t, v as int)] + s.skip(k)));
    }
}

} // verus!
