//! A set of flag names, kept in ascending order.

use vstd::prelude::*;

use crate::text::{
    clone_texts, lemma_text_lt_irreflexive, lemma_text_lt_total, lemma_text_lt_transitive,
    same_text, text_before, text_lt, views, Text,
};

verus! {

/// A set of names. Its model is the sequence of its members in ascending order.
#[derive(Debug, PartialEq, Eq)]
pub struct FlagSet {
    items: Vec<String>,
}

impl View for FlagSet {
    type V = Seq<Text>;

    closed spec fn view(&self) -> Seq<Text> {
        views(self.items@)
    }
}

/// Whether each text strictly precedes those behind it.
pub open spec fn ascending(s: Seq<Text>) -> bool {
    forall|i: int, j: int| 0 <= i < j < s.len() ==> text_lt(#[trigger] s[i], #[trigger] s[j])
}

/// `s` with `t` put at its place, unless it is there already.
pub open spec fn inserted(s: Seq<Text>, t: Text) -> Seq<Text>
    decreases s.len(),
{
    if s.len() == 0 {
        seq![t]
    } else if s[0] == t {
        s
    } else if text_lt(t, s[0]) {
        seq![t] + s
    } else {
        seq![s[0]] + inserted(s.drop_first(), t)
    }
}

/// The members after putting in each of `ts` in turn.
pub open spec fn inserted_all(s: Seq<Text>, ts: Seq<Text>) -> Seq<Text>
    decreases ts.len(),
{
    if ts.len() == 0 {
        s
    } else {
        inserted(inserted_all(s, ts.drop_last()), ts.last())
    }
}

/// Inserting a name adds that name and no other.
pub proof fn lemma_inserted_contains(s: Seq<Text>, t: Text, x: Text)
    ensures
        inserted(s, t).contains(x) <==> (s.contains(x) || x == t),
    decreases s.len(),
{
    let r = inserted(s, t);
    if s.len() == 0 {
        assert(r[0] == t);
    } else if s[0] == t {
        assert(s.contains(t));
    } else if text_lt(t, s[0]) {
        assert(r[0] == t);
        if s.contains(x) {
            let k = s.index_of(x);
            assert(r[k + 1] == x);
        }
        if r.contains(x) && x != t {
            let k = r.index_of(x);
            assert(s[k - 1] == x);
        }
    } else {
        let d = s.drop_first();
        lemma_inserted_contains(d, t, x);
        let rd = inserted(d, t);
        assert(r[0] == s[0]);
        if r.contains(x) {
            let k = r.index_of(x);
            if k > 0 {
                assert(rd[k - 1] == x);
                assert(rd.contains(x));
                if d.contains(x) {
                    let q = d.index_of(x);
                    assert(s[q + 1] == x);
                }
            } else {
                assert(s[0] == x);
            }
        }
        if s.contains(x) || x == t {
            if s.contains(x) {
                let k = s.index_of(x);
                if k > 0 {
                    assert(d[k - 1] == x);
                    assert(d.contains(x));
                }
            }
            if rd.contains(x) {
                let q = rd.index_of(x);
                assert(r[q + 1] == x);
            }
        }
    }
}

/// Insertion keeps the ascending order, so no name occurs twice.
pub proof fn lemma_inserted_ascending(s: Seq<Text>, t: Text)
    requires
        ascending(s),
    ensures
        ascending(inserted(s, t)),
    decreases s.len(),
{
    let r = inserted(s, t);
    if s.len() == 0 || s[0] == t {
    } else if text_lt(t, s[0]) {
        assert forall|i: int, j: int| 0 <= i < j < r.len() implies text_lt(
            #[trigger] r[i],
            #[trigger] r[j],
        ) by {
            if i == 0 {
                if j > 1 {
                    lemma_text_lt_transitive(t, s[0], s[j - 1]);
                }
            } else {
                assert(r[i] == s[i - 1] && r[j] == s[j - 1]);
            }
        }
    } else {
        let d = s.drop_first();
        let rd = inserted(d, t);
        assert(ascending(d)) by {
            assert forall|i: int, j: int| 0 <= i < j < d.len() implies text_lt(
                #[trigger] d[i],
                #[trigger] d[j],
            ) by {
                assert(d[i] == s[i + 1] && d[j] == s[j + 1]);
            }
        }
        lemma_inserted_ascending(d, t);
        assert forall|i: int, j: int| 0 <= i < j < r.len() implies text_lt(
            #[trigger] r[i],
            #[trigger] r[j],
        ) by {
            assert(r[j] == rd[j - 1]);
            if i == 0 {
                assert(rd.contains(rd[j - 1]));
                lemma_inserted_contains(d, t, rd[j - 1]);
                if rd[j - 1] == t {
                    lemma_text_lt_total(s[0], t);
                } else {
                    let k = d.index_of(rd[j - 1]);
                    assert(s[k + 1] == rd[j - 1]);
                }
            } else {
                assert(r[i] == rd[i - 1]);
            }
        }
    }
}

/// Inserting one after another gives those that were inserted, in order, each
/// once.
pub proof fn lemma_inserted_all(ts: Seq<Text>)
    ensures
        ascending(inserted_all(Seq::empty(), ts)),
        forall|x: Text| #[trigger]
            inserted_all(Seq::empty(), ts).contains(x) <==> ts.contains(x),
    decreases ts.len(),
{
    if ts.len() > 0 {
        let d = ts.drop_last();
        lemma_inserted_all(d);
        let s = inserted_all(Seq::empty(), d);
        lemma_inserted_ascending(s, ts.last());
        assert forall|x: Text| #[trigger]
            inserted_all(Seq::empty(), ts).contains(x) <==> ts.contains(x) by {
            lemma_inserted_contains(s, ts.last(), x);
            if ts.contains(x) {
                let k = ts.index_of(x);
                if k < d.len() {
                    assert(d[k] == x);
                    assert(d.contains(x));
                }
            }
            if d.contains(x) {
                assert(ts[d.index_of(x)] == x);
            }
            assert(ts[ts.len() - 1] == ts.last());
            assert(s.contains(x) <==> d.contains(x));
        }
    }
}

/// An ascending sequence holds nothing twice.
pub proof fn lemma_ascending_no_duplicates(s: Seq<Text>)
    requires
        ascending(s),
    ensures
        s.no_duplicates(),
{
    assert forall|i: int, j: int| 0 <= i < s.len() && 0 <= j < s.len() && i != j implies s[i]
        != s[j] by {
        lemma_text_lt_irreflexive(s[i]);
        if i < j {
            assert(text_lt(s[i], s[j]));
        } else {
            assert(text_lt(s[j], s[i]));
        }
    }
}

impl FlagSet {
    /// The empty set.
    pub fn new() -> (r: Self)
        ensures
            r@ == Seq::<Text>::empty(),
            ascending(r@),
    {
        let r = FlagSet { items: Vec::new() };
        assert(r@ =~= Seq::<Text>::empty());
        r
    }

    /// The number of members.
    pub fn len(&self) -> (r: usize)
        ensures
            r == self@.len(),
    {
        self.items.len()
    }

    /// The `i`-th member in ascending order.
    pub fn get(&self, i: usize) -> (r: &String)
        requires
            i < self@.len(),
        ensures
            r@ == self@[i as int],
    {
        &self.items[i]
    }

    /// The members in ascending order.
    pub fn items(&self) -> (r: &Vec<String>)
        ensures
            views(r@) == self@,
    {
        &self.items
    }

    /// Whether `name` is a member.
    pub fn contains(&self, name: &str) -> (r: bool)
        ensures
            r == self@.contains(name@),
    {
        let mut i: usize = 0;
        while i < self.items.len()
            invariant
                i <= self.items.len(),
                forall|j: int| 0 <= j < i ==> self@[j] != name@,
            decreases self.items.len() - i,
        {
            if same_text(self.items[i].as_str(), name) {
                assert(self@[i as int] == name@);
                return true;
            }
            i += 1;
        }
        false
    }

    /// Puts `name` in. True if it was not there.
    pub fn insert(&mut self, name: String) -> (added: bool)
        ensures
            final(self)@ == inserted(old(self)@, name@),
            added == (final(self)@ != old(self)@),
            ascending(old(self)@) ==> ascending(final(self)@),
    {
        let ghost s = self@;
        let ghost t = name@;
        proof {
            if ascending(s) {
                lemma_inserted_ascending(s, t);
            }
        }
        let mut i: usize = 0;
        assert(s.skip(0) =~= s);
        assert(s.take(0) + inserted(s, t) =~= inserted(s, t));
        while i < self.items.len()
            invariant
                s == self@,
                t == name@,
                i <= self.items.len(),
                inserted(s, t) == s.take(i as int) + inserted(s.skip(i as int), t),
            ensures
                i == s.len() || (s[i as int] != t && text_lt(t, s[i as int])),
            decreases self.items.len() - i,
        {
            assert(s.skip(i as int)[0] == s[i as int]);
            if same_text(self.items[i].as_str(), name.as_str()) {
                assert(s.take(i as int) + s.skip(i as int) =~= s);
                return false;
            }
            if text_before(name.as_str(), self.items[i].as_str()) {
                break ;
            }
            assert(s.skip(i as int).drop_first() =~= s.skip(i + 1));
            assert(s.take(i as int) + (seq![s[i as int]] + inserted(s.skip(i + 1), t)) =~= s.take(
                i + 1,
            ) + inserted(s.skip(i + 1), t));
            i += 1;
        }
        let ghost k = i as int;
        assert(inserted(s, t) == s.take(k) + inserted(s.skip(k), t));
        assert(inserted(s.skip(k), t) =~= seq![t] + s.skip(k));
        let ghost before = self.items@;
        self.items.insert(i, name);
        assert(self.items@ == before.insert(k, name));
        assert(self@ =~= s.take(k) + (seq![t] + s.skip(k)));
        assert(self@.len() == s.len() + 1);
        true
    }
}

impl Clone for FlagSet {
    fn clone(&self) -> (r: Self)
        ensures
            r@ == self@,
    {
        FlagSet { items: clone_texts(&self.items) }
    }
}

} // verus!
