//! Which storylets can come up on a run, and the lazy, weighted draw of the
//! next one.

use vstd::prelude::*;
use vstd::string::*;

use crate::content::{ContentDb, Gates, Storylet};
use crate::dice::draw_small;
use crate::mission::{Mission, MissionModel};
use crate::text::{same_text, views, Text};

verus! {

// --------------------------------------------------------------------- gates

/// Whether the gates let the run through: every gate on a run that is there
/// must hold.
pub open spec fn gates_open(g: Gates, m: MissionModel) -> bool {
    &&& (g.min_heat matches Some(v) ==> m.heat >= v)
    &&& (g.max_heat matches Some(v) ==> m.heat <= v)
    &&& (g.min_wear matches Some(v) ==> m.wear >= v)
    &&& (g.max_wear matches Some(v) ==> m.wear <= v)
    &&& (g.illicit matches Some(v) ==> m.illicit == v)
    &&& (g.flag matches Some(f) ==> m.flags.contains(f@))
    &&& (g.not_flag matches Some(f) ==> !m.flags.contains(f@))
    &&& (g.terrains@.len() == 0 || views(g.terrains@).contains(m.terrain))
}

fn lists_text(list: &Vec<String>, t: &str) -> (r: bool)
    ensures
        r == views(list@).contains(t@),
{
    let mut i: usize = 0;
    while i < list.len()
        invariant
            i <= list@.len(),
            forall|j: int| 0 <= j < i ==> views(list@)[j] != t@,
        decreases list@.len() - i,
    {
        if same_text(list[i].as_str(), t) {
            assert(views(list@)[i as int] == t@);
            return true;
        }
        i += 1;
    }
    false
}

/// Whether the gates let the run through.
pub fn gates_pass(g: &Gates, m: &Mission) -> (r: bool)
    ensures
        r == gates_open(*g, m@),
{
    if let Some(v) = g.min_heat {
        if m.heat < v {
            return false;
        }
    }
    if let Some(v) = g.max_heat {
        if m.heat > v {
            return false;
        }
    }
    if let Some(v) = g.min_wear {
        if m.wear < v {
            return false;
        }
    }
    if let Some(v) = g.max_wear {
        if m.wear > v {
            return false;
        }
    }
    if let Some(v) = g.illicit {
        if m.illicit != v {
            return false;
        }
    }
    if let Some(f) = &g.flag {
        if !m.flags.contains(f.as_str()) {
            return false;
        }
    }
    if let Some(f) = &g.not_flag {
        if m.flags.contains(f.as_str()) {
            return false;
        }
    }
    g.terrains.len() == 0 || lists_text(&g.terrains, m.terrain.as_str())
}

// ----------------------------------------------------------------- storylets

/// The first storylet with the id `id`.
pub open spec fn find_storylet(storylets: Seq<Storylet>, id: Text) -> Option<Storylet>
    decreases storylets.len(),
{
    if storylets.len() == 0 {
        None
    } else if storylets[0].id@ == id {
        Some(storylets[0])
    } else {
        find_storylet(storylets.drop_first(), id)
    }
}

/// The first storylet with the id `id`.
pub fn storylet<'c>(content: &'c ContentDb, id: &str) -> (r: Option<&'c Storylet>)
    ensures
        match r {
            Some(st) => find_storylet(content.storylets@, id@) == Some(*st),
            None => find_storylet(content.storylets@, id@) is None,
        },
{
    let ghost all = content.storylets@;
    let mut i: usize = 0;
    assert(all.skip(0) =~= all);
    while i < content.storylets.len()
        invariant
            all == content.storylets@,
            i <= all.len(),
            find_storylet(all, id@) == find_storylet(all.skip(i as int), id@),
        decreases all.len() - i,
    {
        if same_text(content.storylets[i].id.as_str(), id) {
            return Some(&content.storylets[i]);
        }
        assert(all.skip(i as int).drop_first() =~= all.skip(i + 1));
        i += 1;
    }
    None
}

/// The template of the storylet with the id `id`.
pub open spec fn template_for(storylets: Seq<Storylet>, id: Text) -> Option<Text> {
    match find_storylet(storylets, id) {
        Some(st) => Some(st.template@),
        None => None,
    }
}

/// The template of the storylet with the id `id`.
pub fn template_of<'c>(content: &'c ContentDb, id: &str) -> (r: Option<&'c str>)
    ensures
        match r {
            Some(t) => template_for(content.storylets@, id@) == Some(t@),
            None => template_for(content.storylets@, id@) is None,
        },
{
    match storylet(content, id) {
        Some(st) => Some(st.template.as_str()),
        None => None,
    }
}

// ----------------------------------------------------------------- beat draw

/// Whether one of the beats of this run already had the template `t`.
pub open spec fn template_used(beats: Seq<Text>, storylets: Seq<Storylet>, t: Text) -> bool {
    exists|i: int| 0 <= i < beats.len() && template_for(storylets, #[trigger] beats[i]) == Some(t)
}

/// Whether the storylet can come up next.
pub open spec fn eligible(m: MissionModel, storylets: Seq<Storylet>, st: Storylet) -> bool {
    gates_open(st.requires, m) && !template_used(m.beats, storylets, st.template@)
}

/// The storylets that can come up next, in content order.
pub open spec fn pool(m: MissionModel, storylets: Seq<Storylet>) -> Seq<Storylet> {
    storylets.filter(|st: Storylet| eligible(m, storylets, st))
}

/// A storylet's weight in the draw: at least 1.
pub open spec fn heft(st: Storylet) -> int {
    if st.weight == 0 {
        1
    } else {
        st.weight as int
    }
}

/// The weights of the storylets, added up.
pub open spec fn total_heft(p: Seq<Storylet>) -> int
    decreases p.len(),
{
    if p.len() == 0 {
        0
    } else {
        total_heft(p.drop_last()) + heft(p.last())
    }
}

/// Where a pick falls: the storylet whose share of `0..total` holds it, where
/// the shares lie side by side in order.
pub open spec fn share_of(p: Seq<Storylet>, pick: int) -> Option<Storylet>
    decreases p.len(),
{
    if p.len() == 0 {
        None
    } else if pick < heft(p[0]) {
        Some(p[0])
    } else {
        share_of(p.drop_first(), pick - heft(p[0]))
    }
}

/// The storylet that a pick selects from a pool.
pub open spec fn picked(p: Seq<Storylet>, pick: int) -> Option<Storylet> {
    if p.len() == 0 {
        None
    } else {
        match share_of(p, pick) {
            Some(st) => Some(st),
            None => Some(p[0]),
        }
    }
}

fn uses_template(m: &Mission, content: &ContentDb, t: &str) -> (r: bool)
    ensures
        r == template_used(m@.beats, content.storylets@, t@),
{
    let mut i: usize = 0;
    while i < m.beats.len()
        invariant
            i <= m.beats@.len(),
            forall|j: int|
                0 <= j < i ==> template_for(content.storylets@, #[trigger] m@.beats[j]) != Some(t@),
        decreases m.beats@.len() - i,
    {
        assert(m@.beats[i as int] == m.beats@[i as int]@);
        match template_of(content, m.beats[i].as_str()) {
            Some(u) => {
                if same_text(u, t) {
                    return true;
                }
            },
            None => {},
        }
        i += 1;
    }
    false
}

fn is_eligible(m: &Mission, content: &ContentDb, st: &Storylet) -> (r: bool)
    ensures
        r == eligible(m@, content.storylets@, *st),
{
    gates_pass(&st.requires, m) && !uses_template(m, content, st.template.as_str())
}

fn weight_of(st: &Storylet) -> (r: u32)
    ensures
        r == heft(*st),
{
    if st.weight == 0 {
        1
    } else {
        st.weight
    }
}

proof fn lemma_heft_prefix(p: Seq<Storylet>, k: int)
    requires
        0 <= k <= p.len(),
    ensures
        0 <= total_heft(p.take(k)) <= total_heft(p),
    decreases p.len() - k,
{
    if k < p.len() {
        lemma_heft_prefix(p, k + 1);
        assert(p.take(k + 1).drop_last() =~= p.take(k));
        lemma_heft_nonnegative(p.take(k));
    } else {
        assert(p.take(k) =~= p);
        lemma_heft_nonnegative(p);
    }
}

proof fn lemma_heft_nonnegative(p: Seq<Storylet>)
    ensures
        0 <= total_heft(p),
        p.len() > 0 ==> 0 < total_heft(p),
    decreases p.len(),
{
    if p.len() > 0 {
        lemma_heft_nonnegative(p.drop_last());
    }
}

/// Filtering a longer prefix only adds to the end.
proof fn lemma_filter_step<A>(s: Seq<A>, f: spec_fn(A) -> bool, k: int)
    requires
        0 <= k < s.len(),
    ensures
        s.take(k + 1).filter(f) == if f(s[k]) {
            s.take(k).filter(f).push(s[k])
        } else {
            s.take(k).filter(f)
        },
{
    reveal(Seq::filter);
    assert(s.take(k + 1).drop_last() =~= s.take(k));
}

/// The filter of a prefix is a prefix of the filter.
proof fn lemma_filter_prefix<A>(s: Seq<A>, f: spec_fn(A) -> bool, k: int)
    requires
        0 <= k <= s.len(),
    ensures
        s.take(k).filter(f).len() <= s.filter(f).len(),
        s.filter(f).take(s.take(k).filter(f).len() as int) == s.take(k).filter(f),
    decreases s.len() - k,
{
    if k < s.len() {
        lemma_filter_prefix(s, f, k + 1);
        lemma_filter_step(s, f, k);
        let small = s.take(k).filter(f);
        let big = s.take(k + 1).filter(f);
        assert(s.filter(f).take(small.len() as int) =~= big.take(small.len() as int));
        assert(big.take(small.len() as int) =~= small);
    } else {
        assert(s.take(k) =~= s);
        assert(s.filter(f).take(s.filter(f).len() as int) =~= s.filter(f));
    }
}

/// The weights of the storylets that can come up next, added up.
pub fn pool_weight(m: &Mission, content: &ContentDb) -> (r: u32)
    requires
        total_heft(pool(m@, content.storylets@)) <= u32::MAX,
    ensures
        r == total_heft(pool(m@, content.storylets@)),
        r == 0 <==> pool(m@, content.storylets@).len() == 0,
{
    let ghost all = content.storylets@;
    let ghost f = |st: Storylet| eligible(m@, all, st);
    let ghost p = pool(m@, all);
    assert(p == all.filter(f));
    let mut sum: u32 = 0;
    let mut i: usize = 0;
    assert(all.take(0).filter(f) =~= Seq::empty()) by {
        reveal(Seq::filter);
    }
    while i < content.storylets.len()
        invariant
            all == content.storylets@,
            f == (|st: Storylet| eligible(m@, all, st)),
            p == all.filter(f),
            total_heft(p) <= u32::MAX,
            i <= all.len(),
            sum == total_heft(all.take(i as int).filter(f)),
        decreases all.len() - i,
    {
        proof {
            lemma_filter_step(all, f, i as int);
            lemma_filter_prefix(all, f, i + 1);
            let big = all.take(i + 1).filter(f);
            lemma_heft_prefix(p, big.len() as int);
            let small = all.take(i as int).filter(f);
            assert(small.push(all[i as int]).drop_last() =~= small);
        }
        if is_eligible(m, content, &content.storylets[i]) {
            sum = sum + weight_of(&content.storylets[i]);
        }
        i += 1;
    }
    assert(all.take(i as int) =~= all);
    proof {
        lemma_heft_nonnegative(p);
    }
    sum
}

/// Whether the weights of the storylets that can come up next can be added up
/// in 32 bits.
pub fn pool_weight_fits(m: &Mission, content: &ContentDb) -> (r: bool)
    ensures
        r == (total_heft(pool(m@, content.storylets@)) <= u32::MAX),
{
    let ghost all = content.storylets@;
    let ghost f = |st: Storylet| eligible(m@, all, st);
    let ghost p = pool(m@, all);
    assert(p == all.filter(f));
    let mut sum: u64 = 0;
    let mut i: usize = 0;
    assert(all.take(0).filter(f) =~= Seq::empty()) by {
        reveal(Seq::filter);
    }
    while i < content.storylets.len()
        invariant
            all == content.storylets@,
            f == (|st: Storylet| eligible(m@, all, st)),
            p == all.filter(f),
            p == pool(m@, all),
            i <= all.len(),
            sum == total_heft(all.take(i as int).filter(f)),
            sum <= u32::MAX,
        decreases all.len() - i,
    {
        proof {
            lemma_filter_step(all, f, i as int);
            lemma_filter_prefix(all, f, i + 1);
            let big = all.take(i + 1).filter(f);
            lemma_heft_prefix(p, big.len() as int);
            let small = all.take(i as int).filter(f);
            assert(small.push(all[i as int]).drop_last() =~= small);
        }
        if is_eligible(m, content, &content.storylets[i]) {
            sum = sum + weight_of(&content.storylets[i]) as u64;
            if sum > u32::MAX as u64 {
                return false;
            }
        }
        i += 1;
    }
    assert(all.take(i as int) =~= all);
    true
}

/// The storylet that a pick selects among those that can come up next: its id.
/// `None` when the pool is dry.
pub fn beat_at(m: &Mission, content: &ContentDb, pick: u32) -> (r: Option<String>)
    ensures
        match r {
            Some(id) => picked(pool(m@, content.storylets@), pick as int) matches Some(st) && st.id@
                == id@,
            None => pool(m@, content.storylets@).len() == 0,
        },
{
    let ghost all = content.storylets@;
    let ghost f = |st: Storylet| eligible(m@, all, st);
    let ghost p = pool(m@, all);
    assert(p == all.filter(f));
    let mut left: u32 = pick;
    let mut first: Option<usize> = None;
    let mut i: usize = 0;
    assert(all.take(0).filter(f) =~= Seq::empty()) by {
        reveal(Seq::filter);
    }
    assert(p.skip(0) =~= p);
    while i < content.storylets.len()
        invariant
            all == content.storylets@,
            f == (|st: Storylet| eligible(m@, all, st)),
            p == pool(m@, all),
            p == all.filter(f),
            i <= all.len(),
            ({
                let k = all.take(i as int).filter(f).len() as int;
                &&& 0 <= k <= p.len()
                &&& share_of(p, pick as int) == share_of(p.skip(k), left as int)
                &&& match first {
                    Some(q) => q < all.len() && k > 0 && p[0] == all[q as int],
                    None => k == 0,
                }
            }),
        decreases all.len() - i,
    {
        let ghost k = all.take(i as int).filter(f).len() as int;
        proof {
            lemma_filter_step(all, f, i as int);
            lemma_filter_prefix(all, f, i as int);
            lemma_filter_prefix(all, f, i + 1);
        }
        if is_eligible(m, content, &content.storylets[i]) {
            assert(p.take(k + 1)[k] == all[i as int]);
            assert(p[k] == all[i as int]);
            assert(p.skip(k)[0] == p[k]);
            if first.is_none() {
                first = Some(i);
            }
            let w = weight_of(&content.storylets[i]);
            if left < w {
                return Some(content.storylets[i].id.clone());
            }
            assert(p.skip(k).drop_first() =~= p.skip(k + 1));
            left = left - w;
        }
        i += 1;
    }
    assert(all.take(i as int) =~= all);
    assert(p.skip(p.len() as int) =~= Seq::empty());
    match first {
        Some(q) => Some(content.storylets[q].id.clone()),
        None => None,
    }
}

/// Lazily draw the next beat given current state: eligible, terrain-matched,
/// no repeated template this run, weighted. None when the pool is dry, and
/// then nothing is drawn from the stream.
pub fn draw_next(m: &mut Mission, content: &ContentDb) -> (r: Option<String>)
    requires
        total_heft(pool(old(m)@, content.storylets@)) <= u32::MAX,
    ensures
        ({
            let p = pool(old(m)@, content.storylets@);
            if p.len() == 0 {
                r is None && final(m)@ == old(m)@
            } else {
                let d = draw_small(old(m)@.rng, 0, (total_heft(p) - 1) as u32);
                &&& final(m)@ == (MissionModel { rng: d.1, ..old(m)@ })
                &&& r is Some
                &&& picked(p, d.0 as int) is Some
                &&& r->0@ == picked(p, d.0 as int)->0.id@
            }
        }),
{
    let total = pool_weight(m, content);
    if total == 0 {
        return None;
    }
    let ghost p = pool(m@, content.storylets@);
    let pick = m.rng.between_small(0, total - 1);
    assert(pool(m@, content.storylets@) =~= p) by {
        lemma_pool_ignores_rng(*old(m), *m, content.storylets@);
    }
    beat_at(m, content, pick)
}

proof fn lemma_pool_ignores_rng(a: Mission, b: Mission, storylets: Seq<Storylet>)
    requires
        b@ == (MissionModel { rng: b@.rng, ..a@ }),
    ensures
        pool(a@, storylets) == pool(b@, storylets),
{
    let f = |st: Storylet| eligible(a@, storylets, st);
    let g = |st: Storylet| eligible(b@, storylets, st);
    assert(f =~= g);
}

} // verus!
