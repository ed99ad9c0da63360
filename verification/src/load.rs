//! Putting parsed content files together, in an order that does not depend on
//! the file system.

use vstd::prelude::*;
use vstd::string::*;

use crate::content::{
    content_errors, validate, Cargo, ContentDb, Npc, Settlement, Storylet, Terrain,
};
use crate::text::{
    joined, lemma_text_lt_irreflexive, lemma_text_lt_total, lemma_text_lt_transitive, text_before,
    text_lt, Text,
};

verus! {

// ------------------------------------------------------------- parsed files

/// What `world.toml` holds.
#[derive(Clone, Debug, Default, PartialEq)]
pub struct WorldFile {
    pub settlements: Vec<Settlement>,
    pub terrains: Vec<Terrain>,
    pub cargoes: Vec<Cargo>,
    pub banned_phrases: Vec<String>,
}

/// What a file of storylets holds.
#[derive(Clone, Debug, Default, PartialEq)]
pub struct StoryletFile {
    pub storylet: Vec<Storylet>,
}

/// What a file of people holds.
#[derive(Clone, Debug, Default, PartialEq)]
pub struct NpcFile {
    pub npc: Vec<Npc>,
}

// ------------------------------------------------------------ sorting by id

/// A value that carries an id.
pub trait Identified: Sized {
    spec fn key(&self) -> Text;

    fn id(&self) -> (r: &String)
        ensures
            r@ == self.key(),
    ;
}

impl Identified for Storylet {
    open spec fn key(&self) -> Text {
        self.id@
    }

    fn id(&self) -> (r: &String) {
        &self.id
    }
}

impl Identified for Npc {
    open spec fn key(&self) -> Text {
        self.id@
    }

    fn id(&self) -> (r: &String) {
        &self.id
    }
}

/// Whether no value stands behind one whose id comes later.
pub open spec fn ordered_by_id<T: Identified>(s: Seq<T>) -> bool {
    forall|i: int, j: int|
        0 <= i < j < s.len() ==> !text_lt((#[trigger] s[j]).key(), (#[trigger] s[i]).key())
}

/// The values with the id `k`, in order.
pub open spec fn with_id<T: Identified>(s: Seq<T>, k: Text) -> Seq<T> {
    s.filter(|t: T| t.key() == k)
}

/// `out` is `s` ordered by id, values with the same id in their old order.
pub open spec fn is_stable_sort<T: Identified>(s: Seq<T>, out: Seq<T>) -> bool {
    &&& ordered_by_id(out)
    &&& out.to_multiset() == s.to_multiset()
    &&& forall|k: Text| #[trigger] with_id(out, k) == with_id(s, k)
}

/// `s` with `x` put in front of the first value whose id comes after its own.
pub open spec fn placed<T: Identified>(s: Seq<T>, x: T) -> Seq<T>
    decreases s.len(),
{
    if s.len() == 0 {
        seq![x]
    } else if text_lt(x.key(), s[0].key()) {
        seq![x] + s
    } else {
        seq![s[0]] + placed(s.drop_first(), x)
    }
}

/// The stable ordering of `s` by id.
pub open spec fn sorted_by_id<T: Identified>(s: Seq<T>) -> Seq<T>
    decreases s.len(),
{
    if s.len() == 0 {
        s
    } else {
        placed(sorted_by_id(s.drop_last()), s.last())
    }
}

/// `placed` keeps the values, one more among them.
proof fn lemma_placed_split<T: Identified>(s: Seq<T>, x: T) -> (k: int)
    ensures
        0 <= k <= s.len(),
        placed(s, x) == s.take(k) + seq![x] + s.skip(k),
        k < s.len() ==> text_lt(x.key(), s[k].key()),
        forall|i: int| 0 <= i < k ==> !text_lt(x.key(), (#[trigger] s[i]).key()),
    decreases s.len(),
{
    if s.len() == 0 {
        assert(placed(s, x) =~= s.take(0) + seq![x] + s.skip(0));
        0
    } else if text_lt(x.key(), s[0].key()) {
        assert(placed(s, x) =~= s.take(0) + seq![x] + s.skip(0));
        0
    } else {
        let d = s.drop_first();
        let q = lemma_placed_split(d, x);
        assert forall|i: int| 0 <= i < q + 1 implies !text_lt(
            x.key(),
            (#[trigger] s[i]).key(),
        ) by {
            if i > 0 {
                assert(d[i - 1] == s[i]);
            }
        }
        assert(placed(s, x) =~= s.take(q + 1) + seq![x] + s.skip(q + 1));
        q + 1
    }
}

proof fn lemma_filter_concat<T: Identified>(a: Seq<T>, b: Seq<T>, k: Text)
    ensures
        with_id(a + b, k) == with_id(a, k) + with_id(b, k),
{
    Seq::filter_distributes_over_add(a, b, |t: T| t.key() == k);
}

/// Placing a value keeps an ordered sequence ordered, and puts the value
/// behind those with its own id.
proof fn lemma_placed<T: Identified>(s: Seq<T>, x: T)
    requires
        ordered_by_id(s),
    ensures
        ordered_by_id(placed(s, x)),
        placed(s, x).to_multiset() == s.push(x).to_multiset(),
        forall|k: Text| #[trigger] with_id(placed(s, x), k) == with_id(s.push(x), k),
{
    broadcast use vstd::seq_lib::group_to_multiset_ensures;

    let p = lemma_placed_split(s, x);
    let r = placed(s, x);
    assert(r == s.take(p) + seq![x] + s.skip(p));
    assert forall|i: int, j: int| 0 <= i < j < r.len() implies !text_lt(
        (#[trigger] r[j]).key(),
        (#[trigger] r[i]).key(),
    ) by {
        if j < p {
            assert(r[i] == s[i] && r[j] == s[j]);
        } else if i < p && j == p {
            assert(r[i] == s[i]);
        } else if i < p {
            assert(r[i] == s[i] && r[j] == s[j - 1]);
        } else if i == p {
            assert(r[j] == s[j - 1]);
            // x < s[p] <= s[j - 1]
            if text_lt(s[j - 1].key(), x.key()) {
                lemma_text_lt_transitive(s[j - 1].key(), x.key(), s[p].key());
                if j - 1 == p {
                    lemma_text_lt_irreflexive(s[p].key());
                }
            }
        } else {
            assert(r[i] == s[i - 1] && r[j] == s[j - 1]);
        }
    }
    assert(s =~= s.take(p) + s.skip(p));
    vstd::seq_lib::lemma_multiset_commutative(s.take(p), s.skip(p));
    vstd::seq_lib::lemma_multiset_commutative(s.take(p) + seq![x], s.skip(p));
    vstd::seq_lib::lemma_multiset_commutative(s.take(p), seq![x]);
    vstd::seq_lib::lemma_multiset_commutative(s, seq![x]);
    assert(s.push(x) =~= s + seq![x]);
    assert(r.to_multiset() =~= s.push(x).to_multiset());
    assert forall|k: Text| #[trigger] with_id(r, k) == with_id(s.push(x), k) by {
        lemma_filter_concat(s.take(p) + seq![x], s.skip(p), k);
        lemma_filter_concat(s.take(p), seq![x], k);
        lemma_filter_concat(s.take(p), s.skip(p), k);
        lemma_filter_concat(s, seq![x], k);
        let tail = s.skip(p);
        if x.key() == k {
            // nothing behind the place has this id
            assert forall|i: int| 0 <= i < tail.len() implies (#[trigger] tail[i]).key() != k by {
                assert(tail[i] == s[p + i]);
                if tail[i].key() == k {
                    if i == 0 {
                        lemma_text_lt_irreflexive(k);
                    } else {
                        assert(text_lt(s[p + i].key(), s[p].key()));
                    }
                }
            }
            lemma_filter_none(tail, k);
            assert(with_id(r, k) =~= with_id(s.push(x), k));
        } else {
            lemma_filter_none(seq![x], k);
            assert(with_id(r, k) =~= with_id(s.push(x), k));
        }
    }
}

proof fn lemma_filter_none<T: Identified>(s: Seq<T>, k: Text)
    requires
        forall|i: int| 0 <= i < s.len() ==> (#[trigger] s[i]).key() != k,
    ensures
        with_id(s, k) == Seq::<T>::empty(),
    decreases s.len(),
{
    reveal(Seq::filter);
    if s.len() > 0 {
        let d = s.drop_last();
        assert forall|i: int| 0 <= i < d.len() implies (#[trigger] d[i]).key() != k by {
            assert(d[i] == s[i]);
        }
        lemma_filter_none(d, k);
        assert(s.last() == s[s.len() - 1]);
    }
}

/// The values with an id are those that are told by having it.
pub proof fn lemma_with_id<T: Identified>(s: Seq<T>, k: Text, has_id: spec_fn(T) -> bool)
    requires
        forall|t: T| #[trigger] has_id(t) <==> t.key() == k,
    ensures
        with_id(s, k) == s.filter(has_id),
    decreases s.len(),
{
    reveal(Seq::filter);
    if s.len() > 0 {
        lemma_with_id(s.drop_last(), k, has_id);
    }
}

/// `sorted_by_id` is a stable sort.
pub proof fn lemma_sorted_by_id<T: Identified>(s: Seq<T>)
    ensures
        is_stable_sort(s, sorted_by_id(s)),
    decreases s.len(),
{
    broadcast use vstd::seq_lib::group_to_multiset_ensures;

    if s.len() > 0 {
        let init = s.drop_last();
        lemma_sorted_by_id(init);
        let so = sorted_by_id(init);
        lemma_placed(so, s.last());
        assert(s =~= init.push(s.last()));
        assert(so.push(s.last()).to_multiset() =~= s.to_multiset());
        assert forall|k: Text| #[trigger] with_id(sorted_by_id(s), k) == with_id(s, k) by {
            assert(with_id(placed(so, s.last()), k) == with_id(so.push(s.last()), k));
            assert(so.push(s.last()) =~= so + seq![s.last()]);
            assert(s =~= init + seq![s.last()]);
            lemma_filter_concat(so, seq![s.last()], k);
            lemma_filter_concat(init, seq![s.last()], k);
            assert(with_id(so, k) == with_id(init, k));
        }
    }
}

/// The values ordered by id, those with the same id in their old order.
pub fn sort_by_id<T: Identified>(items: Vec<T>) -> (r: Vec<T>)
    ensures
        r@ == sorted_by_id(items@),
        is_stable_sort(items@, r@),
{
    let ghost all = items@;
    let mut rest = items;
    let mut out: Vec<T> = Vec::new();
    let ghost mut done: int = 0;
    assert(all.take(0) =~= Seq::<T>::empty());
    assert(all.skip(0) =~= all);
    while rest.len() > 0
        invariant
            0 <= done <= all.len(),
            rest@ == all.skip(done),
            out@ == sorted_by_id(all.take(done)),
        decreases rest.len(),
    {
        let x = rest.remove(0);
        assert(x == all[done]);
        let ghost before = out@;
        let mut p: usize = 0;
        assert(before.skip(0) =~= before);
        assert(before.take(0) + placed(before, x) =~= placed(before, x));
        while p < out.len() && !text_before(x.id().as_str(), out[p].id().as_str())
            invariant
                out@ == before,
                p <= before.len(),
                placed(before, x) == before.take(p as int) + placed(before.skip(p as int), x),
            decreases before.len() - p,
        {
            assert(before.skip(p as int).drop_first() =~= before.skip(p + 1));
            assert(before.take(p as int) + (seq![before[p as int]] + placed(
                before.skip(p + 1),
                x,
            )) =~= before.take(p + 1) + placed(before.skip(p + 1), x));
            p += 1;
        }
        let ghost q = p as int;
        assert(placed(before.skip(q), x) =~= seq![x] + before.skip(q));
        out.insert(p, x);
        assert(out@ =~= before.take(q) + (seq![x] + before.skip(q)));
        assert(all.take(done + 1).drop_last() =~= all.take(done));
        assert(rest@ =~= all.skip(done + 1));
        proof {
            done = done + 1;
        }
    }
    assert(all.take(done) =~= all);
    proof {
        lemma_sorted_by_id(all);
    }
    out
}

// ------------------------------------------------------------------ loading

/// The storylets of the files, in order.
pub open spec fn all_storylets(files: Seq<StoryletFile>) -> Seq<Storylet>
    decreases files.len(),
{
    if files.len() == 0 {
        Seq::empty()
    } else {
        all_storylets(files.drop_last()) + files.last().storylet@
    }
}

/// The people of the files, in order.
pub open spec fn all_npcs(files: Seq<NpcFile>) -> Seq<Npc>
    decreases files.len(),
{
    if files.len() == 0 {
        Seq::empty()
    } else {
        all_npcs(files.drop_last()) + files.last().npc@
    }
}

fn gather_storylets(files: Vec<StoryletFile>) -> (r: Vec<Storylet>)
    ensures
        r@ == all_storylets(files@),
{
    let ghost all = files@;
    let mut rest = files;
    let mut out: Vec<Storylet> = Vec::new();
    let ghost mut done: int = 0;
    assert(all.skip(0) =~= all);
    while rest.len() > 0
        invariant
            0 <= done <= all.len(),
            rest@ == all.skip(done),
            out@ == all_storylets(all.take(done)),
        decreases rest.len(),
    {
        let f = rest.remove(0);
        let mut part = f.storylet;
        out.append(&mut part);
        assert(all.take(done + 1).drop_last() =~= all.take(done));
        assert(rest@ =~= all.skip(done + 1));
        proof {
            done = done + 1;
        }
    }
    assert(all.take(done) =~= all);
    out
}

fn gather_npcs(files: Vec<NpcFile>) -> (r: Vec<Npc>)
    ensures
        r@ == all_npcs(files@),
{
    let ghost all = files@;
    let mut rest = files;
    let mut out: Vec<Npc> = Vec::new();
    let ghost mut done: int = 0;
    assert(all.skip(0) =~= all);
    while rest.len() > 0
        invariant
            0 <= done <= all.len(),
            rest@ == all.skip(done),
            out@ == all_npcs(all.take(done)),
        decreases rest.len(),
    {
        let f = rest.remove(0);
        let mut part = f.npc;
        out.append(&mut part);
        assert(all.take(done + 1).drop_last() =~= all.take(done));
        assert(rest@ =~= all.skip(done + 1));
        proof {
            done = done + 1;
        }
    }
    assert(all.take(done) =~= all);
    out
}

/// Puts the parsed files together: storylets and people in order of their
/// ids, whatever the order of the files. Content that does not validate is
/// refused with its complaints.
pub fn load(world: WorldFile, storylets: Vec<StoryletFile>, npcs: Vec<NpcFile>) -> (r: Result<
    ContentDb,
    String,
>)
    ensures
        ({
            let sts = sorted_by_id(all_storylets(storylets@));
            let errs = content_errors(
                world.settlements@,
                world.terrains@,
                world.cargoes@,
                sts,
            );
            match r {
                Ok(db) => {
                    &&& errs.len() == 0
                    &&& db.settlements == world.settlements
                    &&& db.terrains == world.terrains
                    &&& db.cargoes == world.cargoes
                    &&& db.banned_phrases == world.banned_phrases
                    &&& db.storylets@ == sts
                    &&& db.npcs@ == sorted_by_id(all_npcs(npcs@))
                },
                Err(e) => errs.len() > 0 && e@ == joined(errs, "\n"@),
            }
        }),
{
    let db = ContentDb {
        settlements: world.settlements,
        terrains: world.terrains,
        cargoes: world.cargoes,
        storylets: sort_by_id(gather_storylets(storylets)),
        npcs: sort_by_id(gather_npcs(npcs)),
        banned_phrases: world.banned_phrases,
    };
    match validate(&db) {
        Ok(_) => Ok(db),
        Err(e) => Err(e),
    }
}

// ------------------------------------------------------------- file listing

/// Whether a file name has the extension `toml`: it ends in `.toml` and there
/// is something in front.
pub open spec fn is_toml_name(name: Seq<u8>) -> bool {
    &&& name.len() > 5
    &&& name[name.len() - 5] == 46
    &&& name[name.len() - 4] == 116
    &&& name[name.len() - 3] == 111
    &&& name[name.len() - 2] == 109
    &&& name[name.len() - 1] == 108
}

/// The order of file names: lexicographic by byte.
pub open spec fn bytes_lt(a: Seq<u8>, b: Seq<u8>) -> bool
    decreases a.len(),
{
    if b.len() == 0 {
        false
    } else if a.len() == 0 {
        true
    } else if a[0] == b[0] {
        bytes_lt(a.drop_first(), b.drop_first())
    } else {
        a[0] < b[0]
    }
}

proof fn lemma_bytes_lt_transitive(a: Seq<u8>, b: Seq<u8>, c: Seq<u8>)
    requires
        bytes_lt(a, b),
        bytes_lt(b, c),
    ensures
        bytes_lt(a, c),
    decreases a.len(),
{
    if a.len() > 0 && a[0] == b[0] && b[0] == c[0] {
        lemma_bytes_lt_transitive(a.drop_first(), b.drop_first(), c.drop_first());
    }
}

proof fn lemma_bytes_lt_total(a: Seq<u8>, b: Seq<u8>)
    ensures
        a == b || bytes_lt(a, b) || bytes_lt(b, a),
    decreases a.len(),
{
    if a.len() == 0 || b.len() == 0 {
        if a.len() == 0 && b.len() == 0 {
            assert(a =~= b);
        }
    } else if a[0] == b[0] {
        lemma_bytes_lt_total(a.drop_first(), b.drop_first());
        if a.drop_first() == b.drop_first() {
            assert(a =~= seq![a[0]] + a.drop_first());
            assert(b =~= seq![b[0]] + b.drop_first());
        }
    }
}

fn bytes_before(a: &Vec<u8>, b: &Vec<u8>) -> (r: bool)
    ensures
        r == bytes_lt(a@, b@),
{
    let mut i: usize = 0;
    assert(a@.skip(0) =~= a@);
    assert(b@.skip(0) =~= b@);
    while i < a.len() && i < b.len() && a[i] == b[i]
        invariant
            i <= a.len(),
            i <= b.len(),
            bytes_lt(a@.skip(i as int), b@.skip(i as int)) == bytes_lt(a@, b@),
        decreases a.len() - i,
    {
        assert(a@.skip(i as int).drop_first() =~= a@.skip(i + 1));
        assert(b@.skip(i as int).drop_first() =~= b@.skip(i + 1));
        i += 1;
    }
    if i >= b.len() {
        false
    } else if i >= a.len() {
        true
    } else {
        a[i] < b[i]
    }
}

fn has_toml_name(name: &Vec<u8>) -> (r: bool)
    ensures
        r == is_toml_name(name@),
{
    let n: usize = name.len();
    n > 5 && name[n - 5] == 46 && name[n - 4] == 116 && name[n - 3] == 111 && name[n - 2] == 109
        && name[n - 1] == 108
}

/// Whether the file at `i` is listed before the file at `j`: by name, and
/// among equal names by position.
pub open spec fn listed_before(names: Seq<Vec<u8>>, i: int, j: int) -> bool {
    bytes_lt(names[i]@, names[j]@) || (names[i]@ == names[j]@ && i < j)
}

/// `r` lists the first `n` of the files that are TOML files, each once, in
/// order of name.
pub open spec fn is_toml_listing(names: Seq<Vec<u8>>, n: int, r: Seq<usize>) -> bool {
    &&& forall|a: int| 0 <= a < r.len() ==> (#[trigger] r[a]) < n && is_toml_name(names[r[a] as int]@)
    &&& forall|i: int|
        0 <= i < n && is_toml_name((#[trigger] names[i])@) ==> exists|a: int|
            0 <= a < r.len() && #[trigger] r[a] == i
    &&& forall|a: int, b: int|
        0 <= a < b < r.len() ==> listed_before(names, (#[trigger] r[a]) as int, (#[trigger] r[b]) as int)
}

/// Which of the files of a directory to read, and in what order: the positions
/// of the TOML files, by name.
pub fn sorted_toml(names: &Vec<Vec<u8>>) -> (r: Vec<usize>)
    ensures
        is_toml_listing(names@, names@.len() as int, r@),
{
    let mut out: Vec<usize> = Vec::new();
    let mut i: usize = 0;
    while i < names.len()
        invariant
            i <= names@.len(),
            is_toml_listing(names@, i as int, out@),
        decreases names@.len() - i,
    {
        if has_toml_name(&names[i]) {
            let ghost before = out@;
            let mut p: usize = 0;
            while p < out.len() && !bytes_before(&names[i], &names[out[p]])
                invariant
                    out@ == before,
                    p <= before.len(),
                    i < names@.len(),
                    forall|a: int| 0 <= a < before.len() ==> #[trigger] before[a] < i,
                    forall|a: int|
                        0 <= a < p ==> !bytes_lt(
                            names@[i as int]@,
                            names@[(#[trigger] before[a]) as int]@,
                        ),
                decreases before.len() - p,
            {
                p += 1;
            }
            let ghost q = p as int;
            out.insert(p, i);
            proof {
                lemma_listing_insert(names@, i, before, q);
                assert(out@ =~= before.insert(q, i));
            }
        } else {
            assert forall|k: int| 0 <= k < i + 1 && is_toml_name(
                (#[trigger] names@[k])@,
            ) implies exists|a: int| 0 <= a < out@.len() && #[trigger] out@[a] == k by {
                assert(k < i);
            }
        }
        i += 1;
    }
    out
}

proof fn lemma_listing_insert(names: Seq<Vec<u8>>, i: usize, before: Seq<usize>, q: int)
    requires
        i < names.len(),
        is_toml_name(names[i as int]@),
        is_toml_listing(names, i as int, before),
        0 <= q <= before.len(),
        forall|a: int|
            0 <= a < q ==> !bytes_lt(names[i as int]@, names[(#[trigger] before[a]) as int]@),
        q < before.len() ==> bytes_lt(names[i as int]@, names[before[q] as int]@),
    ensures
        is_toml_listing(names, i + 1, before.insert(q, i)),
{
    let r = before.insert(q, i);
    assert forall|a: int| 0 <= a < r.len() implies (#[trigger] r[a]) < i + 1 && is_toml_name(
        names[r[a] as int]@,
    ) by {
        if a < q {
            assert(r[a] == before[a]);
        } else if a > q {
            assert(r[a] == before[a - 1]);
        }
    }
    assert forall|k: int| 0 <= k < i + 1 && is_toml_name((#[trigger] names[k])@) implies exists|
        a: int,
    |
        0 <= a < r.len() && #[trigger] r[a] == k by {
        if k == i {
            assert(r[q] == k);
        } else {
            let a = choose|a: int| 0 <= a < before.len() && #[trigger] before[a] == k;
            if a < q {
                assert(r[a] == k);
            } else {
                assert(r[a + 1] == k);
            }
        }
    }
    assert forall|a: int, b: int| 0 <= a < b < r.len() implies listed_before(
        names,
        (#[trigger] r[a]) as int,
        (#[trigger] r[b]) as int,
    ) by {
        if b < q {
            assert(r[a] == before[a] && r[b] == before[b]);
        } else if b == q {
            assert(r[a] == before[a]);
            lemma_bytes_lt_total(names[i as int]@, names[before[a] as int]@);
        } else if a < q {
            assert(r[a] == before[a] && r[b] == before[b - 1]);
        } else if a == q {
            assert(r[b] == before[b - 1]);
            if b - 1 > q {
                assert(listed_before(names, before[q] as int, before[b - 1] as int));
                if bytes_lt(names[before[q] as int]@, names[before[b - 1] as int]@) {
                    lemma_bytes_lt_transitive(
                        names[i as int]@,
                        names[before[q] as int]@,
                        names[before[b - 1] as int]@,
                    );
                }
            }
        } else {
            assert(r[a] == before[a - 1] && r[b] == before[b - 1]);
        }
    }
}

// ----------------------------------------------------------------------- laws

/// Whether no two values have the same id.
pub open spec fn keys_distinct<T: Identified>(s: Seq<T>) -> bool {
    forall|i: int, j: int|
        0 <= i < j < s.len() ==> (#[trigger] s[i]).key() != (#[trigger] s[j]).key()
}

/// Two ways to hold the same values in order of id are the same way, where no
/// two of the values have the same id.
proof fn lemma_ordered_unique<T: Identified>(a: Seq<T>, b: Seq<T>)
    requires
        ordered_by_id(a),
        ordered_by_id(b),
        keys_distinct(a),
        a.to_multiset() == b.to_multiset(),
    ensures
        a == b,
    decreases a.len(),
{
    broadcast use vstd::seq_lib::group_to_multiset_ensures;

    assert(a.len() == a.to_multiset().len() && b.len() == b.to_multiset().len());
    if a.len() == 0 {
        assert(a =~= b);
    } else {
        let x = a.last();
        let y = b.last();
        assert(a.contains(x)) by {
            assert(a[a.len() - 1] == x);
        }
        assert(b.contains(y)) by {
            assert(b[b.len() - 1] == y);
        }
        assert(b.to_multiset().count(x) > 0);
        assert(a.to_multiset().count(y) > 0);
        let i = b.index_of(x);
        let j = a.index_of(y);
        assert(x == y) by {
            if j < a.len() - 1 && i < b.len() - 1 {
                assert(!text_lt(a[a.len() - 1].key(), a[j].key()));
                assert(!text_lt(b[b.len() - 1].key(), b[i].key()));
                lemma_text_lt_total(x.key(), y.key());
                assert(a[j].key() != a[a.len() - 1].key());
            }
        }
        let p = a.drop_last();
        let q = b.drop_last();
        assert(a =~= p.push(x));
        assert(b =~= q.push(x));
        assert(p.to_multiset() =~= a.to_multiset().remove(x)) by {
            assert(p.push(x).to_multiset() =~= p.to_multiset().insert(x));
        }
        assert(q.to_multiset() =~= b.to_multiset().remove(x)) by {
            assert(q.push(x).to_multiset() =~= q.to_multiset().insert(x));
        }
        assert forall|i: int, j: int| 0 <= i < j < p.len() implies !text_lt(
            (#[trigger] p[j]).key(),
            (#[trigger] p[i]).key(),
        ) by {
            assert(p[i] == a[i] && p[j] == a[j]);
        }
        assert forall|i: int, j: int| 0 <= i < j < q.len() implies !text_lt(
            (#[trigger] q[j]).key(),
            (#[trigger] q[i]).key(),
        ) by {
            assert(q[i] == b[i] && q[j] == b[j]);
        }
        assert forall|i: int, j: int| 0 <= i < j < p.len() implies (#[trigger] p[i]).key() != (
        #[trigger] p[j]).key() by {
            assert(p[i] == a[i] && p[j] == a[j]);
        }
        lemma_ordered_unique(p, q);
    }
}

proof fn lemma_distinct_id_once<T: Identified>(s: Seq<T>, k: Text)
    requires
        keys_distinct(s),
    ensures
        with_id(s, k).len() <= 1,
    decreases s.len(),
{
    reveal(Seq::filter);
    if s.len() > 0 {
        let d = s.drop_last();
        assert forall|i: int, j: int| 0 <= i < j < d.len() implies (#[trigger] d[i]).key() != (
        #[trigger] d[j]).key() by {
            assert(d[i] == s[i] && d[j] == s[j]);
        }
        lemma_distinct_id_once(d, k);
        if s.last().key() == k {
            assert forall|i: int| 0 <= i < d.len() implies (#[trigger] d[i]).key() != k by {
                assert(d[i] == s[i] && s.last() == s[s.len() - 1]);
            }
            lemma_filter_none(d, k);
        }
    }
}

proof fn lemma_pair_shares_id<T: Identified>(s: Seq<T>, i: int, j: int)
    requires
        0 <= i < j < s.len(),
        s[i].key() == s[j].key(),
    ensures
        with_id(s, s[i].key()).len() >= 2,
{
    let k = s[i].key();
    let a = s.take(i + 1);
    let b = s.skip(i + 1);
    assert(s =~= a + b);
    lemma_filter_concat(a, b, k);
    assert(a[i] == s[i]);
    assert(b[j - i - 1] == s[j]);
    let f = |t: T| t.key() == k;
    a.lemma_filter_contains(f, i);
    b.lemma_filter_contains(f, j - i - 1);
    assert(with_id(a, k).contains(s[i]));
    assert(with_id(b, k).contains(s[j]));
}

/// The order of the content does not depend on the order in which it was read:
/// the same values, with ids of their own, come out in the same order.
pub proof fn law_reading_order_does_not_matter<T: Identified>(s: Seq<T>, t: Seq<T>)
    requires
        s.to_multiset() == t.to_multiset(),
        keys_distinct(s),
    ensures
        sorted_by_id(s) == sorted_by_id(t),
{
    lemma_sorted_by_id(s);
    lemma_sorted_by_id(t);
    let out = sorted_by_id(s);
    assert forall|i: int, j: int| 0 <= i < j < out.len() implies (#[trigger] out[i]).key() != (
    #[trigger] out[j]).key() by {
        if out[i].key() == out[j].key() {
            let k = out[i].key();
            lemma_pair_shares_id(out, i, j);
            lemma_distinct_id_once(s, k);
            assert(with_id(out, k) == with_id(s, k));
        }
    }
    lemma_ordered_unique(sorted_by_id(s), sorted_by_id(t));
}

/// Ordering content that is in order already changes nothing.
pub proof fn law_ordering_twice_changes_nothing<T: Identified>(s: Seq<T>)
    ensures
        sorted_by_id(sorted_by_id(s)) == sorted_by_id(s),
{
    lemma_sorted_by_id(s);
    lemma_ordered_stays(sorted_by_id(s));
}

proof fn lemma_ordered_stays<T: Identified>(s: Seq<T>)
    requires
        ordered_by_id(s),
    ensures
        sorted_by_id(s) == s,
    decreases s.len(),
{
    if s.len() > 0 {
        let d = s.drop_last();
        assert forall|i: int, j: int| 0 <= i < j < d.len() implies !text_lt(
            (#[trigger] d[j]).key(),
            (#[trigger] d[i]).key(),
        ) by {
            assert(d[i] == s[i] && d[j] == s[j]);
        }
        lemma_ordered_stays(d);
        let k = lemma_placed_split(d, s.last());
        if k < d.len() {
            assert(!text_lt(s[s.len() - 1].key(), s[k].key()));
            assert(d[k] == s[k]);
        }
        assert(placed(d, s.last()) =~= s);
    }
}

} // verus!
