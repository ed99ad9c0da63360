//! What the texts of the game say, told by reading them back: numbers and sums
//! of money, placeholders, order, trimming and joining; and what the gauges show.

use vstd::prelude::*;

use crate::load::bytes_lt;
use crate::mission::{gauge_pct, money, pence_of, pounds_of, quotient, shillings_of, MissionModel};
use crate::scenes::filled;
use crate::text::{
    begins_with, dec, dec_nat, is_space, joined, lemma_dec_is_digits, replaced, text_lt, trimmed,
    trimmed_back, trimmed_front, Text,
};

verus! {

// --------------------------------------------------------------------- numbers

/// The number that a row of digits stands for, place by place.
pub open spec fn number_read(s: Text) -> int
    decreases s.len(),
{
    if s.len() == 0 {
        0
    } else {
        10 * number_read(s.drop_last()) + (s.last() as int - 48)
    }
}

/// A number is written so that it reads back, without needless zeros, and with a
/// minus in front where it is negative.
pub proof fn law_numbers_read_back(n: int)
    ensures
        0 <= n ==> number_read(dec(n)) == n && dec(n).len() > 0,
        10 <= n ==> dec(n)[0] as int != 48,
        n < 0 ==> dec(n)[0] == '-' && number_read(dec(n).drop_first()) == -n,
        forall|i: int| 0 <= n && 0 <= i < dec(n).len() ==> 48 <= (#[trigger] dec(n)[i]) as int <= 57,
{
    reveal_strlit("-");
    if n < 0 {
        lemma_reads_back((-n) as nat);
        assert(dec(n).drop_first() =~= dec_nat((-n) as nat));
    } else {
        lemma_reads_back(n as nat);
        lemma_dec_is_digits(n as nat);
    }
}

proof fn lemma_digit(d: int)
    requires
        0 <= d < 10,
    ensures
        dec_nat(d as nat).len() == 1,
        dec_nat(d as nat)[0] as int == 48 + d,
{
    reveal_strlit("0");
    reveal_strlit("1");
    reveal_strlit("2");
    reveal_strlit("3");
    reveal_strlit("4");
    reveal_strlit("5");
    reveal_strlit("6");
    reveal_strlit("7");
    reveal_strlit("8");
    reveal_strlit("9");
}

/// A number of two digits or more is the number of its tens and a digit.
proof fn lemma_last_digit(n: nat)
    requires
        n >= 10,
    ensures
        dec_nat(n).len() > 1,
        dec_nat(n).drop_last() == dec_nat(n / 10),
        dec_nat(n).last() as int == 48 + n % 10,
{
    lemma_digit((n % 10) as int);
    lemma_dec_is_digits(n / 10);
    assert(dec_nat(n) == dec_nat(n / 10) + dec_nat(n % 10));
    assert(dec_nat(n).drop_last() =~= dec_nat(n / 10));
}

proof fn lemma_reads_back(n: nat)
    ensures
        number_read(dec_nat(n)) == n,
        n > 0 ==> dec_nat(n)[0] as int != 48,
    decreases n,
{
    if n < 10 {
        lemma_digit(n as int);
        assert(dec_nat(n).drop_last() =~= Seq::empty());
        assert(number_read(dec_nat(n).drop_last()) == 0);
    } else {
        lemma_last_digit(n);
        lemma_reads_back(n / 10);
        assert(dec_nat(n)[0] == dec_nat(n).drop_last()[0]);
    }
}

// ----------------------------------------------------------------------- money

/// What has been read of a sum of money: the pence that are settled, and the
/// number that is being read. An `s` settles a number as shillings, a `d` as
/// pence, and a space behind a number as pounds.
pub open spec fn sum_read(s: Text) -> (int, int)
    decreases s.len(),
{
    if s.len() == 0 {
        (0, 0)
    } else {
        let (sum, n) = sum_read(s.drop_last());
        let c = s.last();
        if 48 <= c as int <= 57 {
            (sum, 10 * n + (c as int - 48))
        } else if c == 's' {
            (sum + 12 * n, 0)
        } else if c == 'd' {
            (sum + n, 0)
        } else if c == ' ' {
            (sum + 240 * n, 0)
        } else {
            (sum, 0)
        }
    }
}

proof fn lemma_read_char(a: Text, c: char)
    ensures
        sum_read(a.push(c)) == ({
            let (sum, n) = sum_read(a);
            if 48 <= c as int <= 57 {
                (sum, 10 * n + (c as int - 48))
            } else if c == 's' {
                (sum + 12 * n, 0int)
            } else if c == 'd' {
                (sum + n, 0int)
            } else if c == ' ' {
                (sum + 240 * n, 0int)
            } else {
                (sum, 0int)
            }
        }),
{
    assert(a.push(c).drop_last() =~= a);
}

proof fn lemma_read_number(a: Text, n: nat)
    requires
        sum_read(a).1 == 0,
    ensures
        sum_read(a + dec_nat(n)) == (sum_read(a).0, n as int),
    decreases n,
{
    if n < 10 {
        lemma_digit(n as int);
        assert(a + dec_nat(n) =~= a.push(dec_nat(n)[0]));
        lemma_read_char(a, dec_nat(n)[0]);
    } else {
        lemma_last_digit(n);
        lemma_read_number(a, n / 10);
        assert(a + dec_nat(n) =~= (a + dec_nat(n / 10)).push(dec_nat(n).last()));
        lemma_read_char(a + dec_nat(n / 10), dec_nat(n).last());
    }
}

/// A sum of money reads back: twelve pence to the shilling, twenty shillings to
/// the pound, shillings below twenty and pence below twelve, and nothing left
/// over.
pub proof fn law_money_reads_back(p: int)
    ensures
        sum_read(money(p)) == (if p < 0 {
            -p
        } else {
            p
        }, 0int),
{
    reveal_strlit("-");
    reveal_strlit("");
    reveal_strlit("d");
    reveal_strlit("s");
    reveal_strlit("s ");
    reveal_strlit("£");
    reveal_strlit(" ");
    let sign = if p < 0 {
        "-"@
    } else {
        ""@
    };
    let l = pounds_of(p);
    let s = shillings_of(p);
    let d = pence_of(p);
    assert(sum_read(sign) == (0int, 0int)) by {
        if p < 0 {
            lemma_read_char(Seq::empty(), '-');
            assert(sign =~= Seq::<char>::empty().push('-'));
        } else {
            assert(sign =~= Seq::<char>::empty());
        }
    }
    if l == 0 && s == 0 {
        lemma_read_settled(sign, d as nat, 'd', "d"@);
    } else {
        let front = if l == 0 {
            sign
        } else {
            sign + "£"@ + dec(l) + " "@
        };
        if l > 0 {
            lemma_read_char(sign, '£');
            assert(sign + "£"@ =~= sign.push('£'));
            lemma_read_settled(sign + "£"@, l as nat, ' ', " "@);
        }
        lemma_read_change(front, s as nat, d as nat);
    }
}

proof fn lemma_read_settled(a: Text, n: nat, c: char, t: Text)
    requires
        sum_read(a).1 == 0,
        c == 's' || c == 'd' || c == ' ',
        t.len() == 1,
        t[0] == c,
    ensures
        sum_read(a + dec_nat(n) + t) == (sum_read(a).0 + n * (if c == 's' {
            12int
        } else if c == 'd' {
            1
        } else {
            240
        }), 0int),
{
    lemma_read_number(a, n);
    lemma_read_char(a + dec_nat(n), c);
    assert(a + dec_nat(n) + t =~= (a + dec_nat(n)).push(c));
}

proof fn lemma_read_change(front: Text, s: nat, d: nat)
    requires
        sum_read(front).1 == 0,
    ensures
        sum_read(front + dec_nat(s) + "s"@) == (sum_read(front).0 + 12 * s, 0int),
        sum_read(front + dec_nat(s) + "s "@ + dec_nat(d) + "d"@) == (sum_read(front).0 + 12 * s + d,
            0int,
        ),
{
    reveal_strlit("d");
    reveal_strlit("s");
    reveal_strlit("s ");
    lemma_read_settled(front, s, 's', "s"@);
    let mid = front + dec_nat(s) + "s"@;
    lemma_read_char(mid, ' ');
    assert(front + dec_nat(s) + "s "@ =~= mid.push(' '));
    lemma_read_settled(mid.push(' '), d, 'd', "d"@);
}

// ----------------------------------------------------------------------- order

/// Whether `a` and `b` agree up to `k`, where `a` ends or has the lesser
/// character.
pub open spec fn parts_at(a: Text, b: Text, k: int) -> bool {
    &&& 0 <= k <= a.len()
    &&& k < b.len()
    &&& forall|i: int| 0 <= i < k ==> a[i] == b[i]
    &&& (k == a.len() || (a[k] as int) < b[k] as int)
}

/// Texts are in the order of a dictionary, by code point: one precedes another
/// exactly where it is a proper beginning of it or has the lesser character at
/// the first place at which they differ.
pub proof fn law_texts_are_in_dictionary_order(a: Text, b: Text)
    ensures
        text_lt(a, b) <==> exists|k: int| parts_at(a, b, k),
    decreases a.len(),
{
    if b.len() > 0 && a.len() > 0 && a[0] == b[0] {
        let x = a.drop_first();
        let y = b.drop_first();
        law_texts_are_in_dictionary_order(x, y);
        if exists|k: int| parts_at(x, y, k) {
            let k = choose|k: int| parts_at(x, y, k);
            assert(parts_at(a, b, k + 1)) by {
                assert forall|i: int| 0 <= i < k + 1 implies a[i] == b[i] by {
                    if i > 0 {
                        assert(x[i - 1] == y[i - 1]);
                    }
                }
            }
        }
        if exists|k: int| parts_at(a, b, k) {
            let k = choose|k: int| parts_at(a, b, k);
            assert(k > 0);
            assert(parts_at(x, y, k - 1)) by {
                assert forall|i: int| 0 <= i < k - 1 implies x[i] == y[i] by {
                    assert(a[i + 1] == b[i + 1]);
                }
            }
        }
    } else {
        if b.len() > 0 {
            if a.len() == 0 || (a[0] as int) < b[0] as int {
                assert(parts_at(a, b, 0));
            } else if exists|k: int| parts_at(a, b, k) {
                let k = choose|k: int| parts_at(a, b, k);
                assert(a[0] == b[0]);
            }
        }
    }
}

/// Whether `a` and `b` agree up to `k`, where `a` ends or has the lesser byte.
pub open spec fn bytes_part_at(a: Seq<u8>, b: Seq<u8>, k: int) -> bool {
    &&& 0 <= k <= a.len()
    &&& k < b.len()
    &&& forall|i: int| 0 <= i < k ==> a[i] == b[i]
    &&& (k == a.len() || a[k] < b[k])
}

/// File names are in the order of a dictionary, by byte.
pub proof fn law_file_names_are_in_dictionary_order(a: Seq<u8>, b: Seq<u8>)
    ensures
        bytes_lt(a, b) <==> exists|k: int| bytes_part_at(a, b, k),
    decreases a.len(),
{
    if b.len() > 0 && a.len() > 0 && a[0] == b[0] {
        let x = a.drop_first();
        let y = b.drop_first();
        law_file_names_are_in_dictionary_order(x, y);
        if exists|k: int| bytes_part_at(x, y, k) {
            let k = choose|k: int| bytes_part_at(x, y, k);
            assert(bytes_part_at(a, b, k + 1)) by {
                assert forall|i: int| 0 <= i < k + 1 implies a[i] == b[i] by {
                    if i > 0 {
                        assert(x[i - 1] == y[i - 1]);
                    }
                }
            }
        }
        if exists|k: int| bytes_part_at(a, b, k) {
            let k = choose|k: int| bytes_part_at(a, b, k);
            assert(k > 0);
            assert(bytes_part_at(x, y, k - 1)) by {
                assert forall|i: int| 0 <= i < k - 1 implies x[i] == y[i] by {
                    assert(a[i + 1] == b[i + 1]);
                }
            }
        }
    } else {
        if b.len() > 0 {
            if a.len() == 0 || a[0] < b[0] {
                assert(bytes_part_at(a, b, 0));
            } else if exists|k: int| bytes_part_at(a, b, k) {
                let k = choose|k: int| bytes_part_at(a, b, k);
                assert(a[0] == b[0]);
            }
        }
    }
}

// ---------------------------------------------------------------- placeholders

/// Whether `pat` stands in `s` at `i`.
pub open spec fn stands_at(s: Text, pat: Text, i: int) -> bool {
    0 <= i && i + pat.len() <= s.len() && s.subrange(i, i + pat.len()) == pat
}

/// A text in which the pattern does not stand is left as it is.
pub proof fn law_nothing_to_replace(s: Text, pat: Text, with: Text)
    requires
        pat.len() > 0,
        forall|i: int| !stands_at(s, pat, i),
    ensures
        replaced(s, pat, with) == s,
    decreases s.len(),
{
    if s.len() > 0 {
        if begins_with(s, pat) {
            assert(s.subrange(0, pat.len() as int) =~= s.take(pat.len() as int));
            assert(stands_at(s, pat, 0));
        }
        let d = s.drop_first();
        assert forall|i: int| !stands_at(d, pat, i) by {
            if stands_at(d, pat, i) {
                assert(s.subrange(i + 1, i + 1 + pat.len()) =~= d.subrange(i, i + pat.len()));
                assert(stands_at(s, pat, i + 1));
            }
        }
        law_nothing_to_replace(d, pat, with);
        assert(seq![s[0]] + d =~= s);
    } else {
        if begins_with(s, pat) {
            assert(s.len() >= pat.len());
        }
    }
}

/// The first place at which the pattern stands is replaced, what is in front of
/// it is left, and what is behind it is treated likewise.
pub proof fn law_the_first_occurrence_is_replaced(s: Text, pat: Text, with: Text, k: int)
    requires
        pat.len() > 0,
        stands_at(s, pat, k),
        forall|i: int| i < k ==> !stands_at(s, pat, i),
    ensures
        replaced(s, pat, with) == s.take(k) + with + replaced(s.skip(k + pat.len()), pat, with),
    decreases s.len(),
{
    if k == 0 {
        assert(s.take(pat.len() as int) =~= s.subrange(0, pat.len() as int));
        assert(begins_with(s, pat));
        assert(s.take(0) + with =~= with);
    } else {
        if begins_with(s, pat) {
            assert(s.subrange(0, pat.len() as int) =~= s.take(pat.len() as int));
            assert(stands_at(s, pat, 0));
        }
        let d = s.drop_first();
        assert(d.subrange(k - 1, k - 1 + pat.len()) =~= s.subrange(k, k + pat.len()));
        assert forall|i: int| i < k - 1 implies !stands_at(d, pat, i) by {
            if stands_at(d, pat, i) {
                assert(s.subrange(i + 1, i + 1 + pat.len()) =~= d.subrange(i, i + pat.len()));
                assert(stands_at(s, pat, i + 1));
            }
        }
        law_the_first_occurrence_is_replaced(d, pat, with, k - 1);
        assert(d.skip(k - 1 + pat.len()) =~= s.skip(k + pat.len()));
        assert(seq![s[0]] + (d.take(k - 1) + with + replaced(s.skip(k + pat.len()), pat, with))
            =~= s.take(k) + with + replaced(s.skip(k + pat.len()), pat, with));
    }
}

/// Whether a text has no brace that could open a placeholder.
pub open spec fn plain(s: Text) -> bool {
    forall|i: int| 0 <= i < s.len() ==> #[trigger] s[i] != '{'
}

proof fn lemma_plain_stays(s: Text, pat: Text, with: Text)
    requires
        plain(s),
        pat.len() > 0,
        pat[0] == '{',
    ensures
        replaced(s, pat, with) == s,
{
    assert forall|i: int| !stands_at(s, pat, i) by {
        if stands_at(s, pat, i) {
            assert(s.subrange(i, i + pat.len())[0] == s[i]);
        }
    }
    law_nothing_to_replace(s, pat, with);
}

/// A placeholder between plain texts is replaced, and only it.
proof fn lemma_placeholder_filled(a: Text, pat: Text, b: Text, with: Text)
    requires
        plain(a),
        plain(b),
        pat.len() > 0,
        pat[0] == '{',
    ensures
        replaced(a + pat + b, pat, with) == a + with + b,
{
    let s = a + pat + b;
    let k = a.len() as int;
    assert(s.subrange(k, k + pat.len()) =~= pat);
    assert forall|i: int| i < k implies !stands_at(s, pat, i) by {
        if stands_at(s, pat, i) {
            assert(s.subrange(i, i + pat.len())[0] == s[i]);
            assert(s[i] == a[i]);
        }
    }
    law_the_first_occurrence_is_replaced(s, pat, with, k);
    assert(s.take(k) =~= a);
    assert(s.skip(k + pat.len()) =~= b);
    lemma_plain_stays(b, pat, with);
}

/// A placeholder of another kind is left.
proof fn lemma_other_placeholder_stays(a: Text, pat: Text, b: Text, other: Text, with: Text)
    requires
        plain(a),
        plain(b),
        pat.len() > 1,
        plain(pat.drop_first()),
        other.len() > 1,
        other[0] == '{',
        other[1] != pat[1],
    ensures
        replaced(a + pat + b, other, with) == a + pat + b,
{
    let s = a + pat + b;
    let k = a.len() as int;
    assert forall|i: int| !stands_at(s, other, i) by {
        if stands_at(s, other, i) {
            assert(s.subrange(i, i + other.len())[0] == s[i]);
            assert(s.subrange(i, i + other.len())[1] == s[i + 1]);
            if i < k {
                assert(s[i] == a[i]);
            } else if i == k {
                assert(s[i + 1] == pat[1]);
            } else if i < k + pat.len() {
                assert(s[i] == pat.drop_first()[i - k - 1]);
            } else {
                assert(s[i] == b[i - k - pat.len()]);
            }
        }
    }
    law_nothing_to_replace(s, other, with);
}

proof fn lemma_plain_joins(a: Text, b: Text)
    requires
        plain(a),
        plain(b),
    ensures
        plain(a + b),
{
}

proof fn lemma_dec_plain(n: int)
    requires
        0 <= n,
    ensures
        plain(dec(n)),
{
    lemma_dec_is_digits(n as nat);
}

proof fn lemma_money_plain(p: int)
    ensures
        plain(money(p)),
{
    reveal_strlit("-");
    reveal_strlit("");
    reveal_strlit("d");
    reveal_strlit("s");
    reveal_strlit("s ");
    reveal_strlit("£");
    reveal_strlit(" ");
    lemma_dec_plain(pounds_of(p));
    lemma_dec_plain(shillings_of(p));
    lemma_dec_plain(pence_of(p));
}

/// Text without a brace is shown as it was written.
pub proof fn law_plain_text_is_shown_as_written(t: Text, m: MissionModel)
    requires
        plain(t),
    ensures
        filled(t, m) == t,
{
    reveal_strlit("{dest}");
    reveal_strlit("{cargo}");
    reveal_strlit("{qty}");
    reveal_strlit("{terrain}");
    reveal_strlit("{reward}");
    lemma_plain_stays(t, "{dest}"@, m.dest_name);
    lemma_plain_stays(t, "{cargo}"@, m.cargo);
    lemma_plain_stays(t, "{qty}"@, m.qty_desc);
    lemma_plain_stays(t, "{terrain}"@, m.terrain_name);
    lemma_plain_stays(t, "{reward}"@, money(m.reward_pence));
}

/// Each placeholder stands for what it names: the destination, the cargo, the
/// quantity, the terrain or the reward of the run, whatever is written around
/// it.
pub proof fn law_placeholders_name_the_run(a: Text, b: Text, m: MissionModel)
    requires
        plain(a),
        plain(b),
    ensures
        plain(m.dest_name) ==> filled(a + "{dest}"@ + b, m) == a + m.dest_name + b,
        plain(m.cargo) ==> filled(a + "{cargo}"@ + b, m) == a + m.cargo + b,
        plain(m.qty_desc) ==> filled(a + "{qty}"@ + b, m) == a + m.qty_desc + b,
        plain(m.terrain_name) ==> filled(a + "{terrain}"@ + b, m) == a + m.terrain_name + b,
        filled(a + "{reward}"@ + b, m) == a + money(m.reward_pence) + b,
{
    reveal_strlit("{dest}");
    reveal_strlit("{cargo}");
    reveal_strlit("{qty}");
    reveal_strlit("{terrain}");
    reveal_strlit("{reward}");
    let dest = "{dest}"@;
    let cargo = "{cargo}"@;
    let qty = "{qty}"@;
    let terrain = "{terrain}"@;
    let reward = "{reward}"@;
    let sum = money(m.reward_pence);
    lemma_money_plain(m.reward_pence);
    lemma_placeholder_filled(a, dest, b, m.dest_name);
    lemma_placeholder_filled(a, cargo, b, m.cargo);
    lemma_placeholder_filled(a, qty, b, m.qty_desc);
    lemma_placeholder_filled(a, terrain, b, m.terrain_name);
    lemma_placeholder_filled(a, reward, b, sum);
    lemma_other_placeholder_stays(a, cargo, b, dest, m.dest_name);
    lemma_other_placeholder_stays(a, qty, b, dest, m.dest_name);
    lemma_other_placeholder_stays(a, qty, b, cargo, m.cargo);
    lemma_other_placeholder_stays(a, terrain, b, dest, m.dest_name);
    lemma_other_placeholder_stays(a, terrain, b, cargo, m.cargo);
    lemma_other_placeholder_stays(a, terrain, b, qty, m.qty_desc);
    lemma_other_placeholder_stays(a, reward, b, dest, m.dest_name);
    lemma_other_placeholder_stays(a, reward, b, cargo, m.cargo);
    lemma_other_placeholder_stays(a, reward, b, qty, m.qty_desc);
    lemma_other_placeholder_stays(a, reward, b, terrain, m.terrain_name);
    if plain(m.dest_name) {
        lemma_shown_whole(a, m.dest_name, b, m);
    }
    if plain(m.cargo) {
        lemma_shown_whole(a, m.cargo, b, m);
    }
    if plain(m.qty_desc) {
        lemma_shown_whole(a, m.qty_desc, b, m);
    }
    if plain(m.terrain_name) {
        lemma_shown_whole(a, m.terrain_name, b, m);
    }
}

/// What has been filled in with plain text is not filled in again.
proof fn lemma_shown_whole(a: Text, x: Text, b: Text, m: MissionModel)
    requires
        plain(a),
        plain(x),
        plain(b),
    ensures
        replaced(a + x + b, "{cargo}"@, m.cargo) == a + x + b,
        replaced(a + x + b, "{qty}"@, m.qty_desc) == a + x + b,
        replaced(a + x + b, "{terrain}"@, m.terrain_name) == a + x + b,
        replaced(a + x + b, "{reward}"@, money(m.reward_pence)) == a + x + b,
{
    reveal_strlit("{cargo}");
    reveal_strlit("{qty}");
    reveal_strlit("{terrain}");
    reveal_strlit("{reward}");
    lemma_plain_joins(a, x);
    lemma_plain_joins(a + x, b);
    lemma_plain_stays(a + x + b, "{cargo}"@, m.cargo);
    lemma_plain_stays(a + x + b, "{qty}"@, m.qty_desc);
    lemma_plain_stays(a + x + b, "{terrain}"@, m.terrain_name);
    lemma_plain_stays(a + x + b, "{reward}"@, money(m.reward_pence));
}

// -------------------------------------------------------------------- trimming

proof fn lemma_front(s: Text) -> (a: int)
    ensures
        0 <= a <= s.len(),
        trimmed_front(s) == s.skip(a),
        forall|i: int| 0 <= i < a ==> is_space(#[trigger] s[i]),
        a < s.len() ==> !is_space(s[a]),
    decreases s.len(),
{
    if s.len() > 0 && is_space(s[0]) {
        let d = s.drop_first();
        let k = lemma_front(d);
        assert(d.skip(k) =~= s.skip(k + 1));
        assert forall|i: int| 0 <= i < k + 1 implies is_space(#[trigger] s[i]) by {
            if i > 0 {
                assert(d[i - 1] == s[i]);
            }
        }
        k + 1
    } else {
        assert(s.skip(0) =~= s);
        0
    }
}

proof fn lemma_back(s: Text) -> (b: int)
    ensures
        0 <= b <= s.len(),
        trimmed_back(s) == s.take(b),
        forall|i: int| b <= i < s.len() ==> is_space(#[trigger] s[i]),
        b > 0 ==> !is_space(s[b - 1]),
    decreases s.len(),
{
    if s.len() > 0 && is_space(s.last()) {
        let d = s.drop_last();
        let k = lemma_back(d);
        assert(d.take(k) =~= s.take(k));
        assert forall|i: int| k <= i < s.len() implies is_space(#[trigger] s[i]) by {
            if i < d.len() {
                assert(d[i] == s[i]);
            }
        }
        k
    } else {
        assert(s.take(s.len() as int) =~= s);
        s.len() as int
    }
}

/// Whether `t` is what lies between `a` and `b` of `s`, with nothing but white
/// space around it and none at its own ends.
pub open spec fn trims_to(s: Text, t: Text, a: int, b: int) -> bool {
    &&& 0 <= a <= b <= s.len()
    &&& t == s.subrange(a, b)
    &&& forall|i: int| 0 <= i < a || b <= i < s.len() ==> is_space(#[trigger] s[i])
    &&& (t.len() > 0 ==> !is_space(t[0]) && !is_space(t.last()))
}

/// Trimming cuts white space off both ends, all of it and nothing else.
pub proof fn law_trimming_cuts_space_only(s: Text)
    ensures
        exists|a: int, b: int| trims_to(s, trimmed(s), a, b),
{
    let a = lemma_front(s);
    let f = s.skip(a);
    let b = lemma_back(f);
    assert(f.take(b) =~= s.subrange(a, a + b));
    assert forall|i: int| 0 <= i < a || a + b <= i < s.len() implies is_space(#[trigger] s[i]) by {
        if i >= a + b {
            assert(f[i - a] == s[i]);
        }
    }
    if b > 0 {
        assert(f[0] == s[a]);
        assert(f[b - 1] == s[a + b - 1]);
    }
    assert(trims_to(s, trimmed(s), a, a + b));
}

// --------------------------------------------------------------------- joining

/// Lists of texts are joined end to end: what joins two of them, neither empty,
/// is what joins the one, a separator, and what joins the other.
pub proof fn law_joining_is_end_to_end(a: Seq<Text>, b: Seq<Text>, sep: Text)
    requires
        a.len() > 0,
        b.len() > 0,
    ensures
        joined(a + b, sep) == joined(a, sep) + sep + joined(b, sep),
        joined(seq![a[0]], sep) == a[0],
    decreases b.len(),
{
    assert((a + b).drop_last() =~= a + b.drop_last());
    if b.len() == 1 {
        assert(a + b.drop_last() =~= a);
    } else {
        law_joining_is_end_to_end(a, b.drop_last(), sep);
        assert(joined(a, sep) + sep + joined(b.drop_last(), sep) + sep + b.last() =~= joined(a, sep)
            + sep + (joined(b.drop_last(), sep) + sep + b.last()));
    }
}

// ---------------------------------------------------------------------- gauges

/// The gauge shows whole litres, and cuts off what is left over.
pub proof fn law_whole_litres_are_shown(ml: int)
    ensures
        0 <= ml ==> 1_000 * quotient(ml, 1_000) <= ml < 1_000 * quotient(ml, 1_000) + 1_000,
        quotient(-ml, 1_000) == -quotient(ml, 1_000),
{
}

/// The gauge shows how full the tank is: the whole percents of it, none where it
/// holds less than nothing, a hundred where it is full or over, and none where
/// there is no tank.
pub proof fn law_the_gauge_shows_the_tank(fuel: int, max: int)
    ensures
        max <= 0 ==> gauge_pct(fuel, max) == 0,
        0 <= gauge_pct(fuel, max) <= 100,
        0 < max && max <= fuel ==> gauge_pct(fuel, max) == 100,
        0 < max && fuel < 0 ==> gauge_pct(fuel, max) == 0,
        0 < max && 0 <= fuel < max ==> gauge_pct(fuel, max) * max <= 100 * fuel < (gauge_pct(
            fuel,
            max,
        ) + 1) * max,
{
    if max > 0 {
        let q = quotient(fuel * 100, max);
        if fuel >= 0 {
            vstd::arithmetic::div_mod::lemma_fundamental_div_mod(fuel * 100, max);
            vstd::arithmetic::div_mod::lemma_mod_bound(fuel * 100, max);
            assert(fuel * 100 == max * q + (fuel * 100) % max);
            assert(max <= fuel ==> q >= 100) by (nonlinear_arith)
                requires
                    max > 0,
                    fuel * 100 == max * q + (fuel * 100) % max,
                    (fuel * 100) % max < max,
            ;
            assert(0 <= q) by (nonlinear_arith)
                requires
                    max > 0,
                    fuel >= 0,
                    fuel * 100 == max * q + (fuel * 100) % max,
                    (fuel * 100) % max < max,
            ;
            assert(fuel < max ==> q < 100) by (nonlinear_arith)
                requires
                    max > 0,
                    fuel * 100 == max * q + (fuel * 100) % max,
                    0 <= (fuel * 100) % max,
            ;
            assert(q * max == max * q && (q + 1) * max == max * q + max) by (nonlinear_arith);
        } else {
            vstd::arithmetic::div_mod::lemma_div_pos_is_pos(-(fuel * 100), max);
        }
    }
}

/// White space is the twenty-five characters that Unicode has for it: tab, line
/// feed, vertical tab, form feed and carriage return, the space, next line, the
/// no-break space, the ogham space, the eleven typographic spaces from en quad
/// to hair space, the line and paragraph separators, the narrow no-break, the
/// mathematical and the ideographic space.
pub proof fn law_what_white_space_is(c: char)
    ensures
        is_space(c) <==> seq![
            0x09u32,
            0x0A,
            0x0B,
            0x0C,
            0x0D,
            0x20,
            0x85,
            0xA0,
            0x1680,
            0x2000,
            0x2001,
            0x2002,
            0x2003,
            0x2004,
            0x2005,
            0x2006,
            0x2007,
            0x2008,
            0x2009,
            0x200A,
            0x2028,
            0x2029,
            0x202F,
            0x205F,
            0x3000,
        ].contains(c as u32),
{
    let all = seq![
        0x09u32,
        0x0A,
        0x0B,
        0x0C,
        0x0D,
        0x20,
        0x85,
        0xA0,
        0x1680,
        0x2000,
        0x2001,
        0x2002,
        0x2003,
        0x2004,
        0x2005,
        0x2006,
        0x2007,
        0x2008,
        0x2009,
        0x200A,
        0x2028,
        0x2029,
        0x202F,
        0x205F,
        0x3000,
    ];
    let u = c as u32;
    if is_space(c) {
        if u <= 0x0D {
            assert(all[u - 0x09] == u);
        } else if u == 0x20 {
            assert(all[5] == u);
        } else if u == 0x85 {
            assert(all[6] == u);
        } else if u == 0xA0 {
            assert(all[7] == u);
        } else if u == 0x1680 {
            assert(all[8] == u);
        } else if u <= 0x200A {
            assert(all[9 + u - 0x2000] == u);
        } else if u == 0x2028 {
            assert(all[20] == u);
        } else if u == 0x2029 {
            assert(all[21] == u);
        } else if u == 0x202F {
            assert(all[22] == u);
        } else if u == 0x205F {
            assert(all[23] == u);
        } else {
            assert(all[24] == u);
        }
    }
}

} // verus!
