//! Text: comparison, ordering, decimal rendering, substitution and trimming.
//!
//! A text is modelled as its sequence of characters.

use vstd::prelude::*;
use vstd::string::*;

verus! {

/// The model of a `String` or a `&str`.
pub type Text = Seq<char>;

/// The models of the elements of a sequence.
pub open spec fn views<T: View>(s: Seq<T>) -> Seq<T::V> {
    s.map_values(|t: T| t@)
}

/// The model of an optional value.
pub open spec fn opt_view<T: View>(o: Option<T>) -> Option<T::V> {
    match o {
        Some(t) => Some(t@),
        None => None,
    }
}

/// Pushing a value pushes its model.
pub proof fn lemma_views_push<T: View>(s: Seq<T>, t: T)
    ensures
        views(s.push(t)) == views(s).push(t@),
{
    assert(views(s.push(t)) =~= views(s).push(t@));
}

/// Whether two texts hold the same characters.
pub fn same_text(a: &str, b: &str) -> (r: bool)
    ensures
        r == (a@ == b@),
{
    a.to_string() == b.to_string()
}

/// A copy of a list of texts.
pub fn clone_texts(v: &Vec<String>) -> (r: Vec<String>)
    ensures
        r@ == v@,
{
    let r = v.clone();
    assert(r@ =~= v@);
    r
}

/// The characters of a text, in order.
pub fn chars_of(s: &str) -> (v: Vec<char>)
    ensures
        v@ == s@,
{
    let mut v: Vec<char> = Vec::new();
    for c in it: s.chars()
        invariant
            it.seq() == s@,
            v@ == it.seq().take(it.index()),
    {
        v.push(c);
    }
    v
}

// ------------------------------------------------------------------ ordering

/// The order of strings: lexicographic by code point.
pub open spec fn text_lt(a: Text, b: Text) -> bool
    decreases a.len(),
{
    if b.len() == 0 {
        false
    } else if a.len() == 0 {
        true
    } else if a[0] == b[0] {
        text_lt(a.drop_first(), b.drop_first())
    } else {
        (a[0] as int) < (b[0] as int)
    }
}

/// No text precedes itself.
pub proof fn lemma_text_lt_irreflexive(a: Text)
    ensures
        !text_lt(a, a),
    decreases a.len(),
{
    if a.len() > 0 {
        lemma_text_lt_irreflexive(a.drop_first());
    }
}

/// The order of texts is transitive.
pub proof fn lemma_text_lt_transitive(a: Text, b: Text, c: Text)
    requires
        text_lt(a, b),
        text_lt(b, c),
    ensures
        text_lt(a, c),
    decreases a.len(),
{
    if a.len() > 0 && a[0] == b[0] && b[0] == c[0] {
        lemma_text_lt_transitive(a.drop_first(), b.drop_first(), c.drop_first());
    }
}

/// Of two different texts one precedes the other.
pub proof fn lemma_text_lt_total(a: Text, b: Text)
    ensures
        a == b || text_lt(a, b) || text_lt(b, a),
    decreases a.len(),
{
    if a.len() == 0 || b.len() == 0 {
        if a.len() == 0 && b.len() == 0 {
            assert(a =~= b);
        }
    } else if a[0] == b[0] {
        lemma_text_lt_total(a.drop_first(), b.drop_first());
        if a.drop_first() == b.drop_first() {
            assert(a =~= seq![a[0]] + a.drop_first());
            assert(b =~= seq![b[0]] + b.drop_first());
        }
    }
}

fn char_before(c: char, d: char) -> (r: bool)
    ensures
        r == ((c as int) < (d as int)),
{
    (c as u32) < (d as u32)
}

/// Whether `a` precedes `b`.
pub fn text_before(a: &str, b: &str) -> (r: bool)
    ensures
        r == text_lt(a@, b@),
{
    let x = chars_of(a);
    let y = chars_of(b);
    let mut i: usize = 0;
    assert(x@.skip(0) =~= x@);
    assert(y@.skip(0) =~= y@);
    while i < x.len() && i < y.len() && x[i] == y[i]
        invariant
            i <= x.len(),
            i <= y.len(),
            text_lt(x@.skip(i as int), y@.skip(i as int)) == text_lt(x@, y@),
        decreases x.len() - i,
    {
        assert(x@.skip(i as int).drop_first() =~= x@.skip(i + 1));
        assert(y@.skip(i as int).drop_first() =~= y@.skip(i + 1));
        i += 1;
    }
    if i >= y.len() {
        false
    } else if i >= x.len() {
        true
    } else {
        char_before(x[i], y[i])
    }
}

// ------------------------------------------------------------------ decimals

/// The text of one decimal digit.
pub open spec fn digit_text(d: int) -> Text {
    if d == 0 {
        "0"@
    } else if d == 1 {
        "1"@
    } else if d == 2 {
        "2"@
    } else if d == 3 {
        "3"@
    } else if d == 4 {
        "4"@
    } else if d == 5 {
        "5"@
    } else if d == 6 {
        "6"@
    } else if d == 7 {
        "7"@
    } else if d == 8 {
        "8"@
    } else {
        "9"@
    }
}

/// A natural number in decimal, without leading zeros.
pub open spec fn dec_nat(n: nat) -> Text
    decreases n,
{
    if n < 10 {
        digit_text(n as int)
    } else {
        dec_nat(n / 10) + digit_text((n % 10) as int)
    }
}

/// An integer in decimal.
pub open spec fn dec(i: int) -> Text {
    if i < 0 {
        "-"@ + dec_nat((-i) as nat)
    } else {
        dec_nat(i as nat)
    }
}

/// Whether a character is a decimal digit.
pub open spec fn is_digit(c: char) -> bool {
    48 <= c as int <= 57
}

/// Whether a text is made of decimal digits.
pub open spec fn all_digits(s: Text) -> bool {
    forall|i: int| 0 <= i < s.len() ==> is_digit(#[trigger] s[i])
}

proof fn lemma_digit_text(d: int)
    requires
        0 <= d < 10,
    ensures
        digit_text(d).len() == 1,
        digit_text(d)[0] as int == 48 + d,
{
    reveal_strlit("0");
    reveal_strlit("1");
    reveal_strlit("2");
    reveal_strlit("3");
    reveal_strlit("4");
    reveal_strlit("5");
    reveal_strlit("6");
    reveal_strlit("7");
    reveal_strlit("8");
    reveal_strlit("9");
}

/// A number in decimal is made of digits, at least one.
pub proof fn lemma_dec_is_digits(n: nat)
    ensures
        dec_nat(n).len() > 0,
        all_digits(dec_nat(n)),
    decreases n,
{
    if n < 10 {
        lemma_digit_text(n as int);
    } else {
        lemma_dec_is_digits(n / 10);
        lemma_digit_text((n % 10) as int);
    }
}

/// Two numbers that look alike in decimal are the same number.
pub proof fn lemma_dec_injective(a: nat, b: nat)
    requires
        dec_nat(a) == dec_nat(b),
    ensures
        a == b,
    decreases a,
{
    lemma_dec_is_digits(a / 10);
    lemma_dec_is_digits(b / 10);
    lemma_digit_text((a % 10) as int);
    lemma_digit_text((b % 10) as int);
    let x = dec_nat(a);
    let y = dec_nat(b);
    if a >= 10 && b >= 10 {
        assert(x.last() == digit_text((a % 10) as int)[0]);
        assert(y.last() == digit_text((b % 10) as int)[0]);
        assert(x.drop_last() =~= dec_nat(a / 10));
        assert(y.drop_last() =~= dec_nat(b / 10));
        lemma_dec_injective(a / 10, b / 10);
    } else {
        assert(a < 10 ==> x.len() == 1);
        assert(a >= 10 ==> x.len() >= 2);
        assert(b < 10 ==> y.len() == 1);
        assert(b >= 10 ==> y.len() >= 2);
    }
}

/// Digits in front of something that is no digit can be told from it.
pub proof fn lemma_digits_split(x: Text, rest: Text, y: Text, other: Text)
    requires
        all_digits(x),
        all_digits(y),
        rest.len() > 0,
        other.len() > 0,
        !is_digit(rest[0]),
        !is_digit(other[0]),
        x + rest == y + other,
    ensures
        x == y,
        rest == other,
{
    let whole = x + rest;
    if x.len() < y.len() {
        assert(whole[x.len() as int] == rest[0]);
        assert((y + other)[x.len() as int] == y[x.len() as int]);
    } else if y.len() < x.len() {
        assert((y + other)[y.len() as int] == other[0]);
        assert(whole[y.len() as int] == x[y.len() as int]);
    }
    assert(whole.take(x.len() as int) =~= x);
    assert((y + other).take(y.len() as int) =~= y);
    assert(whole.skip(x.len() as int) =~= rest);
    assert((y + other).skip(y.len() as int) =~= other);
}

fn digit(d: u64) -> (s: &'static str)
    requires
        d < 10,
    ensures
        s@ == digit_text(d as int),
{
    if d == 0 {
        "0"
    } else if d == 1 {
        "1"
    } else if d == 2 {
        "2"
    } else if d == 3 {
        "3"
    } else if d == 4 {
        "4"
    } else if d == 5 {
        "5"
    } else if d == 6 {
        "6"
    } else if d == 7 {
        "7"
    } else if d == 8 {
        "8"
    } else {
        "9"
    }
}

/// The decimal text of an unsigned number.
pub fn decimal_u64(n: u64) -> (s: String)
    ensures
        s@ == dec(n as int),
    decreases n,
{
    if n < 10 {
        digit(n).to_string()
    } else {
        decimal_u64(n / 10).concat(digit(n % 10))
    }
}

/// The decimal text of a signed number.
pub fn decimal_i64(n: i64) -> (s: String)
    ensures
        s@ == dec(n as int),
{
    if n >= 0 {
        decimal_u64(n as u64)
    } else {
        let magnitude: u64 = (0 - (n as i128)) as u64;
        "-".to_string().concat(decimal_u64(magnitude).as_str())
    }
}

// -------------------------------------------------------------- substitution

/// Whether `s` begins with `pat`.
pub open spec fn begins_with(s: Text, pat: Text) -> bool {
    s.len() >= pat.len() && s.take(pat.len() as int) == pat
}

/// `s` with each occurrence of `pat`, from left to right and without overlap,
/// replaced by `with`.
pub open spec fn replaced(s: Text, pat: Text, with: Text) -> Text
    decreases s.len(),
{
    if s.len() == 0 || pat.len() == 0 {
        s
    } else if begins_with(s, pat) {
        with + replaced(s.skip(pat.len() as int), pat, with)
    } else {
        seq![s[0]] + replaced(s.drop_first(), pat, with)
    }
}

fn occurs_at(s: &Vec<char>, at: usize, pat: &Vec<char>) -> (r: bool)
    requires
        at <= s.len(),
    ensures
        r == begins_with(s@.skip(at as int), pat@),
{
    if s.len() - at < pat.len() {
        return false;
    }
    let mut i: usize = 0;
    while i < pat.len()
        invariant
            at <= s.len(),
            pat.len() <= s.len() - at,
            i <= pat.len(),
            forall|j: int| 0 <= j < i ==> s@[at + j] == pat@[j],
        decreases pat.len() - i,
    {
        if s[at + i] != pat[i] {
            assert(s@.skip(at as int).take(pat.len() as int)[i as int] != pat@[i as int]);
            return false;
        }
        i += 1;
    }
    assert(s@.skip(at as int).take(pat.len() as int) =~= pat@);
    true
}

/// `text` with every occurrence of the non-empty `pat` replaced by `with`.
pub fn replace_all(text: &str, pat: &str, with: &str) -> (r: String)
    requires
        pat@.len() > 0,
    ensures
        r@ == replaced(text@, pat@, with@),
{
    let s = chars_of(text);
    let p = chars_of(pat);
    let n: usize = s.len();
    let mut out = String::new();
    let mut start: usize = 0;
    let mut i: usize = 0;
    assert(s@.skip(0) =~= s@);
    assert(out@ + s@.subrange(0, 0) + replaced(s@.skip(0), p@, with@) =~= replaced(
        s@,
        p@,
        with@,
    ));
    while i < n
        invariant
            n == s.len(),
            s@ == text@,
            p@ == pat@,
            p@.len() > 0,
            start <= i <= n,
            out@ + s@.subrange(start as int, i as int) + replaced(s@.skip(i as int), p@, with@)
                == replaced(s@, p@, with@),
        decreases n - i,
    {
        let ghost before = out@;
        let ghost rest = s@.skip(i as int);
        if occurs_at(&s, i, &p) {
            out.append(text.substring_char(start, i));
            out.append(with);
            assert(rest.skip(p@.len() as int) =~= s@.skip(i + p@.len()));
            i += p.len();
            assert(out@ + s@.subrange(i as int, i as int) + replaced(s@.skip(i as int), p@, with@)
                =~= before + s@.subrange(start as int, i - p@.len()) + (with@ + replaced(
                s@.skip(i as int),
                p@,
                with@,
            )));
            start = i;
        } else {
            assert(rest.drop_first() =~= s@.skip(i + 1));
            assert(s@.subrange(start as int, i + 1) =~= s@.subrange(start as int, i as int).push(
                rest[0],
            ));
            assert(out@ + s@.subrange(start as int, i + 1) + replaced(s@.skip(i + 1), p@, with@)
                =~= out@ + s@.subrange(start as int, i as int) + (seq![rest[0]] + replaced(
                s@.skip(i + 1),
                p@,
                with@,
            )));
            i += 1;
        }
    }
    out.append(text.substring_char(start, n));
    assert(s@.skip(n as int) =~= Seq::<char>::empty());
    assert(out@ =~= replaced(s@, p@, with@));
    out
}

// ------------------------------------------------------------------ trimming

/// The characters with the Unicode property White_Space.
pub open spec fn is_space(c: char) -> bool {
    let u = c as int;
    ||| 0x09 <= u <= 0x0D
    ||| u == 0x20
    ||| u == 0x85
    ||| u == 0xA0
    ||| u == 0x1680
    ||| 0x2000 <= u <= 0x200A
    ||| u == 0x2028
    ||| u == 0x2029
    ||| u == 0x202F
    ||| u == 0x205F
    ||| u == 0x3000
}

/// Whether `c` is white space.
pub fn char_is_space(c: char) -> (r: bool)
    ensures
        r == is_space(c),
{
    let u: u32 = c as u32;
    (0x09 <= u && u <= 0x0D) || u == 0x20 || u == 0x85 || u == 0xA0 || u == 0x1680 || (0x2000 <= u
        && u <= 0x200A) || u == 0x2028 || u == 0x2029 || u == 0x202F || u == 0x205F || u == 0x3000
}

/// `s` without the white space in front.
pub open spec fn trimmed_front(s: Text) -> Text
    decreases s.len(),
{
    if s.len() > 0 && is_space(s[0]) {
        trimmed_front(s.drop_first())
    } else {
        s
    }
}

/// `s` without the white space behind.
pub open spec fn trimmed_back(s: Text) -> Text
    decreases s.len(),
{
    if s.len() > 0 && is_space(s.last()) {
        trimmed_back(s.drop_last())
    } else {
        s
    }
}

/// `s` without the white space at either end.
pub open spec fn trimmed(s: Text) -> Text {
    trimmed_back(trimmed_front(s))
}

/// `text` without the white space at either end.
pub fn trim_text(text: &str) -> (r: String)
    ensures
        r@ == trimmed(text@),
{
    let s = chars_of(text);
    let n: usize = s.len();
    let mut a: usize = 0;
    assert(s@.skip(0) =~= s@);
    while a < n && char_is_space(s[a])
        invariant
            n == s.len(),
            a <= n,
            trimmed_front(s@.skip(a as int)) == trimmed_front(s@),
        decreases n - a,
    {
        assert(s@.skip(a as int).drop_first() =~= s@.skip(a + 1));
        a += 1;
    }
    assert(trimmed_front(s@) == s@.skip(a as int));
    let mut b: usize = n;
    assert(s@.subrange(a as int, n as int) =~= s@.skip(a as int));
    while b > a && char_is_space(s[b - 1])
        invariant
            n == s.len(),
            a <= b <= n,
            trimmed_back(s@.subrange(a as int, b as int)) == trimmed_back(s@.skip(a as int)),
        decreases b,
    {
        assert(s@.subrange(a as int, b as int).drop_last() =~= s@.subrange(a as int, b - 1));
        b -= 1;
    }
    text.substring_char(a, b).to_string()
}

// ------------------------------------------------------------------- joining

/// The texts in order, with `sep` between neighbours.
pub open spec fn joined(parts: Seq<Text>, sep: Text) -> Text
    decreases parts.len(),
{
    if parts.len() == 0 {
        Seq::empty()
    } else if parts.len() == 1 {
        parts[0]
    } else {
        joined(parts.drop_last(), sep) + sep + parts.last()
    }
}

/// The texts in order, with `sep` between neighbours.
pub fn join_texts(parts: &Vec<String>, sep: &str) -> (r: String)
    ensures
        r@ == joined(views(parts@), sep@),
{
    let mut out = String::new();
    let mut i: usize = 0;
    let ghost all = views(parts@);
    while i < parts.len()
        invariant
            i <= parts.len(),
            all == views(parts@),
            out@ == joined(all.take(i as int), sep@),
        decreases parts.len() - i,
    {
        if i > 0 {
            out.append(sep);
        }
        out.append(parts[i].as_str());
        assert(all.take(i + 1).drop_last() =~= all.take(i as int));
        if i == 0 {
            assert(out@ =~= all[0]);
        }
        i += 1;
    }
    assert(all.take(i as int) =~= all);
    out
}

} // verus!
