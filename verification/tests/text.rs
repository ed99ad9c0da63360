//! The string helpers against the ones that std documents.

use avalon::flags::FlagSet;
use avalon::text::{
    char_is_space, chars_of, decimal_i64, decimal_u64, join_texts, replace_all, same_text,
    text_before, trim_text,
};

#[test]
fn decimals_are_written_as_std_writes_them() {
    for n in [0u64, 1, 9, 10, 99, 100, 1_000_007, u64::MAX] {
        assert_eq!(decimal_u64(n), n.to_string());
    }
    for n in [0i64, -1, 7, -10, 4_320, i64::MAX, i64::MIN, i64::MIN + 1] {
        assert_eq!(decimal_i64(n), n.to_string());
    }
    for n in 0..2_000 {
        assert_eq!(decimal_i64(-n), (-n).to_string());
    }
}

#[test]
fn spaces_are_the_ones_of_unicode() {
    for n in 0..=0x10_FFFFu32 {
        if let Some(c) = char::from_u32(n) {
            assert_eq!(char_is_space(c), c.is_whitespace(), "{n:#x}");
        }
    }
}

#[test]
fn texts_are_trimmed() {
    for t in ["", " ", "a", "  a b \n", "\u{3000}x\u{a0}", "\u{200b}y\u{200b}", "no"] {
        assert_eq!(trim_text(t), t.trim());
    }
}

#[test]
fn occurrences_are_replaced_from_the_left() {
    let cases = [
        ("", "{x}", "y"),
        ("{x}{x}", "{x}", "y"),
        ("{{x}}", "{x}", "{x}"),
        ("aaaa", "aa", "b"),
        ("aaaaa", "aa", ""),
        ("é{x}é", "{x}", "ß"),
        ("{x", "{x}", "y"),
    ];
    for (t, pat, with) in cases {
        assert_eq!(replace_all(t, pat, with), t.replace(pat, with));
    }
}

#[test]
fn texts_are_ordered_as_strings_are() {
    let all = ["", "a", "ab", "abc", "b", "B", "é", "z", "\u{ffff}", "\u{10000}", "tried_run1"];
    for a in all {
        for b in all {
            assert_eq!(text_before(a, b), a < b);
            assert_eq!(same_text(a, b), a == b);
        }
    }
}

#[test]
fn texts_are_joined() {
    let parts: Vec<String> = ["a", "", "c"].iter().map(|s| s.to_string()).collect();
    assert_eq!(join_texts(&parts, "; "), "a; ; c");
    assert_eq!(join_texts(&parts[..1].to_vec(), "; "), "a");
    assert_eq!(join_texts(&Vec::new(), "; "), "");
}

#[test]
fn characters_are_listed() {
    assert_eq!(chars_of("aé\u{10000}"), vec!['a', 'é', '\u{10000}']);
}

#[test]
fn a_set_keeps_what_is_put_in_once() {
    let mut set = FlagSet::new();
    let mut std_set = std::collections::BTreeSet::new();
    for i in [5, 3, 9, 3, 1, 5, 12, 10] {
        let name = format!("flag{i}");
        assert_eq!(set.insert(name.clone()), std_set.insert(name));
    }
    let members: Vec<String> = std_set.into_iter().collect();
    assert_eq!(set.items(), &members);
    assert_eq!(set.get(0), "flag1");
}
