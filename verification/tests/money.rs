use avalon::fmt_pence;

#[test]
fn money_is_pre_decimal() {
    assert_eq!(fmt_pence(0), "0d");
    assert_eq!(fmt_pence(11), "11d");
    assert_eq!(fmt_pence(12), "1s");
    assert_eq!(fmt_pence(25), "2s 1d");
    assert_eq!(fmt_pence(240), "£1 0s");
    assert_eq!(fmt_pence(360), "£1 10s");
    assert_eq!(fmt_pence(4321), "£18 0s 1d");
    assert_eq!(fmt_pence(-253), "-£1 1s 1d");
    assert_eq!(fmt_pence(-5), "-5d");
    assert_eq!(fmt_pence(i64::MAX), "£38430716820228232 10s 7d".to_string());
}

#[test]
fn sums_shown_alike_are_the_same_sum() {
    let mut seen = std::collections::BTreeSet::new();
    for p in -3_000..=3_000 {
        let text = fmt_pence(p);
        assert_eq!(text.starts_with('-'), p < 0);
        assert!(seen.insert(text));
    }
    assert_ne!(fmt_pence(i64::MAX), fmt_pence(-i64::MAX));
}
