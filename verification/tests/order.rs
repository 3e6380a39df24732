use slick::order::{sort_strs, str_eq, str_lt};

#[test]
fn str_eq_compares_texts() {
    assert!(str_eq("abc", "abc"));
    assert!(str_eq("", ""));
    assert!(!str_eq("abc", "abd"));
    assert!(!str_eq("abc", "ab"));
    assert!(str_eq("\u{e9}", "\u{e9}"));
}

#[test]
fn str_lt_is_the_str_order() {
    let samples = ["", "a", "ab", "b", "B", "\u{e9}", "z", "\u{1f600}", "a\u{0}", "aa"];
    for x in samples.iter() {
        for y in samples.iter() {
            assert_eq!(str_lt(x, y), x < y, "{x:?} < {y:?}");
        }
    }
}

#[test]
fn sort_strs_sorts() {
    let sorted = sort_strs(vec!["b", "a", "\u{e9}", "c", "A"]);
    assert_eq!(sorted, vec!["A", "a", "b", "c", "\u{e9}"]);
    assert!(sort_strs(vec![]).is_empty());
}
