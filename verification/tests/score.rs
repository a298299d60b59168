use remote_print::list::fuzzy_compare;

#[test]
fn empty_search_scores_zero() {
    assert_eq!(fuzzy_compare("ed-6229-color3", ""), 0);
    assert_eq!(fuzzy_compare("", ""), 0);
}

#[test]
fn empty_candidate_scores_zero() {
    assert_eq!(fuzzy_compare("", "abc"), 0);
}

#[test]
fn first_hit_counts_three_later_hits_two() {
    assert_eq!(fuzzy_compare("abc", "a"), 3);
    assert_eq!(fuzzy_compare("abc", "ab"), 5);
    assert_eq!(fuzzy_compare("abc", "abc"), 7);
}

#[test]
fn hits_need_not_be_neighbours() {
    assert_eq!(fuzzy_compare("abc", "ac"), 5);
    assert_eq!(fuzzy_compare("ed-6229-color3", "color"), 11);
    assert_eq!(fuzzy_compare("ed-6229-color3", "e3"), 5);
}

#[test]
fn a_miss_counts_nothing_and_keeps_the_cursor() {
    assert_eq!(fuzzy_compare("abc", "x"), 0);
    assert_eq!(fuzzy_compare("abc", "xa"), 3);
    assert_eq!(fuzzy_compare("abc", "axb"), 5);
    assert_eq!(fuzzy_compare("abc", "axbxc"), 7);
}

#[test]
fn the_cursor_only_moves_forward() {
    assert_eq!(fuzzy_compare("abc", "cab"), 3);
    assert_eq!(fuzzy_compare("abc", "ba"), 3);
    assert_eq!(fuzzy_compare("aba", "aa"), 5);
}

#[test]
fn letter_case_is_ignored_for_ascii() {
    assert_eq!(fuzzy_compare("ABC", "abc"), 7);
    assert_eq!(fuzzy_compare("abc", "ABC"), 7);
    assert_eq!(fuzzy_compare("\u{c9}", "\u{e9}"), 0);
    assert_eq!(fuzzy_compare("\u{e9}t\u{e9}", "\u{e9}\u{e9}"), 5);
}

#[test]
fn search_longer_than_candidate_is_no_error() {
    assert_eq!(fuzzy_compare("ab", "abcdef"), 5);
    assert_eq!(fuzzy_compare("a", "aaaa"), 3);
}

#[test]
fn a_candidate_scores_highest_against_itself() {
    let names = ["ed-6229-color3", "a", "Printer", "xyzzy"];
    let searches = ["", "a", "ed", "color3", "retnirP", "ed-6229-color3x", "yzzyx"];
    for name in names {
        let own = fuzzy_compare(name, name);
        assert_eq!(own, 2 * name.chars().count() as i32 + 1);
        for search in searches {
            assert!(fuzzy_compare(name, search) <= own);
        }
    }
    assert!(fuzzy_compare("Printer", "retnirP") < fuzzy_compare("Printer", "Printer"));
}

#[test]
fn the_score_is_the_same_every_time_and_never_negative() {
    let pairs = [("abc", "abc"), ("abc", "zzz"), ("", "a"), ("nc-3450", "n3")];
    for (base, search) in pairs {
        let once = fuzzy_compare(base, search);
        assert_eq!(once, fuzzy_compare(base, search));
        assert!(once >= 0);
    }
}
