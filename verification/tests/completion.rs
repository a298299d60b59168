use remote_print::ansi_colors::{DIM, MAGENTA, RESET};
use remote_print::list::PrinterInput;

fn list(names: &[&str]) -> PrinterInput {
    PrinterInput::new(names.iter().map(|n| n.to_string()).collect())
}

fn offered(names: &[&str]) -> Vec<String> {
    names.iter().map(|n| n.to_string()).collect()
}

#[test]
fn nothing_is_offered_from_an_empty_list() {
    let input = list(&[]);
    assert_eq!(input.len(), 0);
    assert_eq!(input.complete("", 0), (0, offered(&[])));
    assert_eq!(input.complete("anything", 8), (0, offered(&[])));
}

#[test]
fn a_single_candidate_is_always_offered() {
    let input = list(&["ed-6229-color3"]);
    for line in ["", "ed", "zzz", "ED-6229-COLOR3", "3roloc"] {
        assert_eq!(input.complete(line, line.len()), (0, offered(&["ed-6229-color3"])));
    }
}

#[test]
fn the_best_candidates_are_offered_in_list_order() {
    let input = list(&["alpha", "beta", "gamma"]);
    assert_eq!(input.complete("al", 2), (0, offered(&["alpha"])));
    assert_eq!(input.complete("a", 1), (0, offered(&["alpha", "beta", "gamma"])));
    assert_eq!(input.complete("ta", 2), (0, offered(&["beta"])));
    assert_eq!(input.complete("ma", 2), (0, offered(&["gamma"])));
}

#[test]
fn every_candidate_is_offered_when_nothing_matches() {
    let input = list(&["alpha", "beta", "gamma"]);
    assert_eq!(input.complete("zz", 2), (0, offered(&["alpha", "beta", "gamma"])));
    assert_eq!(input.complete("", 0), (0, offered(&["alpha", "beta", "gamma"])));
}

#[test]
fn completion_ignores_the_cursor() {
    let input = list(&["alpha", "beta"]);
    assert_eq!(input.complete("be", 0), input.complete("be", 2));
}

#[test]
fn no_hint_for_an_empty_line() {
    let input = list(&["ed-1", "ed-2"]);
    assert_eq!(input.hint("", 0), None);
}

#[test]
fn no_hint_while_the_cursor_is_before_the_end() {
    let input = list(&["ed-1", "ed-2", "nc-3"]);
    assert_eq!(input.hint("ed", 0), None);
    assert_eq!(input.hint("ed", 1), None);
    assert_eq!(input.hint("ed", 3), None);
    assert_eq!(input.hint("x3", 1), None);
}

#[test]
fn the_cursor_is_counted_in_bytes() {
    let input = list(&["\u{e9}cole", "other"]);
    assert_eq!(input.hint("\u{e9}", 1), None);
    assert_eq!(input.hint("\u{e9}", 2), Some("cole".to_string()));
}

#[test]
fn a_candidate_that_begins_with_the_line_gives_its_rest() {
    let input = list(&["ed-6229-color3", "nc-3450-laser1"]);
    assert_eq!(input.hint("nc-3", 4), Some("450-laser1".to_string()));
    assert_eq!(input.hint("ed-6229-color3", 14), Some(String::new()));
}

#[test]
fn the_prefix_is_compared_with_letter_case() {
    let input = list(&["ed-1"]);
    assert_eq!(input.hint("ED", 2), Some("  (ed-1)".to_string()));
}

#[test]
fn of_equal_candidates_the_later_one_gives_the_hint() {
    let input = list(&["ed-1", "ed-2", "nc-3"]);
    assert_eq!(input.hint("ed", 2), Some("-2".to_string()));
    assert_eq!(input.hint("e", 1), Some("d-2".to_string()));
    assert_eq!(input.hint("zz", 2), Some("  (nc-3)".to_string()));
}

#[test]
fn the_best_of_all_is_shown_in_brackets_when_none_begins_with_the_line() {
    let input = list(&["ed-1", "ed-2", "nc-3"]);
    assert_eq!(input.hint("x3", 2), Some("  (nc-3)".to_string()));
    assert_eq!(input.hint("d1", 2), Some("  (ed-1)".to_string()));
}

#[test]
fn no_hint_from_an_empty_list() {
    let input = list(&[]);
    assert_eq!(input.hint("ed", 2), None);
}

#[test]
fn line_and_hint_are_drawn_in_colour() {
    let input = list(&[]);
    assert_eq!(input.highlight("ed", 1), "\u{1b}[35med\u{1b}[0m");
    assert_eq!(input.highlight_hint("-1"), "\u{1b}[2m-1\u{1b}[0m");
    assert_eq!(input.highlight("", 0), format!("{}{}", MAGENTA, RESET));
    assert_eq!(input.highlight_hint("x"), format!("{}x{}", DIM, RESET));
}

#[test]
fn names_are_read_one_from_each_line() {
    let input = PrinterInput::from_lines("ed-1\ned-2\r\nnc-3");
    assert_eq!(input.len(), 3);
    assert_eq!(input.complete("", 0).1, offered(&["ed-1", "ed-2", "nc-3"]));
}

#[test]
fn lines_are_split_as_the_standard_library_splits_them() {
    let texts = [
        "",
        "\n",
        "a",
        "a\n",
        "a\nb",
        "a\n\nb\n",
        "a\r\nb\r\n",
        "a\r",
        "a\r\r\n",
        "\r\n",
        "\n\r",
        "a\rb\nc",
        "\n\n\n",
        "ed-1\n ed-2 \n",
    ];
    for text in texts {
        let expected: Vec<String> = text.lines().map(|l| l.to_string()).collect();
        let input = PrinterInput::from_lines(text);
        assert_eq!(input.len(), expected.len());
        assert_eq!(input.complete("", 0).1, expected);
    }
}
