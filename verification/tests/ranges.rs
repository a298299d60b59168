use regex::Regex;
use remote_print::error::Error;
use remote_print::range::parse_range;

fn failed_int() -> Error {
    Error::UserError("failed to parse int".to_string())
}

fn no_range(trimmed: &str) -> Error {
    Error::UserError(format!("could not parse \"{}\" as range.", trimmed))
}

/// The same grammar written as two patterns and a comparison.
fn by_pattern(part: &str) -> Result<std::ops::RangeInclusive<u32>, Error> {
    let single = Regex::new(r"^\d+$").unwrap();
    let pair = Regex::new(r"^(?P<d1>\d+)\s*-\s*(?P<d2>\d+)$").unwrap();
    let part = part.trim();
    if single.is_match(part) {
        let page: u32 = part.parse().map_err(|_| failed_int())?;
        Ok(page..=page)
    } else if let Some(found) = pair.captures(part) {
        let first: u32 = found["d1"].parse().map_err(|_| failed_int())?;
        let last: u32 = found["d2"].parse().map_err(|_| failed_int())?;
        if first <= last {
            Ok(first..=last)
        } else {
            Err(no_range(part))
        }
    } else {
        Err(no_range(part))
    }
}

#[test]
fn a_single_number_is_a_range_of_one_page() {
    assert_eq!(parse_range("7"), Ok(7..=7));
    assert_eq!(parse_range("0"), Ok(0..=0));
    assert_eq!(parse_range("007"), Ok(7..=7));
    assert_eq!(parse_range("4294967295"), Ok(4294967295..=4294967295));
}

#[test]
fn two_numbers_with_a_hyphen_are_a_range() {
    assert_eq!(parse_range("2-14"), Ok(2..=14));
    assert_eq!(parse_range("3-3"), Ok(3..=3));
    assert_eq!(parse_range("0-4294967295"), Ok(0..=4294967295));
}

#[test]
fn a_range_that_ends_before_it_begins_is_refused() {
    assert_eq!(parse_range("14-2"), Err(no_range("14-2")));
    assert_eq!(parse_range(" 14 - 2 "), Err(no_range("14 - 2")));
    assert_eq!(parse_range("1-0"), Err(no_range("1-0")));
    assert_eq!(parse_range("4294967295-4294967294"), Err(no_range("4294967295-4294967294")));
    assert_eq!(parse_range("010-9"), Err(no_range("010-9")));
}

#[test]
fn an_accepted_range_begins_no_later_than_it_ends() {
    for first in [0u32, 1, 2, 9, 10, 14, 4294967295] {
        for last in [0u32, 1, 2, 9, 10, 14, 4294967295] {
            let text = format!("{}-{}", first, last);
            match parse_range(&text) {
                Ok(range) => {
                    assert!(first <= last);
                    assert_eq!(range, first..=last);
                }
                Err(e) => {
                    assert!(first > last);
                    assert_eq!(e, no_range(&text));
                }
            }
        }
    }
}

#[test]
fn a_number_too_large_is_noticed_before_the_order() {
    assert_eq!(parse_range("4294967296-1"), Err(failed_int()));
    assert_eq!(parse_range("5-4294967296"), Err(failed_int()));
}

#[test]
fn white_space_around_the_numbers_is_allowed() {
    assert_eq!(parse_range(" 7 "), Ok(7..=7));
    assert_eq!(parse_range("\t7\n"), Ok(7..=7));
    assert_eq!(parse_range("2 - 14"), Ok(2..=14));
    assert_eq!(parse_range("  2\t-  14 "), Ok(2..=14));
    assert_eq!(parse_range("2 -14"), Ok(2..=14));
    assert_eq!(parse_range("2- 14"), Ok(2..=14));
    assert_eq!(parse_range("\u{a0}2\u{2003}-\u{3000}14\u{85}"), Ok(2..=14));
}

#[test]
fn other_texts_are_refused() {
    for text in [
        "", " ", "a", "-", "2-", "-2", "2--3", "2-3-4", "1 2", "1,2", "+7", "-7", "7.0", "2 - - 3",
        "2-3x", "x2-3", "2_3", "0x10", "1e3", "2\u{2013}3", "\u{663}",
    ] {
        assert_eq!(parse_range(text), Err(no_range(text.trim())));
    }
}

#[test]
fn the_refusal_quotes_the_text_without_its_outer_white_space() {
    assert_eq!(
        parse_range("  a b  "),
        Err(Error::UserError("could not parse \"a b\" as range.".to_string()))
    );
}

#[test]
fn numbers_too_large_for_32_bits_are_refused() {
    assert_eq!(parse_range("4294967296"), Err(failed_int()));
    assert_eq!(parse_range("99999999999999999999999999"), Err(failed_int()));
    assert_eq!(parse_range("1-4294967296"), Err(failed_int()));
    assert_eq!(parse_range("4294967296-1"), Err(failed_int()));
    assert_eq!(parse_range("00000000004294967295"), Ok(4294967295..=4294967295));
}

#[test]
fn every_refusal_is_a_validation_failure() {
    for text in ["", "x", "4294967296", "1-"] {
        match parse_range(text) {
            Err(e) => assert_eq!(e.class(), remote_print::error::ErrorClass::Validation),
            Ok(_) => panic!("accepted"),
        }
    }
}

#[test]
fn the_grammar_agrees_with_its_patterns_on_ascii() {
    let pieces = ["", "0", "7", "12", "4294967296", "-", " ", "\t", "a", "+", "--", " - "];
    for a in pieces {
        for b in pieces {
            for c in pieces {
                let text = format!("{}{}{}", a, b, c);
                assert_eq!(parse_range(&text), by_pattern(&text));
            }
        }
    }
}

#[test]
fn the_grammar_agrees_with_its_patterns_on_unicode_white_space() {
    for space in ["\u{a0}", "\u{1680}", "\u{2000}", "\u{200a}", "\u{2028}", "\u{202f}", "\u{205f}", "\u{3000}", "\u{85}", "\u{b}", "\u{c}", "\r"] {
        for text in [
            format!("{}7{}", space, space),
            format!("2{}-{}14", space, space),
            format!("2{}14", space),
        ] {
            assert_eq!(parse_range(&text), by_pattern(&text));
        }
    }
    for other in ["\u{200b}", "\u{feff}", "\u{180e}", "\u{2060}"] {
        let text = format!("2{}-14", other);
        assert_eq!(parse_range(&text), by_pattern(&text));
    }
}
