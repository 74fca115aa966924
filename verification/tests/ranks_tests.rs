use beet_smart_cutoff::number::parse_usize;
use beet_smart_cutoff::ranks::{parse_custom_ranks, ranks_of_tokens, RanksError};

#[test]
fn ranks_are_read_in_order() {
    assert_eq!(parse_custom_ranks("10 20 30", 400).unwrap(), vec![10, 20, 30]);
    assert_eq!(parse_custom_ranks("  5\t400\n0  ", 400).unwrap(), vec![5, 400, 0]);
    assert_eq!(parse_custom_ranks("70 30", 400).unwrap(), vec![70, 30]);
}

#[test]
fn no_word_gives_no_rank() {
    assert_eq!(parse_custom_ranks("", 400).unwrap(), Vec::<usize>::new());
    assert_eq!(parse_custom_ranks("   ", 400).unwrap(), Vec::<usize>::new());
}

#[test]
fn rank_above_the_maximum_refuses_all() {
    match parse_custom_ranks("10 999999999", 400) {
        Err(RanksError::ExceedsMaximum { value, maximum }) => {
            assert_eq!(value, 999999999);
            assert_eq!(maximum, 400);
        }
        other => panic!("unexpected {other:?}"),
    }
    match parse_custom_ranks("401", 400) {
        Err(RanksError::ExceedsMaximum { value, maximum }) => {
            assert_eq!(value, 401);
            assert_eq!(maximum, 400);
        }
        other => panic!("unexpected {other:?}"),
    }
}

#[test]
fn word_that_is_no_number_refuses_all() {
    match parse_custom_ranks("10 x 999999999", 400) {
        Err(RanksError::NotANumber { token }) => assert_eq!(token, "x"),
        other => panic!("unexpected {other:?}"),
    }
    match parse_custom_ranks("10 -5", 400) {
        Err(RanksError::NotANumber { token }) => assert_eq!(token, "-5"),
        other => panic!("unexpected {other:?}"),
    }
    match parse_custom_ranks("340282366920938463463374607431768211456", 400) {
        Err(RanksError::NotANumber { token }) => {
            assert_eq!(token, "340282366920938463463374607431768211456")
        }
        other => panic!("unexpected {other:?}"),
    }
}

#[test]
fn first_fault_decides() {
    match parse_custom_ranks("500 x", 400) {
        Err(RanksError::ExceedsMaximum { value, .. }) => assert_eq!(value, 500),
        other => panic!("unexpected {other:?}"),
    }
    match parse_custom_ranks("x 500", 400) {
        Err(RanksError::NotANumber { token }) => assert_eq!(token, "x"),
        other => panic!("unexpected {other:?}"),
    }
}

#[test]
fn tokens_are_read_as_given() {
    assert_eq!(ranks_of_tokens(&["1", "+2", "003"], 10).unwrap(), vec![1, 2, 3]);
    assert!(matches!(
        ranks_of_tokens(&["1", "11"], 10),
        Err(RanksError::ExceedsMaximum { value: 11, maximum: 10 })
    ));
    assert!(matches!(ranks_of_tokens(&["1", " 2"], 10), Err(RanksError::NotANumber { .. })));
    assert_eq!(ranks_of_tokens(&[], 10).unwrap(), Vec::<usize>::new());
}

#[test]
fn numerals() {
    assert_eq!(parse_usize("0"), Some(0));
    assert_eq!(parse_usize("42"), Some(42));
    assert_eq!(parse_usize("+42"), Some(42));
    assert_eq!(parse_usize("0042"), Some(42));
    assert_eq!(parse_usize(""), None);
    assert_eq!(parse_usize("+"), None);
    assert_eq!(parse_usize("-"), None);
    assert_eq!(parse_usize("++1"), None);
    assert_eq!(parse_usize("-1"), None);
    assert_eq!(parse_usize("1_000"), None);
    assert_eq!(parse_usize("12a"), None);
    assert_eq!(parse_usize(" 12"), None);
    assert_eq!(parse_usize("\u{661}\u{662}"), None);
    assert_eq!(parse_usize(&usize::MAX.to_string()), Some(usize::MAX));
    assert_eq!(parse_usize(&format!("{}0", usize::MAX)), None);
    assert_eq!(parse_usize("18446744073709551616"), "18446744073709551616".parse::<usize>().ok());
}

#[test]
fn numerals_agree_with_the_standard_parser() {
    for text in ["7", "+7", "07", "+07", "7+", "+-7", "", "+", "999", "4294967295", "4294967296", "००"] {
        assert_eq!(parse_usize(text), text.parse::<usize>().ok(), "for {text:?}");
    }
}
