use beet_smart_cutoff::command::{Command, CommandError};
use beet_smart_cutoff::ranks::RanksError;
use beet_smart_cutoff::selector::{evaluate, Notice, Phase, Rejection, Reply, Selector};
use beet_smart_cutoff::DateEntry;

fn entries(dates: &[&str]) -> Vec<DateEntry> {
    dates
        .iter()
        .enumerate()
        .map(|(number, date)| DateEntry { date: date.to_string(), entry: format!("item {number}") })
        .collect()
}

/// Thirty-one entries of one date, then four of an older one.
fn thirty_five() -> Vec<DateEntry> {
    let mut dates = vec!["2024-05-17"; 31];
    dates.extend(vec!["2024-05-16"; 4]);
    entries(&dates)
}

/// A selector for `list` that has worked out its first offer.
fn offering(list: &[DateEntry]) -> Selector<'_> {
    let (selector, _) = Selector::new(list, 400).evaluate();
    selector
}

#[test]
fn end_to_end_choice_of_the_first_transition() {
    let list = thirty_five();
    let selector = Selector::new(&list, 400);
    assert_eq!(selector.phase(), Phase::Evaluating);
    assert_eq!(selector.prompt(), None);

    let (selector, notices) = selector.evaluate();
    assert_eq!(notices.len(), 3);
    match notices[0] {
        Notice::Breakpoint { choice, target, transition } => {
            assert_eq!(choice, 1);
            assert_eq!(target, 30);
            assert_eq!(transition.rank, 31);
            assert_eq!(transition.included.entry, "item 30");
            assert_eq!(transition.excluded.entry, "item 31");
        }
        other => panic!("unexpected {other:?}"),
    }
    assert!(matches!(notices[1], Notice::OutOfRange { target: 50 }));
    assert!(matches!(notices[2], Notice::OutOfRange { target: 70 }));
    assert_eq!(selector.phase(), Phase::AwaitingCommand);
    assert_eq!(selector.prompt(), Some("Enter selection [#/Custom/Quit]:"));
    assert!(selector.choice().is_none());

    let (selector, reply) = selector.step("1");
    match reply {
        Reply::Finish(Some(entry)) => {
            assert_eq!(entry.entry, "item 30");
            assert_eq!(entry.date, "2024-05-17");
        }
        other => panic!("unexpected {other:?}"),
    }
    assert_eq!(selector.phase(), Phase::Done);
    assert_eq!(selector.prompt(), None);
    assert_eq!(selector.choice().map(|entry| entry.entry.as_str()), Some("item 30"));
}

#[test]
fn quitting_chooses_nothing() {
    let list = thirty_five();
    let (selector, reply) = offering(&list).step("Quit");
    assert!(matches!(reply, Reply::Finish(None)));
    assert_eq!(selector.phase(), Phase::Done);
    assert!(selector.choice().is_none());
}

#[test]
fn nothing_counts_once_the_choice_is_over() {
    let list = thirty_five();
    let (selector, _) = offering(&list).step("q");
    let (selector, reply) = selector.step("1");
    assert!(matches!(reply, Reply::Finish(None)));
    assert_eq!(selector.phase(), Phase::Done);
    let (selector, notices) = selector.evaluate();
    assert!(notices.is_empty());
    assert_eq!(selector.phase(), Phase::Done);

    let (selector, _) = offering(&list).step("1");
    let (selector, reply) = selector.step("q");
    match reply {
        Reply::Finish(Some(entry)) => assert_eq!(entry.entry, "item 30"),
        other => panic!("unexpected {other:?}"),
    }
    assert_eq!(selector.choice().map(|entry| entry.entry.as_str()), Some("item 30"));
}

#[test]
fn no_line_counts_before_the_offer_is_worked_out() {
    let list = thirty_five();
    let (selector, reply) = Selector::new(&list, 400).step("1");
    assert!(matches!(reply, Reply::Proceed));
    assert_eq!(selector.phase(), Phase::Evaluating);
    let (selector, reply) = selector.step("q");
    assert!(matches!(reply, Reply::Proceed));
    assert_eq!(selector.phase(), Phase::Evaluating);
    let (selector, notices) = selector.evaluate();
    assert_eq!(notices.len(), 3);
    assert_eq!(selector.phase(), Phase::AwaitingCommand);
}

#[test]
fn empty_line_asks_again() {
    let list = thirty_five();
    let (selector, reply) = offering(&list).step("");
    assert!(matches!(reply, Reply::Proceed));
    assert_eq!(selector.phase(), Phase::AwaitingCommand);
}

#[test]
fn number_without_a_transition_is_refused() {
    let list = thirty_five();
    let (selector, reply) = offering(&list).step("2");
    assert!(matches!(reply, Reply::Reject(Rejection::InvalidNumber { number: 2 })));
    assert_eq!(selector.phase(), Phase::AwaitingCommand);
    let (_, reply) = selector.step("1");
    assert!(matches!(reply, Reply::Finish(Some(_))));
}

#[test]
fn unrecognized_line_is_refused_and_changes_nothing() {
    let list = thirty_five();
    let (selector, reply) = offering(&list).step("What");
    match reply {
        Reply::Reject(Rejection::Command(CommandError::Unrecognized { input })) => {
            assert_eq!(input, "what")
        }
        other => panic!("unexpected {other:?}"),
    }
    assert_eq!(selector.phase(), Phase::AwaitingCommand);
    let (_, reply) = selector.step("1");
    assert!(matches!(reply, Reply::Finish(Some(_))));
}

#[test]
fn custom_targets_replace_the_offer() {
    let list = entries(&["e", "e", "d", "d", "d", "c", "b", "b", "a"]);
    let (selector, notices) = Selector::new(&list, 400).evaluate();
    assert!(notices.iter().all(|notice| matches!(notice, Notice::OutOfRange { .. })));

    let (selector, reply) = selector.step("c");
    assert!(matches!(reply, Reply::Proceed));
    assert_eq!(selector.phase(), Phase::AwaitingCustomRanks);
    assert_eq!(selector.prompt(), Some("Enter custom target numbers (space separated):"));

    let (selector, reply) = selector.step("0 1 2 6 8");
    assert!(matches!(reply, Reply::Proceed));
    assert_eq!(selector.phase(), Phase::Evaluating);

    let (selector, notices) = selector.evaluate();
    assert_eq!(notices.len(), 5);
    assert!(matches!(
        notices[0],
        Notice::Breakpoint { choice: 1, target: 0, transition } if transition.rank == 2
    ));
    assert!(matches!(notices[1], Notice::Skipped { target: 1 }));
    assert!(matches!(
        notices[2],
        Notice::Breakpoint { choice: 2, target: 2, transition } if transition.rank == 5
    ));
    assert!(matches!(
        notices[3],
        Notice::Breakpoint { choice: 3, target: 6, transition } if transition.rank == 8
    ));
    assert!(matches!(notices[4], Notice::OutOfRange { target: 8 }));
    assert_eq!(selector.phase(), Phase::AwaitingCommand);

    let (selector, reply) = selector.step("4");
    assert!(matches!(reply, Reply::Reject(Rejection::InvalidNumber { number: 4 })));
    let (_, reply) = selector.step("3");
    match reply {
        Reply::Finish(Some(entry)) => assert_eq!(entry.entry, "item 7"),
        other => panic!("unexpected {other:?}"),
    }
}

#[test]
fn refused_custom_targets_keep_the_offer() {
    let list = thirty_five();
    let (selector, _) = offering(&list).step("custom");
    let (selector, reply) = selector.step("10 999999999");
    match reply {
        Reply::Reject(Rejection::Ranks(RanksError::ExceedsMaximum { value, maximum })) => {
            assert_eq!(value, 999999999);
            assert_eq!(maximum, 400);
        }
        other => panic!("unexpected {other:?}"),
    }
    assert_eq!(selector.phase(), Phase::AwaitingCommand);
    let (selector, reply) = selector.step("2");
    assert!(matches!(reply, Reply::Reject(Rejection::InvalidNumber { number: 2 })));
    let (_, reply) = selector.step("1");
    match reply {
        Reply::Finish(Some(entry)) => assert_eq!(entry.entry, "item 30"),
        other => panic!("unexpected {other:?}"),
    }
}

#[test]
fn custom_targets_that_are_no_numbers_keep_the_offer() {
    let list = thirty_five();
    let (selector, _) = offering(&list).step("C");
    let (selector, reply) = selector.step("10 twenty");
    match reply {
        Reply::Reject(Rejection::Ranks(RanksError::NotANumber { token })) => {
            assert_eq!(token, "twenty")
        }
        other => panic!("unexpected {other:?}"),
    }
    assert_eq!(selector.phase(), Phase::AwaitingCommand);
    let (_, reply) = selector.step("1");
    assert!(matches!(reply, Reply::Finish(Some(_))));
}

#[test]
fn no_custom_target_leaves_nothing_on_offer() {
    let list = thirty_five();
    let (selector, _) = offering(&list).step("c");
    let (selector, reply) = selector.step("   ");
    assert!(matches!(reply, Reply::Proceed));
    let (selector, notices) = selector.evaluate();
    assert!(notices.is_empty());
    let (_, reply) = selector.step("1");
    assert!(matches!(reply, Reply::Reject(Rejection::InvalidNumber { number: 1 })));
}

#[test]
fn target_equal_to_the_last_rank_is_searched() {
    let list = entries(&["c", "b", "a"]);
    let (notices, transitions) = evaluate(&list, &[0, 1]);
    assert!(matches!(
        notices[0],
        Notice::Breakpoint { choice: 1, target: 0, transition } if transition.rank == 1
    ));
    assert!(matches!(
        notices[1],
        Notice::Breakpoint { choice: 2, target: 1, transition } if transition.rank == 2
    ));
    assert_eq!(transitions.len(), 2);
}

#[test]
fn targets_are_taken_in_the_order_given() {
    let list = entries(&["e", "e", "d", "d", "d", "c", "b", "b", "a"]);
    let (notices, transitions) = evaluate(&list, &[6, 0, 7]);
    assert!(matches!(
        notices[0],
        Notice::Breakpoint { choice: 1, target: 6, transition } if transition.rank == 8
    ));
    assert!(matches!(notices[1], Notice::Skipped { target: 0 }));
    assert!(matches!(notices[2], Notice::Skipped { target: 7 }));
    assert_eq!(transitions.len(), 1);
    let (notices, transitions) = evaluate(&list, &[]);
    assert!(notices.is_empty());
    assert!(transitions.is_empty());
}

#[test]
fn offered_ranks_increase() {
    let list = entries(&["g", "f", "f", "e", "d", "d", "d", "c", "b", "b", "a"]);
    for targets in [vec![0, 1, 2, 3], vec![3, 1, 5, 0, 9], vec![9, 8, 7], vec![2, 2, 2, 20]] {
        let (_, transitions) = evaluate(&list, &targets);
        for pair in transitions.windows(2) {
            assert!(pair[0].rank < pair[1].rank);
        }
        for transition in &transitions {
            assert_ne!(transition.included.date, transition.excluded.date);
        }
    }
}

#[test]
fn requests_can_be_handed_in_as_read() {
    let list = thirty_five();
    let (selector, reply) = offering(&list).apply_command(Ok(Command::Number(0)));
    assert!(matches!(reply, Reply::Reject(Rejection::InvalidNumber { number: 0 })));
    let (selector, reply) = selector.apply_command(Ok(Command::Empty));
    assert!(matches!(reply, Reply::Proceed));
    let (selector, reply) = selector.apply_ranks(Ok(vec![0]));
    assert!(matches!(reply, Reply::Proceed));
    assert_eq!(selector.phase(), Phase::AwaitingCommand);

    let (selector, reply) = selector.apply_command(Ok(Command::Custom));
    assert!(matches!(reply, Reply::Proceed));
    let (selector, reply) = selector.apply_command(Ok(Command::Quit));
    assert!(matches!(reply, Reply::Proceed));
    assert_eq!(selector.phase(), Phase::AwaitingCustomRanks);
    let (selector, reply) = selector.apply_ranks(Ok(vec![0]));
    assert!(matches!(reply, Reply::Proceed));
    let (selector, notices) = selector.evaluate();
    assert!(matches!(
        notices[0],
        Notice::Breakpoint { choice: 1, target: 0, transition } if transition.rank == 31
    ));
    let (_, reply) = selector.apply_command(Ok(Command::Quit));
    assert!(matches!(reply, Reply::Finish(None)));
}
