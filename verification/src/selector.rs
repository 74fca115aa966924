//! Choosing a cutoff step by step: the transitions on offer are worked out
//! for a list of target ranks, then each line that is typed either picks
//! one of them, asks for other targets, or ends the choice.
//!
//! The selector only decides. Whoever drives it shows what it reports,
//! asks for the lines and hands them in.

use crate::command::{lowercase_of, request_of, request_view, Command, CommandError};
use crate::entry::{DateEntry, EntryView};
use crate::ranks::{parse_custom_ranks, ranks_view, typed_ranks, RankFault, RanksError};
use crate::number::{decimal_digits, decimal_text};
use crate::transition::{
    date_changes_at, find_transition, is_first_change, transition_text, Transition,
};
use vstd::prelude::*;
use vstd::string::StringExecFns;

verus! {

/// What is reported for one target rank.
#[derive(Clone, Copy, Debug)]
pub enum Notice<'a> {
    /// A transition was found; it is on offer under the number `choice`.
    Breakpoint { choice: usize, target: usize, transition: Transition<'a> },
    /// The target does not lie past the transition found before it.
    Skipped { target: usize },
    /// The date does not change at or after the target.
    OutOfRange { target: usize },
}

/// What a `Notice` stands for in specifications.
pub ghost enum NoticeView {
    Breakpoint { choice: int, target: usize, rank: int, included: EntryView, excluded: EntryView },
    Skipped { target: usize },
    OutOfRange { target: usize },
}

impl<'a> View for Notice<'a> {
    type V = NoticeView;

    open spec fn view(&self) -> NoticeView {
        match *self {
            Notice::Breakpoint { choice, target, transition } => NoticeView::Breakpoint {
                choice: choice as int,
                target,
                rank: transition.rank as int,
                included: transition.included@,
                excluded: transition.excluded@,
            },
            Notice::Skipped { target } => NoticeView::Skipped { target },
            Notice::OutOfRange { target } => NoticeView::OutOfRange { target },
        }
    }
}

impl<'a> DeepView for Notice<'a> {
    type V = NoticeView;

    open spec fn deep_view(&self) -> NoticeView {
        self@
    }
}

/// The text that reports a transition found for `target` and on offer
/// under the number `choice`.
pub open spec fn breakpoint_text(choice: nat, target: nat, transition: Seq<char>) -> Seq<char> {
    "[#"@ + decimal_digits(choice) + "] Breakpoint for "@ + decimal_digits(target) + ":\n"@
        + transition
}

/// The text that reports a target that was skipped.
pub open spec fn skipped_text(target: nat) -> Seq<char> {
    "[skipping target: "@ + decimal_digits(target) + "]"@
}

/// The text that reports a target without a transition.
pub open spec fn out_of_range_text(target: nat) -> Seq<char> {
    "[out of range: "@ + decimal_digits(target) + "]"@
}

impl<'a> Notice<'a> {
    /// The text that shows this notice.
    pub fn to_string(&self) -> (text: String)
        ensures
            text@ == match *self {
                Notice::Breakpoint { choice, target, transition } => breakpoint_text(
                    choice as nat,
                    target as nat,
                    transition_text(
                        transition.rank as nat,
                        transition.included@,
                        transition.excluded@,
                    ),
                ),
                Notice::Skipped { target } => skipped_text(target as nat),
                Notice::OutOfRange { target } => out_of_range_text(target as nat),
            },
    {
        match self {
            Notice::Breakpoint { choice, target, transition } => {
                String::from_str("[#").concat(decimal_text(*choice as u128).as_str()).concat(
                    "] Breakpoint for ",
                ).concat(decimal_text(*target as u128).as_str()).concat(":\n").concat(
                    transition.to_string().as_str(),
                )
            },
            Notice::Skipped { target } => {
                String::from_str("[skipping target: ").concat(
                    decimal_text(*target as u128).as_str(),
                ).concat("]")
            },
            Notice::OutOfRange { target } => {
                String::from_str("[out of range: ").concat(
                    decimal_text(*target as u128).as_str(),
                ).concat("]")
            },
        }
    }
}

/// The first position at or after `skip`, counted from 0, where the date
/// changes, if there is one.
pub open spec fn first_change(entries: Seq<EntryView>, skip: int) -> Option<int> {
    if exists|i: int| is_first_change(entries, skip, i) {
        Some(choose|i: int| is_first_change(entries, skip, i))
    } else {
        None
    }
}

/// The ranks of the transitions that the notices report, in their order.
pub open spec fn found_ranks(notices: Seq<NoticeView>) -> Seq<int>
    decreases notices.len(),
{
    if notices.len() == 0 {
        Seq::empty()
    } else {
        match notices.last() {
            NoticeView::Breakpoint { rank, .. } => found_ranks(notices.drop_last()).push(rank),
            _ => found_ranks(notices.drop_last()),
        }
    }
}

/// What is reported for `target` after transitions of the ranks `found`
/// were found. A target below the rank of the last of them would find that
/// transition again and is skipped. A transition is reported with the two
/// entries that it lies between.
pub open spec fn notice_for(entries: Seq<EntryView>, found: Seq<int>, target: usize) -> NoticeView {
    if found.len() > 0 && target < found.last() {
        NoticeView::Skipped { target }
    } else {
        match first_change(entries, target as int) {
            Some(i) => NoticeView::Breakpoint {
                choice: found.len() as int + 1,
                target,
                rank: i + 1,
                included: entries[i],
                excluded: entries[i + 1],
            },
            None => NoticeView::OutOfRange { target },
        }
    }
}

/// What is reported for the targets, taken in the order given.
pub open spec fn notices_of(entries: Seq<EntryView>, targets: Seq<usize>) -> Seq<NoticeView>
    decreases targets.len(),
{
    if targets.len() == 0 {
        Seq::empty()
    } else {
        let earlier = notices_of(entries, targets.drop_last());
        earlier.push(notice_for(entries, found_ranks(earlier), targets.last()))
    }
}

/// The ranks of the transitions that are on offer for the targets.
pub open spec fn offered_ranks(entries: Seq<EntryView>, targets: Seq<usize>) -> Seq<int> {
    found_ranks(notices_of(entries, targets))
}

/// Whether `transitions` are the places in `entries` with the ranks given.
pub open spec fn transitions_at(
    transitions: Seq<Transition>,
    entries: Seq<EntryView>,
    ranks: Seq<int>,
) -> bool {
    &&& transitions.len() == ranks.len()
    &&& forall|k: int|
        0 <= k < transitions.len() ==> (#[trigger] transitions[k]).is_at(entries)
            && transitions[k].rank == ranks[k]
}

/// Whether each transition that the notices report is a place in
/// `entries`, and the one of `transitions` that stands under the number
/// that the notice gives it.
pub open spec fn offers_reported(
    notices: Seq<Notice>,
    transitions: Seq<Transition>,
    entries: Seq<EntryView>,
) -> bool {
    forall|k: int|
        0 <= k < notices.len() ==> (#[trigger] notices[k] matches Notice::Breakpoint {
            choice,
            transition,
            ..
        } ==> 1 <= choice <= transitions.len() && transition == transitions[choice - 1]
            && transition.is_at(entries))
}

/// What a search from `skip` finds is what `first_change` names.
pub proof fn lemma_first_change_found(entries: Seq<EntryView>, skip: int, i: int)
    requires
        is_first_change(entries, skip, i),
    ensures
        first_change(entries, skip) == Some(i),
{
}

/// One notice is given for each target.
pub proof fn lemma_one_notice_per_target(entries: Seq<EntryView>, targets: Seq<usize>)
    ensures
        notices_of(entries, targets).len() == targets.len(),
    decreases targets.len(),
{
    if targets.len() > 0 {
        lemma_one_notice_per_target(entries, targets.drop_last());
    }
}

/// The transitions on offer come in the order of their ranks, none twice,
/// and each of them is a place in the list where the date changes.
pub proof fn lemma_offer_increases(entries: Seq<EntryView>, targets: Seq<usize>)
    ensures
        forall|i: int, j: int|
            0 <= i < j < offered_ranks(entries, targets).len() ==> offered_ranks(entries, targets)[i]
                < offered_ranks(entries, targets)[j],
        forall|i: int|
            0 <= i < offered_ranks(entries, targets).len() ==> date_changes_at(
                entries,
                #[trigger] offered_ranks(entries, targets)[i] - 1,
            ),
        offered_ranks(entries, targets).len() <= targets.len(),
    decreases targets.len(),
{
    if targets.len() > 0 {
        let head = targets.drop_last();
        lemma_offer_increases(entries, head);
        let earlier = notices_of(entries, head);
        let found = found_ranks(earlier);
        let notice = notice_for(entries, found, targets.last());
        assert(earlier.push(notice).drop_last() == earlier);
    }
}

/// Works out what to report for each target, and the transitions on offer.
pub fn evaluate<'a>(entries: &'a [DateEntry], targets: &[usize]) -> (res: (
    Vec<Notice<'a>>,
    Vec<Transition<'a>>,
))
    ensures
        res.0.deep_view() == notices_of(entries.deep_view(), targets@),
        transitions_at(
            res.1@,
            entries.deep_view(),
            offered_ranks(entries.deep_view(), targets@),
        ),
        offers_reported(res.0@, res.1@, entries.deep_view()),
{
    let ghost list = entries.deep_view();
    let mut notices: Vec<Notice<'a>> = Vec::new();
    let mut transitions: Vec<Transition<'a>> = Vec::new();
    let mut k: usize = 0;
    while k < targets.len()
        invariant
            k <= targets.len(),
            list == entries.deep_view(),
            transitions.len() <= k,
            notices.deep_view() == notices_of(list, targets@.take(k as int)),
            transitions_at(transitions@, list, offered_ranks(list, targets@.take(k as int))),
            offers_reported(notices@, transitions@, list),
        decreases targets.len() - k,
    {
        let target = targets[k];
        let ghost earlier = notices.deep_view();
        let ghost found = found_ranks(earlier);
        assert(targets@.take(k + 1).drop_last() == targets@.take(k as int));
        let ghost expected = notice_for(list, found, target);
        assert(earlier.push(expected).drop_last() == earlier);
        let behind = transitions.len() > 0 && target < transitions[transitions.len() - 1].rank;
        let notice = if behind {
            Notice::Skipped { target }
        } else {
            match find_transition(entries, target) {
                Some(transition) => {
                    proof {
                        lemma_first_change_found(list, target as int, transition.rank - 1);
                    }
                    let choice = transitions.len() + 1;
                    transitions.push(transition);
                    Notice::Breakpoint { choice, target, transition }
                },
                None => Notice::OutOfRange { target },
            }
        };
        notices.push(notice);
        k += 1;
    }
    assert(targets@.take(k as int) == targets@);
    (notices, transitions)
}

/// The target ranks that a choice starts with.
pub open spec fn default_targets() -> Seq<usize> {
    seq![30usize, 50usize, 70usize]
}

/// Where a choice stands.
#[derive(Clone, Copy, Debug, PartialEq, Eq, Structural)]
pub enum Phase {
    /// The targets are set; the transitions for them are to be worked out.
    Evaluating,
    /// The transitions are on offer; a request is awaited.
    AwaitingCommand,
    /// Other target ranks were asked for; they are awaited.
    AwaitingCustomRanks,
    /// The choice was made, or given up.
    Done,
}

/// Why a typed line changed nothing.
#[derive(Debug)]
pub enum Rejection {
    /// The line is no request.
    Command(CommandError),
    /// No transition is on offer under this number.
    InvalidNumber { number: usize },
    /// The line is no list of target ranks.
    Ranks(RanksError),
}

/// What a `Rejection` stands for in specifications.
pub ghost enum RejectionView {
    Unrecognized { input: Seq<char> },
    InvalidNumber { number: usize },
    Ranks(RankFault),
}

impl View for Rejection {
    type V = RejectionView;

    open spec fn view(&self) -> RejectionView {
        match *self {
            Rejection::Command(CommandError::Unrecognized { input }) => {
                RejectionView::Unrecognized { input: input@ }
            },
            Rejection::InvalidNumber { number } => RejectionView::InvalidNumber { number },
            Rejection::Ranks(error) => RejectionView::Ranks(error@),
        }
    }
}

/// What is to be done after a typed line was taken in.
#[derive(Debug)]
pub enum Reply<'a> {
    /// Go on as the phase says.
    Proceed,
    /// Say why the line was refused, then go on as the phase says.
    Reject(Rejection),
    /// Stop: this entry was chosen, or none.
    Finish(Option<&'a DateEntry>),
}

/// What a `Reply` stands for in specifications.
pub ghost enum ReplyView {
    Proceed,
    Reject(RejectionView),
    Finish(Option<EntryView>),
}

impl<'a> View for Reply<'a> {
    type V = ReplyView;

    open spec fn view(&self) -> ReplyView {
        match *self {
            Reply::Proceed => ReplyView::Proceed,
            Reply::Reject(rejection) => ReplyView::Reject(rejection@),
            Reply::Finish(Some(entry)) => ReplyView::Finish(Some(entry@)),
            Reply::Finish(None) => ReplyView::Finish(None),
        }
    }
}

/// The state of a choice: the list to choose from, the largest rank that
/// may be typed, the targets in use, and how far the choice has come.
pub struct Selector<'a> {
    entries: &'a [DateEntry],
    max_entries: usize,
    targets: Vec<usize>,
    transitions: Vec<Transition<'a>>,
    phase: Phase,
    choice: Option<&'a DateEntry>,
}

/// What a `Selector` stands for in specifications. Once the transitions
/// are worked out, those on offer are the ones of
/// `offered_ranks(entries, targets)`.
pub ghost struct SelectorView {
    pub entries: Seq<EntryView>,
    pub max_entries: usize,
    pub targets: Seq<usize>,
    pub phase: Phase,
    pub choice: Option<EntryView>,
}

impl SelectorView {
    /// This state in another phase.
    pub open spec fn in_phase(self, phase: Phase) -> SelectorView {
        SelectorView {
            entries: self.entries,
            max_entries: self.max_entries,
            targets: self.targets,
            phase,
            choice: self.choice,
        }
    }

    /// Whether an entry counts as chosen only where the choice is over.
    pub open spec fn consistent(self) -> bool {
        self.choice is Some ==> self.phase == Phase::Done
    }

    /// This state at its end, with `choice` for the entry chosen.
    pub open spec fn finished(self, choice: Option<EntryView>) -> SelectorView {
        SelectorView {
            entries: self.entries,
            max_entries: self.max_entries,
            targets: self.targets,
            phase: Phase::Done,
            choice,
        }
    }

    /// This state with other targets, which are to be worked out.
    pub open spec fn retargeted(self, targets: Seq<usize>) -> SelectorView {
        SelectorView {
            entries: self.entries,
            max_entries: self.max_entries,
            targets,
            phase: Phase::Evaluating,
            choice: self.choice,
        }
    }
}

/// The state that a choice starts in.
pub open spec fn initial_state(entries: Seq<EntryView>, max_entries: usize) -> SelectorView {
    SelectorView {
        entries,
        max_entries,
        targets: default_targets(),
        phase: Phase::Evaluating,
        choice: None,
    }
}

/// The state after the transitions were worked out, and what is reported
/// for the targets. In another phase than `Evaluating` nothing is worked
/// out and nothing reported.
pub open spec fn after_evaluation(state: SelectorView) -> (SelectorView, Seq<NoticeView>) {
    if state.phase == Phase::Evaluating {
        (state.in_phase(Phase::AwaitingCommand), notices_of(state.entries, state.targets))
    } else {
        (state, Seq::empty())
    }
}

/// The state and the reply after a request was made while one was awaited.
/// A number picks the transition on offer under it; a number under which
/// none is on offer, and a line that is no request, change nothing.
pub open spec fn after_command(state: SelectorView, command: Result<Command, Seq<char>>) -> (
    SelectorView,
    ReplyView,
) {
    match command {
        Ok(Command::Quit) => (state.finished(None), ReplyView::Finish(None)),
        Ok(Command::Custom) => (state.in_phase(Phase::AwaitingCustomRanks), ReplyView::Proceed),
        Ok(Command::Empty) => (state, ReplyView::Proceed),
        Ok(Command::Number(number)) => {
            let ranks = offered_ranks(state.entries, state.targets);
            if 1 <= number <= ranks.len() {
                let entry = state.entries[ranks[number - 1] - 1];
                (state.finished(Some(entry)), ReplyView::Finish(Some(entry)))
            } else {
                (state, ReplyView::Reject(RejectionView::InvalidNumber { number }))
            }
        },
        Err(input) => (state, ReplyView::Reject(RejectionView::Unrecognized { input })),
    }
}

/// The state and the reply after target ranks were typed while they were
/// awaited. Ranks that are accepted become the targets, which are then to
/// be worked out. Ranks that are refused leave the targets and the
/// transitions on offer as they were, and a request is awaited again.
pub open spec fn after_ranks(state: SelectorView, ranks: Result<Seq<usize>, RankFault>) -> (
    SelectorView,
    ReplyView,
) {
    match ranks {
        Ok(targets) => (state.retargeted(targets), ReplyView::Proceed),
        Err(fault) => (
            state.in_phase(Phase::AwaitingCommand),
            ReplyView::Reject(RejectionView::Ranks(fault)),
        ),
    }
}

/// The state and the reply after something was handed in that is not
/// awaited: nothing changes. A choice that is over says again how it ended.
pub open spec fn ignored(state: SelectorView) -> (SelectorView, ReplyView) {
    if state.phase == Phase::Done {
        (state, ReplyView::Finish(state.choice))
    } else {
        (state, ReplyView::Proceed)
    }
}

/// The state and the reply after `line` was typed: it is read as a
/// request or as target ranks, whichever is awaited.
pub open spec fn after_line(state: SelectorView, line: Seq<char>) -> (SelectorView, ReplyView) {
    match state.phase {
        Phase::AwaitingCommand => after_command(state, request_of(lowercase_of(line))),
        Phase::AwaitingCustomRanks => after_ranks(state, typed_ranks(line, state.max_entries)),
        _ => ignored(state),
    }
}

/// A line that is refused leaves what is on offer as it was, and a request
/// is awaited next.
pub proof fn lemma_refusal_keeps_offer(state: SelectorView, line: Seq<char>)
    requires
        after_line(state, line).1 is Reject,
    ensures
        after_line(state, line).0 == state.in_phase(Phase::AwaitingCommand),
{
}

/// No entry counts as chosen before the choice is over: this holds at the
/// start, and whatever is typed or worked out keeps it.
pub proof fn lemma_state_stays_consistent(state: SelectorView, line: Seq<char>)
    requires
        state.consistent(),
    ensures
        initial_state(state.entries, state.max_entries).consistent(),
        after_evaluation(state).0.consistent(),
        after_line(state, line).0.consistent(),
        after_line(state, line).0.entries == state.entries,
        after_line(state, line).0.max_entries == state.max_entries,
{
}

/// A choice that is over stays as it is, whatever is typed.
pub proof fn lemma_done_is_final(state: SelectorView, line: Seq<char>)
    requires
        state.phase == Phase::Done,
    ensures
        after_line(state, line) == (state, ReplyView::Finish(state.choice)),
        after_evaluation(state).0 == state,
{
}

/// An entry is chosen only from the list, and only at the end: the reply
/// that ends a choice with an entry names the entry that is kept last at
/// one of the transitions on offer.
pub proof fn lemma_choice_is_on_offer(state: SelectorView, line: Seq<char>)
    requires
        state.phase == Phase::AwaitingCommand,
        after_line(state, line).1 matches ReplyView::Finish(Some(_)),
    ensures
        after_line(state, line).0.phase == Phase::Done,
        exists|k: int|
            0 <= k < offered_ranks(state.entries, state.targets).len() && after_line(
                state,
                line,
            ).0.choice == Some(
                state.entries[#[trigger] offered_ranks(state.entries, state.targets)[k] - 1],
            ),
{
    let ranks = offered_ranks(state.entries, state.targets);
    if let Ok(Command::Number(number)) = request_of(lowercase_of(line)) {
        assert(after_line(state, line).0.choice == Some(state.entries[ranks[number - 1] - 1]));
    }
}

/// The text to ask for a line with, while a line is awaited.
pub open spec fn prompt_of(phase: Phase) -> Option<Seq<char>> {
    match phase {
        Phase::AwaitingCommand => Some("Enter selection [#/Custom/Quit]:"@),
        Phase::AwaitingCustomRanks => Some("Enter custom target numbers (space separated):"@),
        _ => None,
    }
}

impl<'a> View for Selector<'a> {
    type V = SelectorView;

    closed spec fn view(&self) -> SelectorView {
        SelectorView {
            entries: self.entries.deep_view(),
            max_entries: self.max_entries,
            targets: self.targets@,
            phase: self.phase,
            choice: match self.choice {
                Some(entry) => Some(entry@),
                None => None,
            },
        }
    }
}

impl<'a> Selector<'a> {
    #[verifier::type_invariant]
    spec fn valid(self) -> bool {
        self.phase != Phase::Evaluating ==> transitions_at(
            self.transitions@,
            self.entries.deep_view(),
            offered_ranks(self.entries.deep_view(), self.targets@),
        )
    }

    /// Starts a choice among `entries` with the usual targets.
    pub fn new(entries: &'a [DateEntry], max_entries: usize) -> (selector: Selector<'a>)
        ensures
            selector@ == initial_state(entries.deep_view(), max_entries),
    {
        let mut targets: Vec<usize> = Vec::new();
        targets.push(30);
        targets.push(50);
        targets.push(70);
        assert(targets@ == default_targets());
        Selector {
            entries,
            max_entries,
            targets,
            transitions: Vec::new(),
            phase: Phase::Evaluating,
            choice: None,
        }
    }

    /// Where the choice stands.
    pub fn phase(&self) -> (phase: Phase)
        ensures
            phase == self@.phase,
    {
        self.phase
    }

    /// The entry that was chosen; none while the choice is open, and none
    /// where it was given up.
    pub fn choice(&self) -> (choice: Option<&'a DateEntry>)
        ensures
            choice.deep_view() == self@.choice,
    {
        self.choice
    }

    /// The text to ask for the next line with; none while no line is
    /// awaited.
    pub fn prompt(&self) -> (text: Option<&'static str>)
        ensures
            text.deep_view() == prompt_of(self@.phase),
    {
        match self.phase {
            Phase::AwaitingCommand => Some("Enter selection [#/Custom/Quit]:"),
            Phase::AwaitingCustomRanks => Some("Enter custom target numbers (space separated):"),
            _ => None,
        }
    }

    /// Works out the transitions for the targets and says what is to be
    /// reported for each target.
    pub fn evaluate(self) -> (res: (Selector<'a>, Vec<Notice<'a>>))
        ensures
            (res.0@, res.1.deep_view()) == after_evaluation(self@),
            forall|k: int|
                0 <= k < res.1.len() ==> (#[trigger] res.1[k] matches Notice::Breakpoint {
                    transition,
                    ..
                } ==> transition.is_at(self@.entries)),
    {
        match self.phase {
            Phase::Evaluating => {
                let (notices, transitions) = evaluate(self.entries, self.targets.as_slice());
                let next = Selector {
                    entries: self.entries,
                    max_entries: self.max_entries,
                    targets: self.targets,
                    transitions,
                    phase: Phase::AwaitingCommand,
                    choice: self.choice,
                };
                (next, notices)
            },
            _ => {
                let notices: Vec<Notice<'a>> = Vec::new();
                (self, notices)
            },
        }
    }

    /// Hands out the reply to something that is not awaited.
    fn ignore(self) -> (res: (Selector<'a>, Reply<'a>))
        ensures
            (res.0@, res.1@) == ignored(self@),
    {
        match self.phase {
            Phase::Done => {
                let choice = self.choice;
                (self, Reply::Finish(choice))
            },
            _ => (self, Reply::Proceed),
        }
    }

    /// Takes in a request, or what was read in place of one. It counts
    /// only while a request is awaited.
    pub fn apply_command(self, command: Result<Command, CommandError>) -> (res: (
        Selector<'a>,
        Reply<'a>,
    ))
        ensures
            (res.0@, res.1@) == if self@.phase == Phase::AwaitingCommand {
                after_command(self@, request_view(command))
            } else {
                ignored(self@)
            },
    {
        proof {
            use_type_invariant(&self);
        }
        if self.phase != Phase::AwaitingCommand {
            return self.ignore();
        }
        match command {
            Ok(Command::Quit) => {
                let next = Selector {
                    entries: self.entries,
                    max_entries: self.max_entries,
                    targets: self.targets,
                    transitions: self.transitions,
                    phase: Phase::Done,
                    choice: None,
                };
                (next, Reply::Finish(None))
            },
            Ok(Command::Custom) => {
                let next = Selector {
                    entries: self.entries,
                    max_entries: self.max_entries,
                    targets: self.targets,
                    transitions: self.transitions,
                    phase: Phase::AwaitingCustomRanks,
                    choice: self.choice,
                };
                (next, Reply::Proceed)
            },
            Ok(Command::Empty) => (self, Reply::Proceed),
            Ok(Command::Number(number)) => {
                if 1 <= number && number <= self.transitions.len() {
                    let entry = self.transitions[number - 1].included;
                    let next = Selector {
                        entries: self.entries,
                        max_entries: self.max_entries,
                        targets: self.targets,
                        transitions: self.transitions,
                        phase: Phase::Done,
                        choice: Some(entry),
                    };
                    (next, Reply::Finish(Some(entry)))
                } else {
                    (self, Reply::Reject(Rejection::InvalidNumber { number }))
                }
            },
            Err(error) => (self, Reply::Reject(Rejection::Command(error))),
        }
    }

    /// Takes in target ranks, or why what was typed is none. They count
    /// only while target ranks are awaited.
    pub fn apply_ranks(self, ranks: Result<Vec<usize>, RanksError>) -> (res: (
        Selector<'a>,
        Reply<'a>,
    ))
        ensures
            (res.0@, res.1@) == if self@.phase == Phase::AwaitingCustomRanks {
                after_ranks(self@, ranks_view(ranks))
            } else {
                ignored(self@)
            },
    {
        proof {
            use_type_invariant(&self);
        }
        if self.phase != Phase::AwaitingCustomRanks {
            return self.ignore();
        }
        match ranks {
            Ok(targets) => {
                let next = Selector {
                    entries: self.entries,
                    max_entries: self.max_entries,
                    targets,
                    transitions: Vec::new(),
                    phase: Phase::Evaluating,
                    choice: self.choice,
                };
                (next, Reply::Proceed)
            },
            Err(error) => {
                let next = Selector {
                    entries: self.entries,
                    max_entries: self.max_entries,
                    targets: self.targets,
                    transitions: self.transitions,
                    phase: Phase::AwaitingCommand,
                    choice: self.choice,
                };
                (next, Reply::Reject(Rejection::Ranks(error)))
            },
        }
    }

    /// Takes in a typed line: a request while one is awaited, target ranks
    /// while they are awaited.
    pub fn step(self, line: &str) -> (res: (Selector<'a>, Reply<'a>))
        ensures
            (res.0@, res.1@) == after_line(self@, line@),
    {
        match self.phase {
            Phase::AwaitingCommand => {
                let command = Command::from_str(line);
                self.apply_command(command)
            },
            Phase::AwaitingCustomRanks => {
                let ranks = parse_custom_ranks(line, self.max_entries);
                self.apply_ranks(ranks)
            },
            _ => self.ignore(),
        }
    }
}

} // verus!
