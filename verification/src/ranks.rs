//! Target ranks that are typed in place of the usual ones.

use crate::number::{parse_usize, parsed_usize};
use crate::text::{chars_of, pieces_at, ranges_within, word_ranges, words_of, WhiteSpace};
use vstd::prelude::*;
use vstd::string::{StrSliceExecFns, StringExecFns};

verus! {

/// Why a list of target ranks is refused.
#[derive(Debug)]
pub enum RanksError {
    /// This word is no number, or a number too large for the machine.
    NotANumber { token: String },
    /// This number is larger than the largest rank that is allowed.
    ExceedsMaximum { value: usize, maximum: usize },
}

/// What a `RanksError` stands for in specifications.
pub ghost enum RankFault {
    NotANumber { token: Seq<char> },
    ExceedsMaximum { value: usize, maximum: usize },
}

impl View for RanksError {
    type V = RankFault;

    open spec fn view(&self) -> RankFault {
        match *self {
            RanksError::NotANumber { token } => RankFault::NotANumber { token: token@ },
            RanksError::ExceedsMaximum { value, maximum } => RankFault::ExceedsMaximum {
                value,
                maximum,
            },
        }
    }
}

/// The ranks that `tokens` stand for. Each token must be a number and no
/// larger than `maximum`; the first one that is not decides the fault, and
/// then no rank is given at all.
pub open spec fn ranks_of(tokens: Seq<Seq<char>>, maximum: usize) -> Result<Seq<usize>, RankFault>
    decreases tokens.len(),
{
    if tokens.len() == 0 {
        Ok(Seq::empty())
    } else {
        match ranks_of(tokens.drop_last(), maximum) {
            Err(fault) => Err(fault),
            Ok(ranks) => match parsed_usize(tokens.last()) {
                None => Err(RankFault::NotANumber { token: tokens.last() }),
                Some(value) => if value > maximum {
                    Err(RankFault::ExceedsMaximum { value, maximum })
                } else {
                    Ok(ranks.push(value))
                },
            },
        }
    }
}

/// What a result of reading ranks stands for in specifications.
pub open spec fn ranks_view(res: Result<Vec<usize>, RanksError>) -> Result<Seq<usize>, RankFault> {
    match res {
        Ok(ranks) => Ok(ranks@),
        Err(error) => Err(error@),
    }
}

/// Reads the ranks that `tokens` stand for.
pub fn ranks_of_tokens(tokens: &[&str], maximum: usize) -> (res: Result<Vec<usize>, RanksError>)
    ensures
        ranks_view(res) == ranks_of(tokens.deep_view(), maximum),
{
    let ghost words = tokens.deep_view();
    let mut ranks: Vec<usize> = Vec::new();
    let mut k: usize = 0;
    while k < tokens.len()
        invariant
            k <= tokens.len(),
            words == tokens.deep_view(),
            ranks_of(words.take(k as int), maximum) == Ok::<Seq<usize>, RankFault>(ranks@),
        decreases tokens.len() - k,
    {
        let token = tokens[k];
        assert(words.take(k + 1).drop_last() == words.take(k as int));
        proof {
            lemma_fault_stays(words, maximum, k + 1);
        }
        match parse_usize(token) {
            None => {
                return Err(RanksError::NotANumber { token: String::from_str(token) });
            },
            Some(value) => {
                if value > maximum {
                    return Err(RanksError::ExceedsMaximum { value, maximum });
                }
                ranks.push(value);
            },
        }
        k += 1;
    }
    assert(words.take(k as int) == words);
    Ok(ranks)
}

/// A fault among the first `n` tokens is the fault of them all.
pub proof fn lemma_fault_stays(tokens: Seq<Seq<char>>, maximum: usize, n: int)
    requires
        0 <= n <= tokens.len(),
    ensures
        ranks_of(tokens.take(n), maximum) is Err ==> ranks_of(tokens, maximum) == ranks_of(
            tokens.take(n),
            maximum,
        ),
    decreases tokens.len() - n,
{
    if n < tokens.len() {
        assert(tokens.take(n + 1).drop_last() == tokens.take(n));
        lemma_fault_stays(tokens, maximum, n + 1);
    } else {
        assert(tokens.take(n) == tokens);
    }
}

/// The ranks that a typed line stands for: its words, which white space
/// separates, read as `ranks_of` says.
pub open spec fn typed_ranks(line: Seq<char>, maximum: usize) -> Result<Seq<usize>, RankFault> {
    ranks_of(words_of(line, WhiteSpace), maximum)
}

/// Reads the ranks that a typed line stands for.
pub fn parse_custom_ranks(line: &str, maximum: usize) -> (res: Result<Vec<usize>, RanksError>)
    ensures
        ranks_view(res) == typed_ranks(line@, maximum),
{
    let chars = chars_of(line);
    let ranges = word_ranges(chars.as_slice(), &WhiteSpace);
    let mut tokens: Vec<&str> = Vec::new();
    let mut k: usize = 0;
    while k < ranges.len()
        invariant
            k <= ranges.len(),
            chars@ == line@,
            ranges_within(ranges@, chars.len() as int),
            tokens.deep_view() == pieces_at(chars@, ranges@).take(k as int),
        decreases ranges.len() - k,
    {
        let (start, end) = ranges[k];
        let token = line.substring_char(start, end);
        tokens.push(token);
        assert(pieces_at(chars@, ranges@).take(k + 1) == pieces_at(chars@, ranges@).take(
            k as int,
        ).push(pieces_at(chars@, ranges@)[k as int]));
        k += 1;
    }
    assert(pieces_at(chars@, ranges@).take(k as int) == pieces_at(chars@, ranges@));
    ranks_of_tokens(tokens.as_slice(), maximum)
}

} // verus!
