//! The fixed filters of a list query and the arguments that they become.

use crate::config::ConfigError;
use crate::text::{
    chars_of, lemma_split_by_nonempty, line_ranges, lines_of, pieces_at, ranges_within, split_by,
    split_ranges, Exactly,
};
use vstd::prelude::*;
use vstd::slice::slice_subrange;
use vstd::string::{StrSliceExecFns, StringExecFns};

verus! {

/// The groups of filter tokens that a description holds: a comma separates
/// two groups, and inside a group each line is one token.
pub open spec fn groups_of(text: Seq<char>) -> Seq<Seq<Seq<char>>> {
    let pieces = split_by(text, Exactly(','));
    Seq::new(pieces.len(), |k: int| lines_of(pieces[k], Exactly('\n'), Exactly('\r')))
}

/// Whether there is a group and every group has a token.
pub open spec fn well_formed(groups: Seq<Seq<Seq<char>>>) -> bool {
    &&& groups.len() >= 1
    &&& forall|k: int| 0 <= k < groups.len() ==> (#[trigger] groups[k]).len() >= 1
}

/// Whether `k` is the position of the first group without a token.
pub open spec fn is_first_empty_group(groups: Seq<Seq<Seq<char>>>, k: int) -> bool {
    &&& 0 <= k < groups.len()
    &&& groups[k].len() == 0
    &&& forall|j: int| 0 <= j < k ==> (#[trigger] groups[j]).len() >= 1
}

/// The token that ends a group's arguments. A group that another group
/// follows ends in its own last token with a comma behind it. The final
/// group ends in the extra filter where there is one, else in its own last
/// token.
pub open spec fn closing_token(
    group: Seq<Seq<char>>,
    is_final: bool,
    extra: Option<Seq<char>>,
) -> Seq<char> {
    if !is_final {
        group.last().push(',')
    } else {
        match extra {
            Some(token) => token,
            None => group.last(),
        }
    }
}

/// The arguments that one group becomes: its tokens but the last as they
/// are, then its closing token.
pub open spec fn group_args(
    group: Seq<Seq<char>>,
    is_final: bool,
    extra: Option<Seq<char>>,
) -> Seq<Seq<char>> {
    group.drop_last().push(closing_token(group, is_final, extra))
}

/// The arguments that the first `n` groups become.
pub open spec fn filter_args(
    groups: Seq<Seq<Seq<char>>>,
    extra: Option<Seq<char>>,
    n: int,
) -> Seq<Seq<char>>
    decreases n,
{
    if n <= 0 {
        Seq::empty()
    } else {
        filter_args(groups, extra, n - 1) + group_args(groups[n - 1], n == groups.len(), extra)
    }
}

/// The arguments of a list query: the command word, then the arguments of
/// every group in order.
pub open spec fn list_args(groups: Seq<Seq<Seq<char>>>, extra: Option<Seq<char>>) -> Seq<
    Seq<char>,
> {
    seq!["list"@] + filter_args(groups, extra, groups.len() as int)
}

/// The groups before the final one become the same arguments whatever the
/// extra filter is.
pub proof fn lemma_extra_leaves_earlier_groups(
    groups: Seq<Seq<Seq<char>>>,
    first: Option<Seq<char>>,
    second: Option<Seq<char>>,
    n: int,
)
    requires
        n < groups.len(),
    ensures
        filter_args(groups, first, n) == filter_args(groups, second, n),
    decreases n,
{
    if n > 0 {
        lemma_extra_leaves_earlier_groups(groups, first, second, n - 1);
    }
}

/// An extra filter takes the last place of the arguments and changes no
/// other: the arguments with it are those without it, with the last one
/// replaced.
pub proof fn lemma_extra_replaces_last_argument(groups: Seq<Seq<Seq<char>>>, extra: Seq<char>)
    requires
        well_formed(groups),
    ensures
        list_args(groups, Some(extra)).len() == list_args(groups, None).len(),
        list_args(groups, Some(extra)) == list_args(groups, None).drop_last().push(extra),
{
    lemma_extra_leaves_earlier_groups(groups, Some(extra), None, groups.len() - 1);
}

/// The arguments are a function of the groups and the extra filter: what
/// two encodings of the same filters give is the same.
pub proof fn lemma_encoding_repeats(
    groups: Seq<Seq<Seq<char>>>,
    extra: Option<Seq<char>>,
    first: Seq<Seq<char>>,
    second: Seq<Seq<char>>,
)
    requires
        first == list_args(groups, extra),
        second == list_args(groups, extra),
    ensures
        first == second,
{
}

/// The fixed filters of a query: groups of tokens, each group one
/// alternative of the whole filter.
pub struct FilterSpec<'a> {
    groups: Vec<Vec<&'a str>>,
}

impl<'a> View for FilterSpec<'a> {
    type V = Seq<Seq<Seq<char>>>;

    closed spec fn view(&self) -> Seq<Seq<Seq<char>>> {
        self.groups.deep_view()
    }
}

/// A text has no line exactly when it is empty.
pub proof fn lemma_lines_of_filled(s: Seq<char>)
    ensures
        lines_of(s, Exactly('\n'), Exactly('\r')).len() == 0 <==> s.len() == 0,
{
    let lf = Exactly('\n');
    lemma_split_by_nonempty(s, lf);
    if s.len() > 0 {
        lemma_split_by_nonempty(s.drop_last(), lf);
    }
}

impl<'a> FilterSpec<'a> {
    #[verifier::type_invariant]
    spec fn valid(self) -> bool {
        well_formed(self.groups.deep_view())
    }

    /// Reads a description of filters. A description in which some group
    /// has no token is refused.
    pub fn new(text: &'a str) -> (res: Result<FilterSpec<'a>, ConfigError>)
        ensures
            match res {
                Ok(spec) => spec@ == groups_of(text@) && well_formed(spec@),
                Err(ConfigError::EmptyGroup { index }) => is_first_empty_group(
                    groups_of(text@),
                    index as int,
                ),
                Err(_) => false,
            },
    {
        let chars = chars_of(text);
        let comma = Exactly(',');
        let lf = Exactly('\n');
        let cr = Exactly('\r');
        let pieces = split_ranges(chars.as_slice(), &comma);
        let mut groups: Vec<Vec<&'a str>> = Vec::new();
        let mut k: usize = 0;
        while k < pieces.len()
            invariant
                k <= pieces.len(),
                chars@ == text@,
                lf == Exactly('\n'),
                cr == Exactly('\r'),
                ranges_within(pieces@, chars.len() as int),
                pieces_at(chars@, pieces@) == split_by(text@, Exactly(',')),
                groups.deep_view() == groups_of(text@).take(k as int),
                forall|j: int| 0 <= j < k ==> (#[trigger] groups_of(text@)[j]).len() >= 1,
            decreases pieces.len() - k,
        {
            let (from, to) = pieces[k];
            let piece = slice_subrange(chars.as_slice(), from, to);
            proof {
                lemma_lines_of_filled(piece@);
            }
            if from == to {
                return Err(ConfigError::EmptyGroup { index: k });
            }
            let lines = line_ranges(piece, &lf, &cr);
            let mut tokens: Vec<&'a str> = Vec::new();
            let mut j: usize = 0;
            while j < lines.len()
                invariant
                    j <= lines.len(),
                    from <= to <= chars.len(),
                    chars@ == text@,
                    piece@ == chars@.subrange(from as int, to as int),
                    ranges_within(lines@, piece@.len() as int),
                    tokens.deep_view() == pieces_at(piece@, lines@).take(j as int),
                decreases lines.len() - j,
            {
                let (start, end) = lines[j];
                let token = text.substring_char(from + start, from + end);
                assert(token@ == piece@.subrange(start as int, end as int));
                tokens.push(token);
                assert(pieces_at(piece@, lines@).take(j + 1) == pieces_at(piece@, lines@).take(
                    j as int,
                ).push(pieces_at(piece@, lines@)[j as int]));
                j += 1;
            }
            assert(pieces_at(piece@, lines@).take(j as int) == pieces_at(piece@, lines@));
            groups.push(tokens);
            assert(groups_of(text@).take(k + 1) == groups_of(text@).take(k as int).push(
                groups_of(text@)[k as int],
            ));
            k += 1;
        }
        Ok(FilterSpec { groups })
    }

    /// The arguments of a list query with these filters. An extra filter
    /// takes the place of the last token of the final group.
    pub fn list_args(&self, extra: Option<&str>) -> (args: Vec<String>)
        ensures
            args.deep_view() == list_args(self@, extra.deep_view()),
    {
        proof {
            use_type_invariant(self);
        }
        let ghost groups = self@;
        let ghost extra_view = extra.deep_view();
        let mut args: Vec<String> = Vec::new();
        args.push(String::from_str("list"));
        let n = self.groups.len();
        let mut k: usize = 0;
        while k < n
            invariant
                k <= n == self.groups.len(),
                groups == self.groups.deep_view(),
                extra_view == extra.deep_view(),
                well_formed(groups),
                args.deep_view() == seq!["list"@] + filter_args(groups, extra_view, k as int),
            decreases n - k,
        {
            let group = &self.groups[k];
            let ghost tokens = group.deep_view();
            assert(tokens == groups[k as int]);
            let ghost head = args.deep_view();
            let last = group.len() - 1;
            let mut j: usize = 0;
            while j < last
                invariant
                    j <= last == group.len() - 1,
                    tokens == group.deep_view(),
                    args.deep_view() == head + tokens.take(j as int),
                decreases last - j,
            {
                let ghost before = args.deep_view();
                let token = group[j].to_owned();
                args.push(token);
                assert(args.deep_view() == before.push(tokens[j as int]));
                j += 1;
            }
            let closing = if k + 1 < n {
                proof {
                    reveal_strlit(",");
                }
                String::from_str(group[last]).concat(",")
            } else {
                match extra {
                    Some(token) => token.to_owned(),
                    None => group[last].to_owned(),
                }
            };
            assert(closing@ == closing_token(tokens, k + 1 == n, extra_view));
            let ghost before = args.deep_view();
            args.push(closing);
            assert(args.deep_view() == before.push(closing@));
            k += 1;
        }
        args
    }
}

} // verus!
