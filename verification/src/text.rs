//! Cutting text into pieces: at a separator, into lines, into words.
//!
//! The functions work on a slice of text units, bytes or characters, and
//! return the pieces as ranges of positions in that slice.

use vstd::prelude::*;
use vstd::string::{StrSliceExecFns, StringSliceAdditionalSpecFns};
use vstd::utf8::{decode_utf8, valid_utf8};

verus! {

/// Whether `c` is white space as Unicode defines it (the property
/// White_Space). This is what `char::is_whitespace` computes; the library
/// relies on nothing else about it.
pub uninterp spec fn is_white_space(c: char) -> bool;

/// `char::is_whitespace` of std: its result is given the name
/// `is_white_space`.
pub assume_specification[ char::is_whitespace ](c: char) -> (b: bool)
    ensures
        b == is_white_space(c),
;

/// `std::str::from_utf8`: it accepts exactly the byte sequences that are
/// valid UTF-8, and the text that it returns has the bytes given.
#[verifier::external_body]
fn checked_utf8(bytes: &[u8]) -> (res: Option<&str>)
    ensures
        res is Some <==> valid_utf8(bytes@),
        res matches Some(text) ==> text.spec_bytes() == bytes@,
{
    std::str::from_utf8(bytes).ok()
}

/// The text that `bytes` encode in UTF-8, if they encode one.
pub fn text_of_bytes(bytes: &[u8]) -> (res: Option<&str>)
    ensures
        res is Some <==> valid_utf8(bytes@),
        res matches Some(text) ==> text@ == decode_utf8(bytes@),
{
    let res = checked_utf8(bytes);
    proof {
        if let Some(text) = res {
            vstd::utf8::encode_utf8_decode_utf8(text@);
        }
    }
    res
}

/// A test that picks out the units at which text is cut.
pub trait Separator<T: Copy> {
    /// Whether `unit` separates two pieces.
    spec fn cuts(&self, unit: T) -> bool;

    /// Tells whether `unit` separates two pieces.
    fn test(&self, unit: T) -> (b: bool)
        ensures
            b == self.cuts(unit),
    ;
}

/// Cuts at every unit that equals the one held.
pub struct Exactly<T>(pub T);

impl Separator<u8> for Exactly<u8> {
    open spec fn cuts(&self, unit: u8) -> bool {
        unit == self.0
    }

    fn test(&self, unit: u8) -> (b: bool) {
        unit == self.0
    }
}

impl Separator<char> for Exactly<char> {
    open spec fn cuts(&self, unit: char) -> bool {
        unit == self.0
    }

    fn test(&self, unit: char) -> (b: bool) {
        unit == self.0
    }
}

/// Cuts at white space.
pub struct WhiteSpace;

impl Separator<char> for WhiteSpace {
    open spec fn cuts(&self, unit: char) -> bool {
        is_white_space(unit)
    }

    fn test(&self, unit: char) -> (b: bool) {
        unit.is_whitespace()
    }
}

/// The pieces of `s` that lie between separators. A separator ends the
/// piece before it and starts a new one, so `n` separators give `n + 1`
/// pieces, some of which may be empty.
pub open spec fn split_by<T: Copy, S: Separator<T>>(s: Seq<T>, sep: S) -> Seq<Seq<T>>
    decreases s.len(),
{
    if s.len() == 0 {
        seq![Seq::empty()]
    } else {
        let before = split_by(s.drop_last(), sep);
        if sep.cuts(s.last()) {
            before.push(Seq::empty())
        } else {
            before.drop_last().push(before.last().push(s.last()))
        }
    }
}

/// How many units of `s` are separators.
pub open spec fn separators_in<T: Copy, S: Separator<T>>(s: Seq<T>, sep: S) -> nat
    decreases s.len(),
{
    if s.len() == 0 {
        0
    } else if sep.cuts(s.last()) {
        separators_in(s.drop_last(), sep) + 1
    } else {
        separators_in(s.drop_last(), sep)
    }
}

/// How many units the pieces hold together.
pub open spec fn units_in<T>(pieces: Seq<Seq<T>>) -> nat
    decreases pieces.len(),
{
    if pieces.len() == 0 {
        0
    } else {
        units_in(pieces.drop_last()) + pieces.last().len()
    }
}

/// `piece` without the carriage return at its end, if it has one.
pub open spec fn without_return<T: Copy, S: Separator<T>>(piece: Seq<T>, cr: S) -> Seq<T> {
    if piece.len() > 0 && cr.cuts(piece.last()) {
        piece.drop_last()
    } else {
        piece
    }
}

/// The lines of `s`. A line ends at a line feed, or at a carriage return
/// that a line feed follows; neither belongs to the line. What follows the
/// last line feed is a line of its own unless it is empty.
pub open spec fn lines_of<T: Copy, S: Separator<T>>(s: Seq<T>, lf: S, cr: S) -> Seq<Seq<T>> {
    let pieces = split_by(s, lf);
    let closed = Seq::new(
        (pieces.len() - 1) as nat,
        |k: int| without_return(pieces[k], cr),
    );
    if pieces.last().len() == 0 {
        closed
    } else {
        closed.push(pieces.last())
    }
}

/// The pieces that are not empty, in their order.
pub open spec fn filled_pieces<T>(pieces: Seq<Seq<T>>) -> Seq<Seq<T>>
    decreases pieces.len(),
{
    if pieces.len() == 0 {
        Seq::empty()
    } else if pieces.last().len() > 0 {
        filled_pieces(pieces.drop_last()).push(pieces.last())
    } else {
        filled_pieces(pieces.drop_last())
    }
}

/// The words of `s`: what stands between separators, where any number of
/// separators in a row counts as one.
pub open spec fn words_of<T: Copy, S: Separator<T>>(s: Seq<T>, blank: S) -> Seq<Seq<T>> {
    filled_pieces(split_by(s, blank))
}

/// Whether each range lies inside a text of `len` units.
pub open spec fn ranges_within(ranges: Seq<(usize, usize)>, len: int) -> bool {
    forall|k: int| 0 <= k < ranges.len() ==> (#[trigger] ranges[k]).0 <= ranges[k].1 <= len
}

/// Whether the ranges come one after the other with one unit, the
/// separator, between each two of them, and together with these units
/// cover a text of `len` units.
pub open spec fn ranges_adjacent(ranges: Seq<(usize, usize)>, len: int) -> bool {
    &&& ranges.len() >= 1
    &&& ranges[0].0 == 0
    &&& ranges.last().1 == len
    &&& forall|k: int| 0 <= k < ranges.len() - 1 ==> (#[trigger] ranges[k]).1 + 1 == ranges[k + 1].0
}

/// Whether each range ends before the next one starts.
pub open spec fn ranges_ascending(ranges: Seq<(usize, usize)>) -> bool {
    forall|k: int| 0 <= k < ranges.len() - 1 ==> (#[trigger] ranges[k]).1 < ranges[k + 1].0
}

/// The pieces of `s` that the ranges stand for.
pub open spec fn pieces_at<T>(s: Seq<T>, ranges: Seq<(usize, usize)>) -> Seq<Seq<T>> {
    Seq::new(ranges.len(), |k: int| s.subrange(ranges[k].0 as int, ranges[k].1 as int))
}

/// `split_by` always yields a piece.
pub proof fn lemma_split_by_nonempty<T: Copy, S: Separator<T>>(s: Seq<T>, sep: S)
    ensures
        split_by(s, sep).len() >= 1,
    decreases s.len(),
{
    if s.len() > 0 {
        lemma_split_by_nonempty(s.drop_last(), sep);
    }
}

/// No piece holds a separator.
pub proof fn lemma_pieces_hold_no_separator<T: Copy, S: Separator<T>>(s: Seq<T>, sep: S)
    ensures
        forall|k: int, i: int|
            0 <= k < split_by(s, sep).len() && 0 <= i < split_by(s, sep)[k].len() ==> !sep.cuts(
                #[trigger] split_by(s, sep)[k][i],
            ),
    decreases s.len(),
{
    if s.len() > 0 {
        lemma_pieces_hold_no_separator(s.drop_last(), sep);
        lemma_split_by_nonempty(s.drop_last(), sep);
    }
}

/// A text without a separator is one piece, the text itself.
pub proof fn lemma_unseparated_is_one_piece<T: Copy, S: Separator<T>>(s: Seq<T>, sep: S)
    requires
        forall|i: int| 0 <= i < s.len() ==> !sep.cuts(#[trigger] s[i]),
    ensures
        split_by(s, sep) == seq![s],
    decreases s.len(),
{
    if s.len() > 0 {
        lemma_unseparated_is_one_piece(s.drop_last(), sep);
        assert(s.drop_last().push(s.last()) == s);
        assert(seq![s.drop_last()].drop_last().push(s) == seq![s]);
    } else {
        assert(s == Seq::<T>::empty());
    }
}

/// Every separator starts a piece: there is one piece more than there
/// are separators, and the pieces together with the separators are as
/// long as the text.
pub proof fn lemma_pieces_cover<T: Copy, S: Separator<T>>(s: Seq<T>, sep: S)
    ensures
        split_by(s, sep).len() == separators_in(s, sep) + 1,
        units_in(split_by(s, sep)) + separators_in(s, sep) == s.len(),
    decreases s.len(),
{
    if s.len() > 0 {
        let before = split_by(s.drop_last(), sep);
        lemma_pieces_cover(s.drop_last(), sep);
        lemma_split_by_nonempty(s.drop_last(), sep);
        assert(units_in(before) == units_in(before.drop_last()) + before.last().len());
        if sep.cuts(s.last()) {
            let grown = before.push(Seq::empty());
            assert(grown.drop_last() == before);
            assert(units_in(grown) == units_in(before));
        } else {
            let grown = before.drop_last().push(before.last().push(s.last()));
            assert(grown.drop_last() == before.drop_last());
            assert(units_in(grown) == units_in(before) + 1);
        }
    } else {
        let only = seq![Seq::<T>::empty()];
        assert(only.drop_last() == Seq::<Seq<T>>::empty());
        assert(units_in(only) == units_in(only.drop_last()) + only.last().len());
    }
}

/// The pieces that are kept as filled are pieces, and none of them is
/// empty.
pub proof fn lemma_filled_pieces_are_pieces<T>(pieces: Seq<Seq<T>>)
    ensures
        forall|k: int|
            0 <= k < filled_pieces(pieces).len() ==> (#[trigger] filled_pieces(pieces)[k]).len() > 0
                && pieces.contains(filled_pieces(pieces)[k]),
    decreases pieces.len(),
{
    if pieces.len() > 0 {
        lemma_filled_pieces_are_pieces(pieces.drop_last());
        let filled = filled_pieces(pieces);
        assert forall|k: int| 0 <= k < filled.len() implies (#[trigger] filled[k]).len() > 0
            && pieces.contains(filled[k]) by {
            if k < filled_pieces(pieces.drop_last()).len() {
                let piece = filled_pieces(pieces.drop_last())[k];
                let j = choose|j: int|
                    0 <= j < pieces.drop_last().len() && pieces.drop_last()[j] == piece;
                assert(pieces[j] == piece);
            } else {
                assert(pieces[pieces.len() - 1] == filled[k]);
            }
        }
    }
}

/// Every word holds a unit, and no word holds a separator.
pub proof fn lemma_words_are_filled<T: Copy, S: Separator<T>>(s: Seq<T>, blank: S)
    ensures
        forall|k: int|
            0 <= k < words_of(s, blank).len() ==> (#[trigger] words_of(s, blank)[k]).len() > 0,
        forall|k: int, i: int|
            0 <= k < words_of(s, blank).len() && 0 <= i < words_of(s, blank)[k].len()
                ==> !blank.cuts(#[trigger] words_of(s, blank)[k][i]),
{
    let pieces = split_by(s, blank);
    let words = words_of(s, blank);
    lemma_filled_pieces_are_pieces(pieces);
    lemma_pieces_hold_no_separator(s, blank);
    assert forall|k: int, i: int| 0 <= k < words.len() && 0 <= i < words[k].len() implies !blank.cuts(
        #[trigger] words[k][i],
    ) by {
        let j = choose|j: int| 0 <= j < pieces.len() && pieces[j] == words[k];
        assert(pieces[j][i] == words[k][i]);
    }
}

/// Cuts `s` at its separators.
pub fn split_ranges<T: Copy, S: Separator<T>>(s: &[T], sep: &S) -> (ranges: Vec<(usize, usize)>)
    ensures
        ranges_within(ranges@, s.len() as int),
        ranges_adjacent(ranges@, s.len() as int),
        pieces_at(s@, ranges@) == split_by(s@, *sep),
{
    let mut ranges: Vec<(usize, usize)> = Vec::new();
    let mut start: usize = 0;
    let mut i: usize = 0;
    assert(s@.subrange(0, 0) == Seq::<T>::empty());
    while i < s.len()
        invariant
            start <= i <= s.len(),
            ranges_within(ranges@, start as int),
            ranges.len() == 0 ==> start == 0,
            ranges.len() > 0 ==> ranges[0].0 == 0 && ranges[ranges.len() - 1].1 + 1 == start,
            forall|k: int|
                0 <= k < ranges.len() - 1 ==> (#[trigger] ranges[k]).1 + 1 == ranges[k + 1].0,
            split_by(s@.take(i as int), *sep) == pieces_at(s@, ranges@).push(
                s@.subrange(start as int, i as int),
            ),
        decreases s.len() - i,
    {
        let ghost prefix = s@.take(i as int);
        let ghost next = s@.take(i + 1);
        assert(next.drop_last() == prefix);
        if sep.test(s[i]) {
            ranges.push((start, i));
            start = i + 1;
            assert(s@.subrange(start as int, i + 1) == Seq::<T>::empty());
        } else {
            assert(s@.subrange(start as int, i as int).push(s@[i as int]) == s@.subrange(
                start as int,
                i + 1,
            ));
        }
        i += 1;
    }
    assert(s@.take(i as int) == s@);
    ranges.push((start, i));
    ranges
}

/// Cuts `s` into its lines.
pub fn line_ranges<T: Copy, S: Separator<T>>(s: &[T], lf: &S, cr: &S) -> (lines: Vec<
    (usize, usize),
>)
    ensures
        ranges_within(lines@, s.len() as int),
        ranges_ascending(lines@),
        pieces_at(s@, lines@) == lines_of(s@, *lf, *cr),
{
    let pieces = split_ranges(s, lf);
    let ghost closed = Seq::new(
        (pieces.len() - 1) as nat,
        |k: int| without_return(split_by(s@, *lf)[k], *cr),
    );
    let last = pieces.len() - 1;
    let mut lines: Vec<(usize, usize)> = Vec::new();
    let mut k: usize = 0;
    while k < last
        invariant
            k <= last == pieces.len() - 1,
            ranges_within(pieces@, s.len() as int),
            ranges_adjacent(pieces@, s.len() as int),
            pieces_at(s@, pieces@) == split_by(s@, *lf),
            ranges_within(lines@, s.len() as int),
            ranges_ascending(lines@),
            lines.len() == k,
            forall|j: int| 0 <= j < k ==> (#[trigger] lines[j]).1 <= pieces[j].1,
            pieces_at(s@, lines@) == closed.take(k as int),
            closed.len() == last,
            forall|j: int| 0 <= j < last ==> closed[j] == without_return(split_by(s@, *lf)[j], *cr),
        decreases last - k,
    {
        let (start, end) = pieces[k];
        let ghost piece = s@.subrange(start as int, end as int);
        if start < end && cr.test(s[end - 1]) {
            lines.push((start, end - 1));
            assert(s@.subrange(start as int, end - 1) == piece.drop_last());
        } else {
            lines.push((start, end));
        }
        k += 1;
    }
    assert(closed.take(k as int) == closed);
    let (start, end) = pieces[last];
    if start < end {
        lines.push((start, end));
    }
    lines
}

/// Cuts `s` into its words.
pub fn word_ranges<T: Copy, S: Separator<T>>(s: &[T], blank: &S) -> (words: Vec<(usize, usize)>)
    ensures
        ranges_within(words@, s.len() as int),
        ranges_ascending(words@),
        pieces_at(s@, words@) == words_of(s@, *blank),
        forall|k: int| 0 <= k < words.len() ==> (#[trigger] words[k]).0 < words[k].1,
{
    let pieces = split_ranges(s, blank);
    let ghost all = split_by(s@, *blank);
    let mut words: Vec<(usize, usize)> = Vec::new();
    let mut k: usize = 0;
    while k < pieces.len()
        invariant
            k <= pieces.len(),
            ranges_within(pieces@, s.len() as int),
            ranges_adjacent(pieces@, s.len() as int),
            pieces_at(s@, pieces@) == all,
            ranges_within(words@, s.len() as int),
            ranges_ascending(words@),
            words.len() > 0 && k > 0 ==> words[words.len() - 1].1 <= pieces[k - 1].1,
            words.len() > 0 ==> k > 0,
            pieces_at(s@, words@) == filled_pieces(all.take(k as int)),
            forall|j: int| 0 <= j < words.len() ==> (#[trigger] words[j]).0 < words[j].1,
        decreases pieces.len() - k,
    {
        let (start, end) = pieces[k];
        assert(all.take(k + 1).drop_last() == all.take(k as int));
        if start < end {
            words.push((start, end));
        }
        k += 1;
    }
    assert(all.take(k as int) == all);
    words
}

/// Whether `line` holds nothing but white space.
pub open spec fn is_blank(line: Seq<char>) -> bool {
    forall|i: int| 0 <= i < line.len() ==> is_white_space(#[trigger] line[i])
}

/// Tells whether `line` holds nothing but white space.
pub fn line_is_blank(line: &str) -> (b: bool)
    ensures
        b == is_blank(line@),
{
    for c in it: line.chars()
        invariant
            it.seq() == line@,
            is_blank(line@.take(it.index())),
    {
        if !c.is_whitespace() {
            return false;
        }
    }
    assert(line@.take(line@.len() as int) == line@);
    true
}

/// `s` without the white space at its end.
pub open spec fn without_blank_end(s: Seq<char>) -> Seq<char>
    decreases s.len(),
{
    if s.len() > 0 && is_white_space(s.last()) {
        without_blank_end(s.drop_last())
    } else {
        s
    }
}

/// `s` without the white space at its start.
pub open spec fn without_blank_start(s: Seq<char>) -> Seq<char>
    decreases s.len(),
{
    if s.len() > 0 && is_white_space(s[0]) {
        without_blank_start(s.skip(1))
    } else {
        s
    }
}

/// `s` without the white space around it.
pub open spec fn trimmed_text(s: Seq<char>) -> Seq<char> {
    without_blank_start(without_blank_end(s))
}

/// Hands out `line` without the white space around it.
pub fn trimmed(line: &str) -> (text: &str)
    ensures
        text@ == trimmed_text(line@),
{
    let chars = chars_of(line);
    let mut end: usize = chars.len();
    assert(line@.take(end as int) == line@);
    while end > 0 && chars[end - 1].is_whitespace()
        invariant
            end <= chars.len(),
            chars@ == line@,
            without_blank_end(line@) == without_blank_end(line@.take(end as int)),
        decreases end,
    {
        assert(line@.take(end as int).drop_last() == line@.take(end - 1));
        end -= 1;
    }
    let mut start: usize = 0;
    assert(line@.subrange(0, end as int) == line@.take(end as int));
    while start < end && chars[start].is_whitespace()
        invariant
            start <= end <= chars.len(),
            chars@ == line@,
            trimmed_text(line@) == without_blank_start(line@.subrange(start as int, end as int)),
        decreases end - start,
    {
        assert(line@.subrange(start as int, end as int).skip(1) == line@.subrange(
            start + 1,
            end as int,
        ));
        start += 1;
    }
    line.substring_char(start, end)
}

/// The characters of `text`, in order.
pub fn chars_of(text: &str) -> (chars: Vec<char>)
    ensures
        chars@ == text@,
{
    let mut chars: Vec<char> = Vec::new();
    for c in it: text.chars()
        invariant
            chars@ == it.seq().take(it.index()),
            it.seq() == text@,
    {
        chars.push(c);
    }
    chars
}

} // verus!
