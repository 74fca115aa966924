//! One catalog record: a date and a description, cut out of a line of text.

use vstd::prelude::*;
use vstd::string::StrSliceExecFns;

verus! {

/// Number of characters at the start of a line that hold the date.
pub const DATE_LENGTH: usize = 10;

/// Position of the first character of the description.
pub const ENTRY_START: usize = 20;

/// A catalog record.
#[derive(Debug)]
pub struct DateEntry {
    /// The date, a token that sorts as text.
    pub date: String,
    /// The description.
    pub entry: String,
}

/// What a `DateEntry` stands for in specifications.
pub ghost struct EntryView {
    pub date: Seq<char>,
    pub entry: Seq<char>,
}

impl View for DateEntry {
    type V = EntryView;

    open spec fn view(&self) -> EntryView {
        EntryView { date: self.date@, entry: self.entry@ }
    }
}

impl DeepView for DateEntry {
    type V = EntryView;

    open spec fn deep_view(&self) -> EntryView {
        self@
    }
}

/// Why a line is no catalog record.
#[derive(Debug)]
pub enum EntryError {
    /// The line ends before its description starts.
    TooShort { line: String },
}

/// Whether `line` is long enough to hold a date and a description.
pub open spec fn is_entry_line(line: Seq<char>) -> bool {
    line.len() > ENTRY_START
}

/// The record that a line of more than `ENTRY_START` characters holds.
pub open spec fn entry_of(line: Seq<char>) -> EntryView
    recommends
        is_entry_line(line),
{
    EntryView {
        date: line.subrange(0, DATE_LENGTH as int),
        entry: line.subrange(ENTRY_START as int, line.len() as int),
    }
}

/// Nothing of a line is lost or moved: the date is its first ten
/// characters, and the date, the ten characters that are skipped and the
/// description, put together again, are the line.
pub proof fn lemma_entry_keeps_line(line: Seq<char>)
    requires
        is_entry_line(line),
    ensures
        entry_of(line).date.len() == DATE_LENGTH,
        entry_of(line).date == line.take(DATE_LENGTH as int),
        entry_of(line).entry == line.skip(ENTRY_START as int),
        entry_of(line).date + line.subrange(DATE_LENGTH as int, ENTRY_START as int) + entry_of(
            line,
        ).entry == line,
{
}

impl DateEntry {
    /// Cuts a line into its date and its description. The ten characters
    /// between the two are skipped and not looked at.
    pub fn parse(line: &str) -> (res: Result<DateEntry, EntryError>)
        ensures
            res is Ok <==> is_entry_line(line@),
            res matches Ok(e) ==> e@ == entry_of(line@),
            res matches Err(EntryError::TooShort { line: l }) ==> l@ == line@,
    {
        let len = line.unicode_len();
        if ENTRY_START < len {
            Ok(
                DateEntry {
                    date: line.substring_char(0, DATE_LENGTH).to_owned(),
                    entry: line.substring_char(ENTRY_START, len).to_owned(),
                },
            )
        } else {
            Err(EntryError::TooShort { line: line.to_owned() })
        }
    }
}

impl TryFrom<String> for DateEntry {
    type Error = EntryError;

    /// Cuts an owned line into a record, as `DateEntry::parse` does.
    fn try_from(line: String) -> (res: Result<DateEntry, EntryError>)
        ensures
            res is Ok <==> is_entry_line(line@),
            res matches Ok(e) ==> e@ == entry_of(line@),
            res matches Err(EntryError::TooShort { line: l }) ==> l@ == line@,
    {
        DateEntry::parse(line.as_str())
    }
}

/// What `try_from` returns is stated at the function itself, over the
/// views of the line and the record; no specification function stands in
/// for it.
impl vstd::std_specs::convert::TryFromSpecImpl<String> for DateEntry {
    open spec fn obeys_try_from_spec() -> bool {
        false
    }

    open spec fn try_from_spec(line: String) -> Result<Self, Self::Error> {
        arbitrary()
    }
}

} // verus!
