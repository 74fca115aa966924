//! The two queries that are put to the catalog tool: what to ask, and what
//! its answer means.

use crate::entry::{entry_of, is_entry_line, DateEntry, EntryView};
use crate::config::ConfigError;
use crate::filter::{groups_of, is_first_empty_group, list_args, well_formed, FilterSpec};
use crate::text::{
    is_blank, line_is_blank, line_ranges, lines_of, pieces_at, ranges_within, text_of_bytes,
    Exactly,
};
use std::path::PathBuf;
use vstd::prelude::*;
use vstd::slice::slice_subrange;
use vstd::string::StringExecFns;
use vstd::utf8::{decode_utf8, valid_utf8};

verus! {

/// `std::path::PathBuf`: the library only carries such a path along.
#[verifier::external_type_specification]
#[verifier::external_body]
pub struct ExPathBuf(PathBuf);

/// What a finished run of the catalog tool left behind.
#[derive(Debug)]
pub struct ProcessOutput {
    /// The exit code; `None` where the run ended without one.
    pub exit_code: Option<i32>,
    /// What the tool wrote to its standard output.
    pub stdout: Vec<u8>,
    /// What the tool wrote to its standard error.
    pub stderr: Vec<u8>,
}

/// Why a run of the catalog tool counts as failed.
#[derive(Debug)]
pub enum ProcessError {
    /// The tool wrote to its standard error something that is no text.
    StderrNotUtf8,
    /// The tool wrote this text to its standard error.
    Stderr(String),
    /// The tool wrote no error and ended with this exit code, not 0.
    Status(Option<i32>),
}

/// What is wrong with a line of the tool's output.
#[derive(Clone, Copy, Debug, PartialEq, Eq, Structural)]
pub enum LineFault {
    /// The line is not valid UTF-8.
    NotUtf8,
    /// The line is too short to hold a date and a description.
    TooShort,
}

/// Why a query gave no result.
#[derive(Debug)]
pub enum QueryError {
    /// The run of the tool failed.
    Process(ProcessError),
    /// The line with this number, counted from 1, cannot be read.
    Line { number: usize, fault: LineFault },
}

impl ProcessOutput {
    /// Whether the run wrote no error and ended with exit code 0.
    pub open spec fn succeeded(&self) -> bool {
        self.stderr@.len() == 0 && self.exit_code == Some(0i32)
    }

    /// Whether `error` is the reason for which the run counts as failed.
    /// What was written to standard error is looked at before the exit code.
    pub open spec fn fails_with(&self, error: ProcessError) -> bool {
        match error {
            ProcessError::StderrNotUtf8 => !valid_utf8(self.stderr@),
            ProcessError::Stderr(text) => {
                &&& valid_utf8(self.stderr@)
                &&& self.stderr@.len() > 0
                &&& text@ == decode_utf8(self.stderr@)
            },
            ProcessError::Status(code) => {
                &&& self.stderr@.len() == 0
                &&& self.exit_code != Some(0i32)
                &&& code == self.exit_code
            },
        }
    }

    /// Hands out the standard output of a run that succeeded, and says why
    /// any other run failed.
    pub fn stdout_check_errors(self) -> (res: Result<Vec<u8>, ProcessError>)
        ensures
            match res {
                Ok(stdout) => self.succeeded() && stdout@ == self.stdout@,
                Err(error) => self.fails_with(error),
            },
    {
        let ProcessOutput { exit_code, stdout, stderr } = self;
        match text_of_bytes(stderr.as_slice()) {
            None => Err(ProcessError::StderrNotUtf8),
            Some(text) => {
                if stderr.len() > 0 {
                    Err(ProcessError::Stderr(String::from_str(text)))
                } else {
                    match exit_code {
                        Some(0) => Ok(stdout),
                        _ => Err(ProcessError::Status(exit_code)),
                    }
                }
            },
        }
    }
}

/// The byte that ends a line.
pub const LINE_FEED: u8 = 10;

/// The byte that may stand before the one that ends a line.
pub const CARRIAGE_RETURN: u8 = 13;

/// The lines of what the tool wrote.
pub open spec fn output_lines(stdout: Seq<u8>) -> Seq<Seq<u8>> {
    lines_of(stdout, Exactly(LINE_FEED), Exactly(CARRIAGE_RETURN))
}

/// What keeps `line` from being read as a catalog record, if anything.
pub open spec fn entry_fault(line: Seq<u8>) -> Option<LineFault> {
    if !valid_utf8(line) {
        Some(LineFault::NotUtf8)
    } else if !is_entry_line(decode_utf8(line)) {
        Some(LineFault::TooShort)
    } else {
        None
    }
}

/// Whether `number` is the number, counted from 1, of the first of `lines`
/// that cannot be read as a catalog record, and `fault` what is wrong with it.
pub open spec fn is_first_entry_fault(lines: Seq<Seq<u8>>, number: int, fault: LineFault) -> bool {
    &&& 1 <= number <= lines.len()
    &&& entry_fault(lines[number - 1]) == Some(fault)
    &&& forall|k: int| 0 <= k < number - 1 ==> entry_fault(#[trigger] lines[k]) is None
}

/// The records that `lines` hold, where each of them can be read.
pub open spec fn entries_of(lines: Seq<Seq<u8>>) -> Seq<EntryView> {
    Seq::new(lines.len(), |k: int| entry_of(decode_utf8(lines[k])))
}

/// The first `limit` of `lines`, or all of them where they are fewer.
pub open spec fn first_lines(lines: Seq<Seq<u8>>, limit: usize) -> Seq<Seq<u8>> {
    if lines.len() <= limit {
        lines
    } else {
        lines.take(limit as int)
    }
}

/// The first `limit` of the lines of `stdout`, or all of them where they
/// are fewer.
pub open spec fn listed_lines(stdout: Seq<u8>, limit: usize) -> Seq<Seq<u8>> {
    first_lines(output_lines(stdout), limit)
}

/// Reads the lines of `stdout` as catalog records and hands out the first
/// `limit` of them. Every line is read, also those after the first
/// `limit`: one that cannot be read fails the whole listing.
pub fn parse_entries(stdout: &[u8], limit: usize) -> (res: Result<Vec<DateEntry>, QueryError>)
    ensures
        match res {
            Ok(entries) => {
                &&& entries.deep_view() == entries_of(listed_lines(stdout@, limit))
                &&& forall|k: int|
                    0 <= k < output_lines(stdout@).len() ==> entry_fault(
                        #[trigger] output_lines(stdout@)[k],
                    ) is None
            },
            Err(QueryError::Line { number, fault }) => is_first_entry_fault(
                output_lines(stdout@),
                number as int,
                fault,
            ),
            Err(QueryError::Process(_)) => false,
        },
{
    let ranges = line_ranges(stdout, &Exactly(LINE_FEED), &Exactly(CARRIAGE_RETURN));
    let ghost lines = output_lines(stdout@);
    let mut entries: Vec<DateEntry> = Vec::new();
    let mut k: usize = 0;
    while k < ranges.len()
        invariant
            k <= ranges.len(),
            lines == output_lines(stdout@),
            ranges_within(ranges@, stdout.len() as int),
            pieces_at(stdout@, ranges@) == lines,
            entries.deep_view() == entries_of(first_lines(lines.take(k as int), limit)),
            forall|j: int| 0 <= j < k ==> entry_fault(#[trigger] lines[j]) is None,
        decreases ranges.len() - k,
    {
        let (start, end) = ranges[k];
        let line = slice_subrange(stdout, start, end);
        assert(line@ == lines[k as int]);
        match text_of_bytes(line) {
            None => {
                return Err(QueryError::Line { number: k + 1, fault: LineFault::NotUtf8 });
            },
            Some(text) => {
                match DateEntry::parse(text) {
                    Err(_) => {
                        return Err(QueryError::Line { number: k + 1, fault: LineFault::TooShort });
                    },
                    Ok(entry) => {
                        if k < limit {
                            entries.push(entry);
                            assert(entries_of(lines.take(k + 1)) == entries_of(
                                lines.take(k as int),
                            ).push(entry_of(decode_utf8(lines[k as int]))));
                        }
                    },
                }
            },
        }
        k += 1;
    }
    assert(lines.take(lines.len() as int) == lines);
    Ok(entries)
}

/// Whether `number` is the number, counted from 1, of the first of `lines`
/// that is not valid UTF-8.
pub open spec fn is_first_invalid_line(lines: Seq<Seq<u8>>, number: int) -> bool {
    &&& 1 <= number <= lines.len()
    &&& !valid_utf8(lines[number - 1])
    &&& forall|k: int| 0 <= k < number - 1 ==> valid_utf8(#[trigger] lines[k])
}

/// How many of `lines` hold more than white space.
pub open spec fn filled_lines(lines: Seq<Seq<u8>>) -> nat
    decreases lines.len(),
{
    if lines.len() == 0 {
        0
    } else if is_blank(decode_utf8(lines.last())) {
        filled_lines(lines.drop_last())
    } else {
        filled_lines(lines.drop_last()) + 1
    }
}

/// Counts the lines of `stdout` that hold more than white space.
pub fn count_filled_lines(stdout: &[u8]) -> (res: Result<usize, QueryError>)
    ensures
        match res {
            Ok(count) => {
                &&& count == filled_lines(output_lines(stdout@))
                &&& forall|k: int|
                    0 <= k < output_lines(stdout@).len() ==> valid_utf8(
                        #[trigger] output_lines(stdout@)[k],
                    )
            },
            Err(QueryError::Line { number, fault }) => {
                &&& fault == LineFault::NotUtf8
                &&& is_first_invalid_line(output_lines(stdout@), number as int)
            },
            Err(QueryError::Process(_)) => false,
        },
{
    let ranges = line_ranges(stdout, &Exactly(LINE_FEED), &Exactly(CARRIAGE_RETURN));
    let ghost lines = output_lines(stdout@);
    let mut count: usize = 0;
    let mut k: usize = 0;
    while k < ranges.len()
        invariant
            k <= ranges.len(),
            ranges_within(ranges@, stdout.len() as int),
            pieces_at(stdout@, ranges@) == lines,
            lines == output_lines(stdout@),
            count == filled_lines(lines.take(k as int)),
            count <= k,
            forall|j: int| 0 <= j < k ==> valid_utf8(#[trigger] lines[j]),
        decreases ranges.len() - k,
    {
        let (start, end) = ranges[k];
        let line = slice_subrange(stdout, start, end);
        assert(lines.take(k + 1).drop_last() == lines.take(k as int));
        match text_of_bytes(line) {
            None => {
                return Err(QueryError::Line { number: k + 1, fault: LineFault::NotUtf8 });
            },
            Some(text) => {
                if !line_is_blank(text) {
                    count += 1;
                }
            },
        }
        k += 1;
    }
    assert(lines.take(k as int) == lines);
    Ok(count)
}

/// The filter that asks for what was added on the day `date` or later.
pub open spec fn added_since(date: Seq<char>) -> Seq<char> {
    "added:"@ + date + ".."@
}

/// The arguments of the query for the most recent entries: the filters, the
/// order (most recently added first), and the form of a line.
pub open spec fn recent_query_args(filters: Seq<Seq<Seq<char>>>) -> Seq<Seq<char>> {
    list_args(filters, None) + seq!["added-"@, "--format"@, "$added $artist - $album - $title"@]
}

/// The arguments of the query that lists, one identifier a line, what was
/// added on the day `date` or later.
pub open spec fn count_query_args(filters: Seq<Seq<Seq<char>>>, date: Seq<char>) -> Seq<Seq<char>> {
    list_args(filters, Some(added_since(date))) + seq!["--format"@, "$id"@]
}

/// The catalog tool with the filters that every query carries and the
/// number of entries to look at.
pub struct BeetCommand<'a> {
    beet_command: PathBuf,
    filter: FilterSpec<'a>,
    max_entries: usize,
}

impl<'a> BeetCommand<'a> {
    /// The path of the tool.
    pub closed spec fn program_path(&self) -> PathBuf {
        self.beet_command
    }

    /// The groups of filter tokens.
    pub closed spec fn filters(&self) -> Seq<Seq<Seq<char>>> {
        self.filter@
    }

    /// The number of entries after which a listing is cut off.
    pub closed spec fn limit(&self) -> usize {
        self.max_entries
    }

    /// Sets up the queries. `timeless_args` describes the filters: a comma
    /// separates two groups, and inside a group each line is one token. A
    /// description in which some group has no token is refused.
    pub fn new(beet_command: PathBuf, timeless_args: &'a str, max_entries: usize) -> (res: Result<
        BeetCommand<'a>,
        ConfigError,
    >)
        ensures
            match res {
                Ok(command) => {
                    &&& command.program_path() == beet_command
                    &&& command.filters() == groups_of(timeless_args@)
                    &&& well_formed(command.filters())
                    &&& command.limit() == max_entries
                },
                Err(ConfigError::EmptyGroup { index }) => is_first_empty_group(
                    groups_of(timeless_args@),
                    index as int,
                ),
                Err(_) => false,
            },
    {
        match FilterSpec::new(timeless_args) {
            Ok(filter) => Ok(BeetCommand { beet_command, filter, max_entries }),
            Err(error) => Err(error),
        }
    }

    /// The path of the tool.
    pub fn program(&self) -> (path: &PathBuf)
        ensures
            *path == self.program_path(),
    {
        &self.beet_command
    }

    /// The number of entries after which a listing is cut off.
    pub fn max_entries(&self) -> (limit: usize)
        ensures
            limit == self.limit(),
    {
        self.max_entries
    }

    /// The arguments to run the tool with for the most recent entries.
    pub fn query_timeless_args(&self) -> (args: Vec<String>)
        ensures
            args.deep_view() == recent_query_args(self.filters()),
    {
        let mut args = self.filter.list_args(None);
        args.push(String::from_str("added-"));
        args.push(String::from_str("--format"));
        args.push(String::from_str("$added $artist - $album - $title"));
        args
    }

    /// Reads the answer to the query for the most recent entries: every
    /// line of the output is a record, most recent first, and the first
    /// `limit()` of them are handed out. A line that is no record fails
    /// the query, wherever it stands.
    pub fn query_timeless(&self, output: ProcessOutput) -> (res: Result<Vec<DateEntry>, QueryError>)
        ensures
            match res {
                Ok(entries) => {
                    &&& output.succeeded()
                    &&& entries.deep_view() == entries_of(listed_lines(output.stdout@, self.limit()))
                    &&& forall|k: int|
                        0 <= k < output_lines(output.stdout@).len() ==> entry_fault(
                            #[trigger] output_lines(output.stdout@)[k],
                        ) is None
                },
                Err(QueryError::Line { number, fault }) => {
                    &&& output.succeeded()
                    &&& is_first_entry_fault(output_lines(output.stdout@), number as int, fault)
                },
                Err(QueryError::Process(error)) => output.fails_with(error),
            },
    {
        match output.stdout_check_errors() {
            Err(error) => Err(QueryError::Process(error)),
            Ok(stdout) => parse_entries(stdout.as_slice(), self.max_entries),
        }
    }

    /// The arguments to run the tool with to list what was added on the day
    /// of `entry` or later.
    pub fn count_entries_after_args(&self, entry: &DateEntry) -> (args: Vec<String>)
        ensures
            args.deep_view() == count_query_args(self.filters(), entry@.date),
    {
        let since = String::from_str("added:").concat(entry.date.as_str()).concat("..");
        let mut args = self.filter.list_args(Some(since.as_str()));
        args.push(String::from_str("--format"));
        args.push(String::from_str("$id"));
        args
    }

    /// Reads the answer to the query that `count_entries_after_args` asks:
    /// the number of lines that hold more than white space.
    pub fn count_entries_after(&self, output: ProcessOutput) -> (res: Result<usize, QueryError>)
        ensures
            match res {
                Ok(count) => {
                    &&& output.succeeded()
                    &&& count == filled_lines(output_lines(output.stdout@))
                    &&& forall|k: int|
                        0 <= k < output_lines(output.stdout@).len() ==> valid_utf8(
                            #[trigger] output_lines(output.stdout@)[k],
                        )
                },
                Err(QueryError::Line { number, fault }) => {
                    &&& output.succeeded()
                    &&& fault == LineFault::NotUtf8
                    &&& is_first_invalid_line(output_lines(output.stdout@), number as int)
                },
                Err(QueryError::Process(error)) => output.fails_with(error),
            },
    {
        match output.stdout_check_errors() {
            Err(error) => Err(QueryError::Process(error)),
            Ok(stdout) => count_filled_lines(stdout.as_slice()),
        }
    }
}

} // verus!
