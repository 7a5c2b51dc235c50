//! The operation surface: the resolved request, the ten handlers, and the
//! dispatcher.
//!
//! A request names a file, carries the optional entry text, the dry-run
//! flag, and the operation: a direction (add or remove) crossed with a
//! locator (a regular expression or a 1-indexed line number). Each handler
//! takes the file's contents, never its path: reading and writing the file
//! is the caller's business, which keeps every rule of the engine inside
//! verified code.
//!
//! Every handler returns a [`MutationOutcome`]. On a dry run the outcome
//! orders no write (`output` is `None`) and carries the preview; otherwise
//! it carries the rewritten contents and no preview. `matched` counts the
//! affected positions; zero means the "nothing matched" warning is due,
//! which is advisory and never an error.
use vstd::prelude::*;

use crate::engine::{
    add_after_lines, add_at_lines, add_before_lines, overwrite_at_lines, overwrite_pattern_lines,
    remove_after_lines, remove_at_lines, remove_before_lines, remove_matching_lines, EditResult,
    PreviewEntry,
};
use crate::lines::{
    join_lines, join_lines_spec, lemma_split_lines_len, split_lines, split_lines_spec,
};
use crate::ops::{
    add_after_preview, add_after_spec, add_before_preview, add_before_spec, count_matches,
    insert_at_preview, insert_at_spec, line_hits, overwrite_at_preview, overwrite_at_spec,
    overwrite_pattern_preview, overwrite_pattern_spec, remove_after_preview, remove_after_spec,
    remove_at_preview, remove_at_spec, remove_before_preview, remove_before_spec,
    remove_matching_preview, remove_matching_spec, removed_after_count, removed_before_count,
    PreviewV,
};
use crate::pattern::{compile_pattern, pattern_valid};

verus! {

/// A resolved invocation: the file to mutate, the entry text (mandatory
/// for add, forbidden for remove), the dry-run flag, and the operation.
#[derive(Debug, Clone)]
pub struct CLIArguments {
    /// The file/path to mutate.
    pub file: String,
    /// Required for the `Add` command. Ignored if using the `Remove` command.
    pub entry: Option<String>,
    /// This will not make any changes but will report the changes made if the command is executed.
    pub dry_run: bool,
    pub command: What,
}

/// The direction of an operation: put a line in place, or take one out.
#[derive(Debug, Clone)]
pub enum What {
    /// This mode will add an additional line or overwrite a line in an existing file at a position specified by a regex or a line number.
    Add(Where),
    /// This mode will remove a line from a file at a position specified by a regex or a line number.
    Remove(Where),
}

/// The locator of an operation.
#[derive(Debug, Clone)]
pub struct Where {
    pub command: WhereCommands,
}

/// How the affected line(s) are located.
#[derive(Debug, Clone)]
pub enum WhereCommands {
    /// The line after a regex match is effected. Note: multiple matches can happen in a file.
    AfterPattern(PatternMutation),
    /// The line at the specified line number (starting from 1) is effected.
    AtLine(LineMutation),
    /// The line before a regex match is effected. Note: multiple matches can happen in a file.
    BeforePattern(PatternMutation),
    /// The line which matches a regex is replaced. Note: multiple matches can happen in a file.
    OverwritePattern(PatternMutation),
    /// The line specified by the line number (starting from 1) is over written with the entry.
    OverwriteLine(LineMutation),
}

/// A regex locator.
#[derive(Debug, Clone)]
pub struct PatternMutation {
    pub pattern: String,
}

/// A 1-indexed line-number locator.
#[derive(Debug, Clone)]
pub struct LineMutation {
    pub line_number: usize,
}

/// Why a request was rejected before any line was touched.
#[derive(Debug, Clone, Copy, PartialEq, Eq, Structural)]
pub enum MutationError {
    /// An entry was supplied together with the remove direction.
    EntryForbidden,
    /// The add direction came without an entry.
    EntryRequired,
    /// A line-number locator named line 0; line numbers are 1-indexed.
    LineZero,
    /// The pattern is not a valid regular expression.
    InvalidPattern,
}

/// What a handler decided. On a dry run `output` is `None`: nothing is to
/// be written, and `preview` announces each would-be change. Otherwise
/// `output` holds the full rewritten contents and `preview` is empty.
/// `matched` counts the affected positions; zero means the locator found
/// nothing and the run warns.
pub struct MutationOutcome {
    pub output: Option<String>,
    pub preview: Vec<PreviewEntry>,
    pub matched: usize,
}

/// Whether the command's locator names line 0, which is invalid: line
/// numbers are 1-indexed.
pub open spec fn names_line_zero(cmd: What) -> bool {
    match cmd {
        What::Add(w) => match w.command {
            WhereCommands::AtLine(l) => l.line_number == 0,
            WhereCommands::OverwriteLine(l) => l.line_number == 0,
            _ => false,
        },
        What::Remove(w) => match w.command {
            WhereCommands::AtLine(l) => l.line_number == 0,
            WhereCommands::OverwriteLine(l) => l.line_number == 0,
            _ => false,
        },
    }
}

/// Whether the command locates lines by a regular expression.
pub open spec fn uses_pattern(cmd: What) -> bool {
    match cmd {
        What::Add(w) => match w.command {
            WhereCommands::AtLine(l) => false,
            WhereCommands::OverwriteLine(l) => false,
            _ => true,
        },
        What::Remove(w) => match w.command {
            WhereCommands::AtLine(l) => false,
            WhereCommands::OverwriteLine(l) => false,
            _ => true,
        },
    }
}

/// Whether the entry is present exactly when the direction demands it:
/// mandatory for add, forbidden for remove.
pub open spec fn entry_consistent(args: CLIArguments) -> bool {
    match args.command {
        What::Add(w) => args.entry is Some,
        What::Remove(w) => args.entry is None,
    }
}

/// The pattern text of a regex-locating command, empty for a line-number
/// locator (which carries none).
pub open spec fn command_pattern(cmd: What) -> Seq<char> {
    match cmd {
        What::Add(w) => match w.command {
            WhereCommands::AfterPattern(p) => p.pattern@,
            WhereCommands::BeforePattern(p) => p.pattern@,
            WhereCommands::OverwritePattern(p) => p.pattern@,
            WhereCommands::AtLine(l) => Seq::<char>::empty(),
            WhereCommands::OverwriteLine(l) => Seq::<char>::empty(),
        },
        What::Remove(w) => match w.command {
            WhereCommands::AfterPattern(p) => p.pattern@,
            WhereCommands::BeforePattern(p) => p.pattern@,
            WhereCommands::OverwritePattern(p) => p.pattern@,
            WhereCommands::AtLine(l) => Seq::<char>::empty(),
            WhereCommands::OverwriteLine(l) => Seq::<char>::empty(),
        },
    }
}

/// The entry text, empty when none was supplied (remove operations never
/// read it).
pub open spec fn entry_view(args: CLIArguments) -> Seq<char> {
    if args.entry is Some {
        args.entry->Some_0@
    } else {
        Seq::<char>::empty()
    }
}

/// The lines after the command's edit.
pub open spec fn command_lines(cmd: What, entry: Seq<char>, lv: Seq<Seq<char>>) -> Seq<Seq<char>> {
    match cmd {
        What::Add(w) => match w.command {
            WhereCommands::AfterPattern(p) => add_after_spec(lv, p.pattern@, entry),
            WhereCommands::AtLine(l) => insert_at_spec(lv, l.line_number as int, entry),
            WhereCommands::BeforePattern(p) => add_before_spec(lv, p.pattern@, entry),
            WhereCommands::OverwritePattern(p) => overwrite_pattern_spec(lv, p.pattern@, entry),
            WhereCommands::OverwriteLine(l) => overwrite_at_spec(lv, l.line_number as int, entry),
        },
        What::Remove(w) => match w.command {
            WhereCommands::AfterPattern(p) => remove_after_spec(lv, p.pattern@),
            WhereCommands::AtLine(l) => remove_at_spec(lv, l.line_number as int),
            WhereCommands::BeforePattern(p) => remove_before_spec(lv, p.pattern@),
            WhereCommands::OverwritePattern(p) => remove_matching_spec(lv, p.pattern@),
            WhereCommands::OverwriteLine(l) => remove_at_spec(lv, l.line_number as int),
        },
    }
}

/// The command's dry-run preview.
pub open spec fn command_preview(cmd: What, entry: Seq<char>, lv: Seq<Seq<char>>) -> Seq<PreviewV> {
    match cmd {
        What::Add(w) => match w.command {
            WhereCommands::AfterPattern(p) => add_after_preview(lv, p.pattern@, entry),
            WhereCommands::AtLine(l) => insert_at_preview(lv, l.line_number as int, entry),
            WhereCommands::BeforePattern(p) => add_before_preview(lv, p.pattern@, entry),
            WhereCommands::OverwritePattern(p) => overwrite_pattern_preview(lv, p.pattern@, entry),
            WhereCommands::OverwriteLine(l) => overwrite_at_preview(
                lv,
                l.line_number as int,
                entry,
            ),
        },
        What::Remove(w) => match w.command {
            WhereCommands::AfterPattern(p) => remove_after_preview(lv, p.pattern@),
            WhereCommands::AtLine(l) => remove_at_preview(lv, l.line_number as int),
            WhereCommands::BeforePattern(p) => remove_before_preview(lv, p.pattern@),
            WhereCommands::OverwritePattern(p) => remove_matching_preview(lv, p.pattern@),
            WhereCommands::OverwriteLine(l) => remove_at_preview(lv, l.line_number as int),
        },
    }
}

/// How many positions the command's locator affects.
pub open spec fn command_matched(cmd: What, lv: Seq<Seq<char>>) -> nat {
    match cmd {
        What::Add(w) => match w.command {
            WhereCommands::AfterPattern(p) => count_matches(lv, p.pattern@),
            WhereCommands::AtLine(l) => line_hits(lv, l.line_number as int),
            WhereCommands::BeforePattern(p) => count_matches(lv, p.pattern@),
            WhereCommands::OverwritePattern(p) => count_matches(lv, p.pattern@),
            WhereCommands::OverwriteLine(l) => line_hits(lv, l.line_number as int),
        },
        What::Remove(w) => match w.command {
            WhereCommands::AfterPattern(p) => removed_after_count(lv, p.pattern@),
            WhereCommands::AtLine(l) => line_hits(lv, l.line_number as int),
            WhereCommands::BeforePattern(p) => removed_before_count(lv, p.pattern@),
            WhereCommands::OverwritePattern(p) => count_matches(lv, p.pattern@),
            WhereCommands::OverwriteLine(l) => line_hits(lv, l.line_number as int),
        },
    }
}

/// What a handler promises of its outcome: the exact count of affected
/// positions; on a dry run no output and the exact preview; otherwise the
/// exact rewritten contents and no preview.
pub open spec fn outcome_ok(
    o: MutationOutcome,
    dry_run: bool,
    edited: Seq<Seq<char>>,
    preview: Seq<PreviewV>,
    matched: nat,
) -> bool {
    &&& o.matched == matched
    &&& dry_run ==> o.output is None && o.preview.deep_view() == preview
    &&& !dry_run ==> o.preview@.len() == 0 && o.output is Some && o.output->Some_0@
        == join_lines_spec(edited)
}

/// Packs one pass's result into an outcome for the chosen mode.
fn finish(result: EditResult, dry_run: bool) -> (o: MutationOutcome)
    ensures
        o.matched == result.matched,
        dry_run ==> o.output is None && o.preview == result.preview,
        !dry_run ==> o.preview@.len() == 0 && o.output is Some && o.output->Some_0@
            == join_lines_spec(result.lines.deep_view()),
{
    if dry_run {
        MutationOutcome { output: None, preview: result.preview, matched: result.matched }
    } else {
        let joined = join_lines(&result.lines);
        MutationOutcome { output: Some(joined), preview: Vec::new(), matched: result.matched }
    }
}

/// Inserts the entry after every line the pattern matches; an invalid
/// pattern is rejected before any line is read.
pub fn add_after_pattern(contents: &str, pattern: &str, entry: &str, dry_run: bool) -> (r: Result<
    MutationOutcome,
    MutationError,
>)
    requires
        contents@.len() < usize::MAX / 2,
    ensures
        r is Ok <==> pattern_valid(pattern@),
        ({
            let lv = split_lines_spec(contents@);
            match r {
                Ok(o) => outcome_ok(
                    o,
                    dry_run,
                    add_after_spec(lv, pattern@, entry@),
                    add_after_preview(lv, pattern@, entry@),
                    count_matches(lv, pattern@),
                ),
                Err(e) => e == MutationError::InvalidPattern,
            }
        }),
{
    match compile_pattern(pattern) {
        None => Err(MutationError::InvalidPattern),
        Some(re) => {
            let lines = split_lines(contents);
            proof {
                lemma_split_lines_len(contents@);
                assert(lines@.len() == lines.deep_view().len());
            }
            let result = add_after_lines(&lines, &re, entry);
            Ok(finish(result, dry_run))
        },
    }
}

/// Inserts the entry before every line the pattern matches; an invalid
/// pattern is rejected before any line is read.
pub fn add_before_pattern(contents: &str, pattern: &str, entry: &str, dry_run: bool) -> (r: Result<
    MutationOutcome,
    MutationError,
>)
    requires
        contents@.len() < usize::MAX / 2,
    ensures
        r is Ok <==> pattern_valid(pattern@),
        ({
            let lv = split_lines_spec(contents@);
            match r {
                Ok(o) => outcome_ok(
                    o,
                    dry_run,
                    add_before_spec(lv, pattern@, entry@),
                    add_before_preview(lv, pattern@, entry@),
                    count_matches(lv, pattern@),
                ),
                Err(e) => e == MutationError::InvalidPattern,
            }
        }),
{
    match compile_pattern(pattern) {
        None => Err(MutationError::InvalidPattern),
        Some(re) => {
            let lines = split_lines(contents);
            proof {
                lemma_split_lines_len(contents@);
                assert(lines@.len() == lines.deep_view().len());
            }
            let result = add_before_lines(&lines, &re, entry);
            Ok(finish(result, dry_run))
        },
    }
}

/// Replaces every line the pattern matches by the entry; an invalid
/// pattern is rejected before any line is read.
pub fn overwrite_pattern(contents: &str, pattern: &str, entry: &str, dry_run: bool) -> (r: Result<
    MutationOutcome,
    MutationError,
>)
    ensures
        r is Ok <==> pattern_valid(pattern@),
        ({
            let lv = split_lines_spec(contents@);
            match r {
                Ok(o) => outcome_ok(
                    o,
                    dry_run,
                    overwrite_pattern_spec(lv, pattern@, entry@),
                    overwrite_pattern_preview(lv, pattern@, entry@),
                    count_matches(lv, pattern@),
                ),
                Err(e) => e == MutationError::InvalidPattern,
            }
        }),
{
    match compile_pattern(pattern) {
        None => Err(MutationError::InvalidPattern),
        Some(re) => {
            let lines = split_lines(contents);
            let result = overwrite_pattern_lines(&lines, &re, entry);
            Ok(finish(result, dry_run))
        },
    }
}

/// Deletes the line after every line the pattern matches; a match on the
/// final line deletes nothing.
pub fn remove_after_pattern(contents: &str, pattern: &str, dry_run: bool) -> (r: Result<
    MutationOutcome,
    MutationError,
>)
    ensures
        r is Ok <==> pattern_valid(pattern@),
        ({
            let lv = split_lines_spec(contents@);
            match r {
                Ok(o) => outcome_ok(
                    o,
                    dry_run,
                    remove_after_spec(lv, pattern@),
                    remove_after_preview(lv, pattern@),
                    removed_after_count(lv, pattern@),
                ),
                Err(e) => e == MutationError::InvalidPattern,
            }
        }),
{
    match compile_pattern(pattern) {
        None => Err(MutationError::InvalidPattern),
        Some(re) => {
            let lines = split_lines(contents);
            let result = remove_after_lines(&lines, &re);
            Ok(finish(result, dry_run))
        },
    }
}

/// Deletes the line before every line the pattern matches; a match on the
/// first line deletes nothing.
pub fn remove_before_pattern(contents: &str, pattern: &str, dry_run: bool) -> (r: Result<
    MutationOutcome,
    MutationError,
>)
    ensures
        r is Ok <==> pattern_valid(pattern@),
        ({
            let lv = split_lines_spec(contents@);
            match r {
                Ok(o) => outcome_ok(
                    o,
                    dry_run,
                    remove_before_spec(lv, pattern@),
                    remove_before_preview(lv, pattern@),
                    removed_before_count(lv, pattern@),
                ),
                Err(e) => e == MutationError::InvalidPattern,
            }
        }),
{
    match compile_pattern(pattern) {
        None => Err(MutationError::InvalidPattern),
        Some(re) => {
            let lines = split_lines(contents);
            let result = remove_before_lines(&lines, &re);
            Ok(finish(result, dry_run))
        },
    }
}

/// Deletes every line the pattern matches; an invalid pattern is rejected
/// before any line is read.
pub fn remove_overwrite_pattern(contents: &str, pattern: &str, dry_run: bool) -> (r: Result<
    MutationOutcome,
    MutationError,
>)
    ensures
        r is Ok <==> pattern_valid(pattern@),
        ({
            let lv = split_lines_spec(contents@);
            match r {
                Ok(o) => outcome_ok(
                    o,
                    dry_run,
                    remove_matching_spec(lv, pattern@),
                    remove_matching_preview(lv, pattern@),
                    count_matches(lv, pattern@),
                ),
                Err(e) => e == MutationError::InvalidPattern,
            }
        }),
{
    match compile_pattern(pattern) {
        None => Err(MutationError::InvalidPattern),
        Some(re) => {
            let lines = split_lines(contents);
            let result = remove_matching_lines(&lines, &re);
            Ok(finish(result, dry_run))
        },
    }
}

/// Inserts the entry before the 1-indexed line `line_no`, shifting it and
/// everything after it down by one; with no such line the contents come
/// back unchanged and `matched` is zero. Line numbers are 1-indexed:
/// [`run_mutation`] rejects a request naming line 0 before any line is
/// read, so no caller reaches this function with it.
pub fn add_via_line_number(contents: &str, line_no: usize, entry: &str, dry_run: bool) -> (r:
    MutationOutcome)
    requires
        line_no >= 1,
        contents@.len() < usize::MAX - 1,
    ensures
        ({
            let lv = split_lines_spec(contents@);
            outcome_ok(
                r,
                dry_run,
                insert_at_spec(lv, line_no as int, entry@),
                insert_at_preview(lv, line_no as int, entry@),
                line_hits(lv, line_no as int),
            )
        }),
{
    let lines = split_lines(contents);
    proof {
        lemma_split_lines_len(contents@);
        assert(lines@.len() == lines.deep_view().len());
    }
    let result = add_at_lines(&lines, line_no, entry);
    finish(result, dry_run)
}

/// Replaces the 1-indexed line `line_no` by the entry; with no such line
/// the contents come back unchanged and `matched` is zero. Line numbers
/// are 1-indexed: [`run_mutation`] rejects a request naming line 0 before
/// any line is read, so no caller reaches this function with it.
pub fn overwrite_via_line_number(contents: &str, line_no: usize, entry: &str, dry_run: bool) -> (r:
    MutationOutcome)
    requires
        line_no >= 1,
    ensures
        ({
            let lv = split_lines_spec(contents@);
            outcome_ok(
                r,
                dry_run,
                overwrite_at_spec(lv, line_no as int, entry@),
                overwrite_at_preview(lv, line_no as int, entry@),
                line_hits(lv, line_no as int),
            )
        }),
{
    let lines = split_lines(contents);
    let result = overwrite_at_lines(&lines, line_no, entry);
    finish(result, dry_run)
}

/// Deletes the 1-indexed line `line_no`; with no such line the contents
/// come back unchanged and `matched` is zero. Line numbers are 1-indexed:
/// [`run_mutation`] rejects a request naming line 0 before any line is
/// read, so no caller reaches this function with it.
pub fn remove_via_line_number(contents: &str, line_no: usize, dry_run: bool) -> (r:
    MutationOutcome)
    requires
        line_no >= 1,
    ensures
        ({
            let lv = split_lines_spec(contents@);
            outcome_ok(
                r,
                dry_run,
                remove_at_spec(lv, line_no as int),
                remove_at_preview(lv, line_no as int),
                line_hits(lv, line_no as int),
            )
        }),
{
    let lines = split_lines(contents);
    let result = remove_at_lines(&lines, line_no);
    finish(result, dry_run)
}

/// Validates a request and runs its operation on the given contents.
///
/// The precondition checks run before any line is read: an entry together
/// with remove, a missing entry with add, and a line number of zero are
/// each rejected, so a request whose locator names line 0 never mutates
/// anything. A dry run never orders a write.
pub fn run_mutation(args: &CLIArguments, contents: &str) -> (r: Result<
    MutationOutcome,
    MutationError,
>)
    requires
        contents@.len() < usize::MAX / 2,
    ensures
        args.entry is Some && args.command is Remove <==> r == Err::<
            MutationOutcome,
            MutationError,
        >(MutationError::EntryForbidden),
        args.entry is None && args.command is Add <==> r == Err::<MutationOutcome, MutationError>(
            MutationError::EntryRequired,
        ),
        names_line_zero(args.command) ==> r is Err,
        r == Err::<MutationOutcome, MutationError>(MutationError::LineZero) <==> entry_consistent(
            *args,
        ) && names_line_zero(args.command),
        r == Err::<MutationOutcome, MutationError>(MutationError::InvalidPattern)
            <==> entry_consistent(*args) && uses_pattern(args.command) && !pattern_valid(
            command_pattern(args.command),
        ),
        entry_consistent(*args) && !names_line_zero(args.command) && !uses_pattern(args.command)
            ==> r is Ok,
        entry_consistent(*args) && uses_pattern(args.command) && pattern_valid(
            command_pattern(args.command),
        ) ==> r is Ok,
        r matches Ok(o) ==> outcome_ok(
            o,
            args.dry_run,
            command_lines(args.command, entry_view(*args), split_lines_spec(contents@)),
            command_preview(args.command, entry_view(*args), split_lines_spec(contents@)),
            command_matched(args.command, split_lines_spec(contents@)),
        ),
{
    match (&args.entry, &args.command) {
        (Some(entry), What::Remove(w)) => Err(MutationError::EntryForbidden),
        (None, What::Add(w)) => Err(MutationError::EntryRequired),
        (Some(entry), What::Add(w)) => match &w.command {
            WhereCommands::AfterPattern(p) => add_after_pattern(
                contents,
                p.pattern.as_str(),
                entry.as_str(),
                args.dry_run,
            ),
            WhereCommands::AtLine(l) => {
                if l.line_number == 0 {
                    Err(MutationError::LineZero)
                } else {
                    Ok(
                        add_via_line_number(
                            contents,
                            l.line_number,
                            entry.as_str(),
                            args.dry_run,
                        ),
                    )
                }
            },
            WhereCommands::BeforePattern(p) => add_before_pattern(
                contents,
                p.pattern.as_str(),
                entry.as_str(),
                args.dry_run,
            ),
            WhereCommands::OverwritePattern(p) => overwrite_pattern(
                contents,
                p.pattern.as_str(),
                entry.as_str(),
                args.dry_run,
            ),
            WhereCommands::OverwriteLine(l) => {
                if l.line_number == 0 {
                    Err(MutationError::LineZero)
                } else {
                    Ok(
                        overwrite_via_line_number(
                            contents,
                            l.line_number,
                            entry.as_str(),
                            args.dry_run,
                        ),
                    )
                }
            },
        },
        (None, What::Remove(w)) => match &w.command {
            WhereCommands::AfterPattern(p) => remove_after_pattern(
                contents,
                p.pattern.as_str(),
                args.dry_run,
            ),
            WhereCommands::AtLine(l) => {
                if l.line_number == 0 {
                    Err(MutationError::LineZero)
                } else {
                    Ok(remove_via_line_number(contents, l.line_number, args.dry_run))
                }
            },
            WhereCommands::BeforePattern(p) => remove_before_pattern(
                contents,
                p.pattern.as_str(),
                args.dry_run,
            ),
            WhereCommands::OverwritePattern(p) => remove_overwrite_pattern(
                contents,
                p.pattern.as_str(),
                args.dry_run,
            ),
            WhereCommands::OverwriteLine(l) => {
                if l.line_number == 0 {
                    Err(MutationError::LineZero)
                } else {
                    Ok(remove_via_line_number(contents, l.line_number, args.dry_run))
                }
            },
        },
    }
}

} // verus!
