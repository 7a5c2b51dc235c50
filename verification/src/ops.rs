//! The mathematical model of the ten operations.
//!
//! Each spec function maps the lines of a file to the lines after an edit,
//! together with the dry-run preview the edit announces and the number of
//! affected positions. Pattern-located edits recurse over the lines from a
//! start index, which lets the single-pass engine carry them as loop
//! invariants; line-number edits are direct.
//!
//! Preview convention: one triple `(line, added, text)` per announced line,
//! `added` true for a line the edit puts in place, false for one it takes
//! out of place. Added lines carry their resulting 1-indexed line number
//! (insertions earlier in the same pass shift it); removed lines carry
//! their original 1-indexed line number.
use vstd::prelude::*;

use crate::pattern::regex_accepts;

verus! {

/// A dry-run preview line: resulting or original line number, whether the
/// line is added (true) or taken out of place (false), and its text.
pub type PreviewV = (nat, bool, Seq<char>);

/// The number of lines in `lines[i..]` that the pattern matches.
pub open spec fn count_matches_from(lines: Seq<Seq<char>>, pat: Seq<char>, i: int) -> nat
    decreases lines.len() - i,
{
    if i < 0 || i >= lines.len() {
        0
    } else {
        (if regex_accepts(pat, lines[i]) {
            1nat
        } else {
            0nat
        }) + count_matches_from(lines, pat, i + 1)
    }
}

/// The number of lines that the pattern matches.
pub open spec fn count_matches(lines: Seq<Seq<char>>, pat: Seq<char>) -> nat {
    count_matches_from(lines, pat, 0)
}

/// `lines[i..]` after inserting `entry` immediately after every line the
/// pattern matches.
pub open spec fn add_after_from(
    lines: Seq<Seq<char>>,
    pat: Seq<char>,
    entry: Seq<char>,
    i: int,
) -> Seq<Seq<char>>
    decreases lines.len() - i,
{
    if i < 0 || i >= lines.len() {
        Seq::empty()
    } else {
        let rest = add_after_from(lines, pat, entry, i + 1);
        if regex_accepts(pat, lines[i]) {
            seq![lines[i], entry] + rest
        } else {
            seq![lines[i]] + rest
        }
    }
}

/// The lines after inserting `entry` immediately after every match.
pub open spec fn add_after_spec(lines: Seq<Seq<char>>, pat: Seq<char>, entry: Seq<char>) -> Seq<
    Seq<char>,
> {
    add_after_from(lines, pat, entry, 0)
}

/// The preview of `add_after_spec` from line `i` on, `found` matches seen
/// so far: each inserted entry with its resulting line number.
pub open spec fn add_after_preview_from(
    lines: Seq<Seq<char>>,
    pat: Seq<char>,
    entry: Seq<char>,
    i: int,
    found: int,
) -> Seq<PreviewV>
    decreases lines.len() - i,
{
    if i < 0 || i >= lines.len() {
        Seq::empty()
    } else if regex_accepts(pat, lines[i]) {
        seq![((i + 1 + found + 1) as nat, true, entry)] + add_after_preview_from(
            lines,
            pat,
            entry,
            i + 1,
            found + 1,
        )
    } else {
        add_after_preview_from(lines, pat, entry, i + 1, found)
    }
}

/// The preview of inserting `entry` after every match.
pub open spec fn add_after_preview(lines: Seq<Seq<char>>, pat: Seq<char>, entry: Seq<char>) -> Seq<
    PreviewV,
> {
    add_after_preview_from(lines, pat, entry, 0, 0)
}

/// `lines[i..]` after inserting `entry` immediately before every line the
/// pattern matches.
pub open spec fn add_before_from(
    lines: Seq<Seq<char>>,
    pat: Seq<char>,
    entry: Seq<char>,
    i: int,
) -> Seq<Seq<char>>
    decreases lines.len() - i,
{
    if i < 0 || i >= lines.len() {
        Seq::empty()
    } else {
        let rest = add_before_from(lines, pat, entry, i + 1);
        if regex_accepts(pat, lines[i]) {
            seq![entry, lines[i]] + rest
        } else {
            seq![lines[i]] + rest
        }
    }
}

/// The lines after inserting `entry` immediately before every match.
pub open spec fn add_before_spec(lines: Seq<Seq<char>>, pat: Seq<char>, entry: Seq<char>) -> Seq<
    Seq<char>,
> {
    add_before_from(lines, pat, entry, 0)
}

/// The preview of `add_before_spec`: each inserted entry with its
/// resulting line number.
pub open spec fn add_before_preview_from(
    lines: Seq<Seq<char>>,
    pat: Seq<char>,
    entry: Seq<char>,
    i: int,
    found: int,
) -> Seq<PreviewV>
    decreases lines.len() - i,
{
    if i < 0 || i >= lines.len() {
        Seq::empty()
    } else if regex_accepts(pat, lines[i]) {
        seq![((i + found + 1) as nat, true, entry)] + add_before_preview_from(
            lines,
            pat,
            entry,
            i + 1,
            found + 1,
        )
    } else {
        add_before_preview_from(lines, pat, entry, i + 1, found)
    }
}

/// The preview of inserting `entry` before every match.
pub open spec fn add_before_preview(lines: Seq<Seq<char>>, pat: Seq<char>, entry: Seq<char>) -> Seq<
    PreviewV,
> {
    add_before_preview_from(lines, pat, entry, 0, 0)
}

/// `lines[i..]` with every line the pattern matches replaced by `entry`.
pub open spec fn overwrite_pattern_from(
    lines: Seq<Seq<char>>,
    pat: Seq<char>,
    entry: Seq<char>,
    i: int,
) -> Seq<Seq<char>>
    decreases lines.len() - i,
{
    if i < 0 || i >= lines.len() {
        Seq::empty()
    } else {
        let rest = overwrite_pattern_from(lines, pat, entry, i + 1);
        if regex_accepts(pat, lines[i]) {
            seq![entry] + rest
        } else {
            seq![lines[i]] + rest
        }
    }
}

/// The lines with every match replaced by `entry`.
pub open spec fn overwrite_pattern_spec(
    lines: Seq<Seq<char>>,
    pat: Seq<char>,
    entry: Seq<char>,
) -> Seq<Seq<char>> {
    overwrite_pattern_from(lines, pat, entry, 0)
}

/// The preview of `overwrite_pattern_spec`: the replaced line and its
/// replacement, both at the unchanged line number.
pub open spec fn overwrite_pattern_preview_from(
    lines: Seq<Seq<char>>,
    pat: Seq<char>,
    entry: Seq<char>,
    i: int,
) -> Seq<PreviewV>
    decreases lines.len() - i,
{
    if i < 0 || i >= lines.len() {
        Seq::empty()
    } else if regex_accepts(pat, lines[i]) {
        seq![((i + 1) as nat, false, lines[i]), ((i + 1) as nat, true, entry)]
            + overwrite_pattern_preview_from(lines, pat, entry, i + 1)
    } else {
        overwrite_pattern_preview_from(lines, pat, entry, i + 1)
    }
}

/// The preview of replacing every match by `entry`.
pub open spec fn overwrite_pattern_preview(
    lines: Seq<Seq<char>>,
    pat: Seq<char>,
    entry: Seq<char>,
) -> Seq<PreviewV> {
    overwrite_pattern_preview_from(lines, pat, entry, 0)
}

/// `lines[i..]` with every line the pattern matches deleted.
pub open spec fn remove_matching_from(lines: Seq<Seq<char>>, pat: Seq<char>, i: int) -> Seq<
    Seq<char>,
>
    decreases lines.len() - i,
{
    if i < 0 || i >= lines.len() {
        Seq::empty()
    } else {
        let rest = remove_matching_from(lines, pat, i + 1);
        if regex_accepts(pat, lines[i]) {
            rest
        } else {
            seq![lines[i]] + rest
        }
    }
}

/// The lines the delete-every-match edit keeps: exactly the lines the
/// pattern does not match, in order.
pub open spec fn remove_matching_kept(lines: Seq<Seq<char>>, pat: Seq<char>) -> Seq<Seq<char>> {
    remove_matching_from(lines, pat, 0)
}

/// The lines with every match deleted. A single pass writes each kept
/// line's separator while the dropped lines still lie ahead, so deleting
/// the final line leaves the separator before it: the kept lines then end
/// in one empty line.
pub open spec fn remove_matching_spec(lines: Seq<Seq<char>>, pat: Seq<char>) -> Seq<Seq<char>> {
    let kept = remove_matching_kept(lines, pat);
    if lines.len() >= 1 && regex_accepts(pat, lines.last()) && kept.len() >= 1 {
        kept.push(Seq::<char>::empty())
    } else {
        kept
    }
}

/// The preview of `remove_matching_spec`: each deleted line at its
/// original line number.
pub open spec fn remove_matching_preview_from(
    lines: Seq<Seq<char>>,
    pat: Seq<char>,
    i: int,
) -> Seq<PreviewV>
    decreases lines.len() - i,
{
    if i < 0 || i >= lines.len() {
        Seq::empty()
    } else if regex_accepts(pat, lines[i]) {
        seq![((i + 1) as nat, false, lines[i])] + remove_matching_preview_from(lines, pat, i + 1)
    } else {
        remove_matching_preview_from(lines, pat, i + 1)
    }
}

/// The preview of deleting every match.
pub open spec fn remove_matching_preview(lines: Seq<Seq<char>>, pat: Seq<char>) -> Seq<PreviewV> {
    remove_matching_preview_from(lines, pat, 0)
}

/// Whether `lines[i]` is dropped by the remove-after edit: it stands
/// immediately after a match. A match on the final line has no following
/// line and drops nothing.
pub open spec fn dropped_after(lines: Seq<Seq<char>>, pat: Seq<char>, i: int) -> bool {
    i >= 1 && regex_accepts(pat, lines[i - 1])
}

/// `lines[i..]` after deleting the line immediately after every match.
pub open spec fn remove_after_from(lines: Seq<Seq<char>>, pat: Seq<char>, i: int) -> Seq<Seq<char>>
    decreases lines.len() - i,
{
    if i < 0 || i >= lines.len() {
        Seq::empty()
    } else {
        let rest = remove_after_from(lines, pat, i + 1);
        if dropped_after(lines, pat, i) {
            rest
        } else {
            seq![lines[i]] + rest
        }
    }
}

/// The lines the remove-after edit keeps: exactly the lines that do not
/// stand immediately after a match, in order.
pub open spec fn remove_after_kept(lines: Seq<Seq<char>>, pat: Seq<char>) -> Seq<Seq<char>> {
    remove_after_from(lines, pat, 0)
}

/// The lines after deleting the line immediately after every match. As
/// with every removal, deleting the final line leaves the separator
/// before it, so the kept lines then end in one empty line.
pub open spec fn remove_after_spec(lines: Seq<Seq<char>>, pat: Seq<char>) -> Seq<Seq<char>> {
    let kept = remove_after_kept(lines, pat);
    if dropped_after(lines, pat, lines.len() - 1) {
        kept.push(Seq::<char>::empty())
    } else {
        kept
    }
}

/// The number of lines in `lines[i..]` that the remove-after edit drops.
pub open spec fn removed_after_count_from(lines: Seq<Seq<char>>, pat: Seq<char>, i: int) -> nat
    decreases lines.len() - i,
{
    if i < 0 || i >= lines.len() {
        0
    } else {
        (if dropped_after(lines, pat, i) {
            1nat
        } else {
            0nat
        }) + removed_after_count_from(lines, pat, i + 1)
    }
}

/// The number of lines the remove-after edit drops.
pub open spec fn removed_after_count(lines: Seq<Seq<char>>, pat: Seq<char>) -> nat {
    removed_after_count_from(lines, pat, 0)
}

/// The preview of `remove_after_spec`: each dropped line at its original
/// line number.
pub open spec fn remove_after_preview_from(lines: Seq<Seq<char>>, pat: Seq<char>, i: int) -> Seq<
    PreviewV,
>
    decreases lines.len() - i,
{
    if i < 0 || i >= lines.len() {
        Seq::empty()
    } else if dropped_after(lines, pat, i) {
        seq![((i + 1) as nat, false, lines[i])] + remove_after_preview_from(lines, pat, i + 1)
    } else {
        remove_after_preview_from(lines, pat, i + 1)
    }
}

/// The preview of deleting the line after every match.
pub open spec fn remove_after_preview(lines: Seq<Seq<char>>, pat: Seq<char>) -> Seq<PreviewV> {
    remove_after_preview_from(lines, pat, 0)
}

/// Whether `lines[i]` is dropped by the remove-before edit: it stands
/// immediately before a match. A match on the first line has no preceding
/// line and drops nothing.
pub open spec fn dropped_before(lines: Seq<Seq<char>>, pat: Seq<char>, i: int) -> bool {
    i + 1 < lines.len() && regex_accepts(pat, lines[i + 1])
}

/// `lines[i..]` after deleting the line immediately before every match.
pub open spec fn remove_before_from(lines: Seq<Seq<char>>, pat: Seq<char>, i: int) -> Seq<Seq<char>>
    decreases lines.len() - i,
{
    if i < 0 || i >= lines.len() {
        Seq::empty()
    } else {
        let rest = remove_before_from(lines, pat, i + 1);
        if dropped_before(lines, pat, i) {
            rest
        } else {
            seq![lines[i]] + rest
        }
    }
}

/// The lines after deleting the line immediately before every match.
pub open spec fn remove_before_spec(lines: Seq<Seq<char>>, pat: Seq<char>) -> Seq<Seq<char>> {
    remove_before_from(lines, pat, 0)
}

/// The number of lines in `lines[i..]` that the remove-before edit drops.
pub open spec fn removed_before_count_from(lines: Seq<Seq<char>>, pat: Seq<char>, i: int) -> nat
    decreases lines.len() - i,
{
    if i < 0 || i >= lines.len() {
        0
    } else {
        (if dropped_before(lines, pat, i) {
            1nat
        } else {
            0nat
        }) + removed_before_count_from(lines, pat, i + 1)
    }
}

/// The number of lines the remove-before edit drops.
pub open spec fn removed_before_count(lines: Seq<Seq<char>>, pat: Seq<char>) -> nat {
    removed_before_count_from(lines, pat, 0)
}

/// The preview of `remove_before_spec`: each dropped line at its original
/// line number.
pub open spec fn remove_before_preview_from(lines: Seq<Seq<char>>, pat: Seq<char>, i: int) -> Seq<
    PreviewV,
>
    decreases lines.len() - i,
{
    if i < 0 || i >= lines.len() {
        Seq::empty()
    } else if dropped_before(lines, pat, i) {
        seq![((i + 1) as nat, false, lines[i])] + remove_before_preview_from(lines, pat, i + 1)
    } else {
        remove_before_preview_from(lines, pat, i + 1)
    }
}

/// The preview of deleting the line before every match.
pub open spec fn remove_before_preview(lines: Seq<Seq<char>>, pat: Seq<char>) -> Seq<PreviewV> {
    remove_before_preview_from(lines, pat, 0)
}

/// The lines after inserting `entry` before the 1-indexed line `n`,
/// shifting it and all following lines down by one; unchanged when no line
/// has that number.
pub open spec fn insert_at_spec(lines: Seq<Seq<char>>, n: int, entry: Seq<char>) -> Seq<Seq<char>> {
    if 1 <= n <= lines.len() {
        lines.insert(n - 1, entry)
    } else {
        lines
    }
}

/// The preview of `insert_at_spec`: the line that loses its place, the
/// entry at `n`, and the shifted line at `n + 1`.
pub open spec fn insert_at_preview(lines: Seq<Seq<char>>, n: int, entry: Seq<char>) -> Seq<
    PreviewV,
> {
    if 1 <= n <= lines.len() {
        seq![
            (n as nat, false, lines[n - 1]),
            (n as nat, true, entry),
            ((n + 1) as nat, true, lines[n - 1]),
        ]
    } else {
        Seq::empty()
    }
}

/// The lines with the 1-indexed line `n` replaced by `entry`; unchanged
/// when no line has that number.
pub open spec fn overwrite_at_spec(lines: Seq<Seq<char>>, n: int, entry: Seq<char>) -> Seq<
    Seq<char>,
> {
    if 1 <= n <= lines.len() {
        lines.update(n - 1, entry)
    } else {
        lines
    }
}

/// The preview of `overwrite_at_spec`: the replaced line and its
/// replacement, both at `n`.
pub open spec fn overwrite_at_preview(lines: Seq<Seq<char>>, n: int, entry: Seq<char>) -> Seq<
    PreviewV,
> {
    if 1 <= n <= lines.len() {
        seq![(n as nat, false, lines[n - 1]), (n as nat, true, entry)]
    } else {
        Seq::empty()
    }
}

/// The lines after deleting the 1-indexed line `n`; unchanged when no line
/// has that number. Deleting the final line of several leaves the
/// separator before it, so the kept lines then end in one empty line.
pub open spec fn remove_at_spec(lines: Seq<Seq<char>>, n: int) -> Seq<Seq<char>> {
    if 1 <= n <= lines.len() {
        if n == lines.len() && lines.len() >= 2 {
            lines.remove(n - 1).push(Seq::<char>::empty())
        } else {
            lines.remove(n - 1)
        }
    } else {
        lines
    }
}

/// The preview of `remove_at_spec`: the deleted line at `n`.
pub open spec fn remove_at_preview(lines: Seq<Seq<char>>, n: int) -> Seq<PreviewV> {
    if 1 <= n <= lines.len() {
        seq![(n as nat, false, lines[n - 1])]
    } else {
        Seq::empty()
    }
}

/// How many positions a line-number locator affects: the one line `n`
/// when it exists.
pub open spec fn line_hits(lines: Seq<Seq<char>>, n: int) -> nat {
    if 1 <= n <= lines.len() {
        1
    } else {
        0
    }
}

} // verus!
