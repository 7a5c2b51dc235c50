//! Laws of the engine, proved once for all inputs.
use vstd::prelude::*;

use crate::lines::{
    join_lines_spec, lemma_join_split, lemma_split_join, lemma_split_lines_len,
    lemma_split_lines_no_newline, split_lines_spec,
};
use crate::ops::{
    add_after_from, add_after_spec, add_before_from, add_before_spec, count_matches,
    count_matches_from, dropped_after, dropped_before, insert_at_spec, overwrite_at_spec,
    overwrite_pattern_from, overwrite_pattern_spec, remove_after_from, remove_after_kept,
    remove_after_spec, remove_at_spec, remove_before_from, remove_before_spec,
    remove_matching_from, remove_matching_kept, removed_after_count, removed_after_count_from,
    removed_before_count, removed_before_count_from,
};
use crate::pattern::regex_accepts;

verus! {

/// Overwriting a line by number is idempotent: writing the same entry at
/// the same line twice leaves exactly what one write leaves.
pub proof fn lemma_overwrite_line_idempotent(lines: Seq<Seq<char>>, n: int, entry: Seq<char>)
    ensures
        overwrite_at_spec(overwrite_at_spec(lines, n, entry), n, entry) == overwrite_at_spec(
            lines,
            n,
            entry,
        ),
{
    if 1 <= n <= lines.len() {
        assert(overwrite_at_spec(overwrite_at_spec(lines, n, entry), n, entry)
            =~~= overwrite_at_spec(lines, n, entry));
    }
}

/// Adding a line at `n` and then removing the line at `n` restores the
/// lines exactly, for any `n >= 1`; past the end both edits are no-ops.
pub proof fn lemma_add_remove_round_trip(lines: Seq<Seq<char>>, n: int, entry: Seq<char>)
    requires
        n >= 1,
    ensures
        remove_at_spec(insert_at_spec(lines, n, entry), n) == lines,
{
    if n <= lines.len() {
        let ins = insert_at_spec(lines, n, entry);
        lines.insert_ensures(n - 1, entry);
        assert(remove_at_spec(ins, n) =~~= lines);
    }
}

/// The round trip on whole contents: add an entry at line `n`, write the
/// result out, read it back, and remove line `n`; the original contents
/// come back byte for byte, for any `n >= 1` and any newline-free entry.
pub proof fn lemma_add_remove_round_trip_contents(s: Seq<char>, n: int, entry: Seq<char>)
    requires
        n >= 1,
        !entry.contains('\n'),
    ensures
        join_lines_spec(
            remove_at_spec(
                split_lines_spec(join_lines_spec(insert_at_spec(split_lines_spec(s), n, entry))),
                n,
            ),
        ) == s,
{
    let lv = split_lines_spec(s);
    let ins = insert_at_spec(lv, n, entry);
    lemma_split_lines_no_newline(s);
    lemma_split_lines_len(s);
    if n <= lv.len() {
        lv.insert_ensures(n - 1, entry);
        assert(forall|j: int| 0 <= j < entry.len() ==> entry[j] != '\n');
        assert forall|i: int| 0 <= i < ins.len() implies !(#[trigger] ins[i]).contains('\n') by {
            if i == n - 1 {
                assert(ins[i] == entry);
            } else if i < n - 1 {
                assert(ins[i] == lv[i]);
            } else {
                assert(ins[i] == lv[i - 1]);
            }
        }
    }
    lemma_split_join(ins);
    lemma_add_remove_round_trip(lv, n, entry);
    lemma_join_split(s);
}

proof fn lemma_overwrite_pattern_from_each(
    lines: Seq<Seq<char>>,
    pat: Seq<char>,
    entry: Seq<char>,
    i: int,
)
    requires
        0 <= i <= lines.len(),
    ensures
        overwrite_pattern_from(lines, pat, entry, i).len() == lines.len() - i,
        forall|k: int|
            0 <= k < lines.len() - i ==> #[trigger] overwrite_pattern_from(lines, pat, entry, i)[k]
                == (if regex_accepts(pat, lines[i + k]) {
                entry
            } else {
                lines[i + k]
            }),
    decreases lines.len() - i,
{
    if i < lines.len() {
        lemma_overwrite_pattern_from_each(lines, pat, entry, i + 1);
    }
}

/// Every line the pattern matches is replaced by the entry, exactly once;
/// every other line stays itself, at its place: the edit is the pointwise
/// map over the lines.
pub proof fn lemma_overwrite_pattern_each_line(
    lines: Seq<Seq<char>>,
    pat: Seq<char>,
    entry: Seq<char>,
)
    ensures
        overwrite_pattern_spec(lines, pat, entry).len() == lines.len(),
        forall|i: int|
            0 <= i < lines.len() ==> #[trigger] overwrite_pattern_spec(lines, pat, entry)[i] == (
            if regex_accepts(pat, lines[i]) {
                entry
            } else {
                lines[i]
            }),
{
    lemma_overwrite_pattern_from_each(lines, pat, entry, 0);
}

proof fn lemma_remove_matching_from_filter(lines: Seq<Seq<char>>, pat: Seq<char>, i: int)
    requires
        0 <= i <= lines.len(),
    ensures
        remove_matching_from(lines, pat, i) == lines.skip(i).filter(
            (|l: Seq<char>| !regex_accepts(pat, l)),
        ),
    decreases lines.len() - i,
{
    let p = (|l: Seq<char>| !regex_accepts(pat, l));
    if i == lines.len() {
        reveal(Seq::filter);
        assert(lines.skip(i) =~~= Seq::<Seq<char>>::empty());
        assert(lines.skip(i).filter(p).len() == 0);
        assert(remove_matching_from(lines, pat, i) =~~= lines.skip(i).filter(p));
    } else {
        lemma_remove_matching_from_filter(lines, pat, i + 1);
        assert(lines.skip(i) =~~= seq![lines[i]] + lines.skip(i + 1));
        lines.skip(i + 1).lemma_filter_prepend(lines[i], p);
        if p(lines[i]) {
            assert(remove_matching_from(lines, pat, i) =~~= lines.skip(i).filter(p));
        } else {
            assert(Seq::<Seq<char>>::empty() + lines.skip(i + 1).filter(p) =~~= lines.skip(
                i + 1,
            ).filter(p));
            assert(remove_matching_from(lines, pat, i) =~~= lines.skip(i).filter(p));
        }
    }
}

/// Deleting every matching line keeps exactly the non-matching lines, in
/// their original order: the kept lines are the filter over the lines.
pub proof fn lemma_remove_matching_is_filter(lines: Seq<Seq<char>>, pat: Seq<char>)
    ensures
        remove_matching_kept(lines, pat) == lines.filter((|l: Seq<char>| !regex_accepts(pat, l))),
{
    lemma_remove_matching_from_filter(lines, pat, 0);
    assert(lines.skip(0) =~~= lines);
}

/// The per-line expansion of the add-after edit: a matching line is
/// followed by the entry, any other line stands alone.
pub open spec fn expand_after(pat: Seq<char>, entry: Seq<char>, l: Seq<char>) -> Seq<Seq<char>> {
    if regex_accepts(pat, l) {
        seq![l, entry]
    } else {
        seq![l]
    }
}

/// The per-line expansion of the add-before edit: a matching line is
/// preceded by the entry, any other line stands alone.
pub open spec fn expand_before(pat: Seq<char>, entry: Seq<char>, l: Seq<char>) -> Seq<Seq<char>> {
    if regex_accepts(pat, l) {
        seq![entry, l]
    } else {
        seq![l]
    }
}

proof fn lemma_add_after_from_flat(lines: Seq<Seq<char>>, pat: Seq<char>, entry: Seq<char>, i: int)
    requires
        0 <= i <= lines.len(),
    ensures
        add_after_from(lines, pat, entry, i) == lines.skip(i).flat_map(
            (|l: Seq<char>| expand_after(pat, entry, l)),
        ),
    decreases lines.len() - i,
{
    let f = (|l: Seq<char>| expand_after(pat, entry, l));
    if i == lines.len() {
        assert(lines.skip(i).map_values(f) =~~= Seq::<Seq<Seq<char>>>::empty());
        assert(add_after_from(lines, pat, entry, i) =~~= lines.skip(i).flat_map(f));
    } else {
        lemma_add_after_from_flat(lines, pat, entry, i + 1);
        let m = lines.skip(i).map_values(f);
        assert(m.len() >= 1);
        assert(m.first() == f(lines[i]));
        assert(m.drop_first() =~~= lines.skip(i + 1).map_values(f));
        assert(m.flatten() == m.first() + m.drop_first().flatten());
        assert(add_after_from(lines, pat, entry, i) =~~= lines.skip(i).flat_map(f));
    }
}

/// Every line the pattern matches gains the entry right after it, exactly
/// once; every other line stands unchanged, in order: the edit is the
/// flat map of the per-line expansion.
pub proof fn lemma_add_after_each_line(lines: Seq<Seq<char>>, pat: Seq<char>, entry: Seq<char>)
    ensures
        add_after_spec(lines, pat, entry) == lines.flat_map(
            (|l: Seq<char>| expand_after(pat, entry, l)),
        ),
{
    lemma_add_after_from_flat(lines, pat, entry, 0);
    assert(lines.skip(0) =~~= lines);
}

proof fn lemma_add_before_from_flat(
    lines: Seq<Seq<char>>,
    pat: Seq<char>,
    entry: Seq<char>,
    i: int,
)
    requires
        0 <= i <= lines.len(),
    ensures
        add_before_from(lines, pat, entry, i) == lines.skip(i).flat_map(
            (|l: Seq<char>| expand_before(pat, entry, l)),
        ),
    decreases lines.len() - i,
{
    let f = (|l: Seq<char>| expand_before(pat, entry, l));
    if i == lines.len() {
        assert(lines.skip(i).map_values(f) =~~= Seq::<Seq<Seq<char>>>::empty());
        assert(add_before_from(lines, pat, entry, i) =~~= lines.skip(i).flat_map(f));
    } else {
        lemma_add_before_from_flat(lines, pat, entry, i + 1);
        let m = lines.skip(i).map_values(f);
        assert(m.len() >= 1);
        assert(m.first() == f(lines[i]));
        assert(m.drop_first() =~~= lines.skip(i + 1).map_values(f));
        assert(m.flatten() == m.first() + m.drop_first().flatten());
        assert(add_before_from(lines, pat, entry, i) =~~= lines.skip(i).flat_map(f));
    }
}

/// Every line the pattern matches gains the entry right before it,
/// exactly once; every other line stands unchanged, in order.
pub proof fn lemma_add_before_each_line(lines: Seq<Seq<char>>, pat: Seq<char>, entry: Seq<char>)
    ensures
        add_before_spec(lines, pat, entry) == lines.flat_map(
            (|l: Seq<char>| expand_before(pat, entry, l)),
        ),
{
    lemma_add_before_from_flat(lines, pat, entry, 0);
    assert(lines.skip(0) =~~= lines);
}

/// What the remove-after edit does with the line at index `i`: drops it
/// when it stands right after a match, keeps it alone otherwise.
pub open spec fn keep_unless_after(lines: Seq<Seq<char>>, pat: Seq<char>, i: int) -> Seq<
    Seq<char>,
> {
    if dropped_after(lines, pat, i) {
        Seq::<Seq<char>>::empty()
    } else {
        seq![lines[i]]
    }
}

/// What the remove-before edit does with the line at index `i`: drops it
/// when it stands right before a match, keeps it alone otherwise.
pub open spec fn keep_unless_before(lines: Seq<Seq<char>>, pat: Seq<char>, i: int) -> Seq<
    Seq<char>,
> {
    if dropped_before(lines, pat, i) {
        Seq::<Seq<char>>::empty()
    } else {
        seq![lines[i]]
    }
}

proof fn lemma_remove_after_from_per_index(lines: Seq<Seq<char>>, pat: Seq<char>, i: int)
    requires
        0 <= i <= lines.len(),
    ensures
        remove_after_from(lines, pat, i) == Seq::new(
            (lines.len() - i) as nat,
            (|k: int| keep_unless_after(lines, pat, i + k)),
        ).flatten(),
    decreases lines.len() - i,
{
    let m = Seq::new((lines.len() - i) as nat, (|k: int| keep_unless_after(lines, pat, i + k)));
    if i == lines.len() {
        assert(m =~~= Seq::<Seq<Seq<char>>>::empty());
        assert(remove_after_from(lines, pat, i) =~~= m.flatten());
    } else {
        lemma_remove_after_from_per_index(lines, pat, i + 1);
        assert(m.len() >= 1);
        assert(m.first() == keep_unless_after(lines, pat, i));
        assert(m.drop_first() =~~= Seq::new(
            (lines.len() - i - 1) as nat,
            (|k: int| keep_unless_after(lines, pat, i + 1 + k)),
        ));
        assert(m.flatten() == m.first() + m.drop_first().flatten());
        assert(remove_after_from(lines, pat, i) =~~= m.flatten());
    }
}

/// Each line the remove-after edit keeps or drops is decided alone, by
/// whether a match stands right before it; the kept lines stand in their
/// original order.
pub proof fn lemma_remove_after_each_line(lines: Seq<Seq<char>>, pat: Seq<char>)
    ensures
        remove_after_kept(lines, pat) == Seq::new(
            lines.len(),
            (|i: int| keep_unless_after(lines, pat, i)),
        ).flatten(),
{
    lemma_remove_after_from_per_index(lines, pat, 0);
    assert(Seq::new(lines.len(), (|i: int| keep_unless_after(lines, pat, i))) =~~= Seq::new(
        (lines.len() - 0) as nat,
        (|k: int| keep_unless_after(lines, pat, 0 + k)),
    ));
}

proof fn lemma_remove_before_from_per_index(lines: Seq<Seq<char>>, pat: Seq<char>, i: int)
    requires
        0 <= i <= lines.len(),
    ensures
        remove_before_from(lines, pat, i) == Seq::new(
            (lines.len() - i) as nat,
            (|k: int| keep_unless_before(lines, pat, i + k)),
        ).flatten(),
    decreases lines.len() - i,
{
    let m = Seq::new((lines.len() - i) as nat, (|k: int| keep_unless_before(lines, pat, i + k)));
    if i == lines.len() {
        assert(m =~~= Seq::<Seq<Seq<char>>>::empty());
        assert(remove_before_from(lines, pat, i) =~~= m.flatten());
    } else {
        lemma_remove_before_from_per_index(lines, pat, i + 1);
        assert(m.len() >= 1);
        assert(m.first() == keep_unless_before(lines, pat, i));
        assert(m.drop_first() =~~= Seq::new(
            (lines.len() - i - 1) as nat,
            (|k: int| keep_unless_before(lines, pat, i + 1 + k)),
        ));
        assert(m.flatten() == m.first() + m.drop_first().flatten());
        assert(remove_before_from(lines, pat, i) =~~= m.flatten());
    }
}

/// Each line the remove-before edit keeps or drops is decided alone, by
/// whether a match stands right after it; the kept lines stand in their
/// original order.
pub proof fn lemma_remove_before_each_line(lines: Seq<Seq<char>>, pat: Seq<char>)
    ensures
        remove_before_spec(lines, pat) == Seq::new(
            lines.len(),
            (|i: int| keep_unless_before(lines, pat, i)),
        ).flatten(),
{
    lemma_remove_before_from_per_index(lines, pat, 0);
    assert(Seq::new(lines.len(), (|i: int| keep_unless_before(lines, pat, i))) =~~= Seq::new(
        (lines.len() - 0) as nat,
        (|k: int| keep_unless_before(lines, pat, 0 + k)),
    ));
}

proof fn lemma_removed_after_count_shift(lines: Seq<Seq<char>>, pat: Seq<char>, i: int)
    requires
        lines.len() >= 1,
        1 <= i <= lines.len(),
    ensures
        removed_after_count_from(lines, pat, i) == count_matches_from(
            lines.drop_last(),
            pat,
            i - 1,
        ),
    decreases lines.len() - i,
{
    let t = lines.drop_last();
    if i == lines.len() {
        assert(count_matches_from(t, pat, i - 1) == 0);
    } else {
        lemma_removed_after_count_shift(lines, pat, i + 1);
        assert(t[i - 1] == lines[i - 1]);
    }
}

/// Each match, except one on the final line, deletes exactly one line:
/// the deletion count of the remove-after edit is the number of matches
/// among all lines but the last.
pub proof fn lemma_removed_after_count_is_matches(lines: Seq<Seq<char>>, pat: Seq<char>)
    requires
        lines.len() >= 1,
    ensures
        removed_after_count(lines, pat) == count_matches(lines.drop_last(), pat),
{
    lemma_removed_after_count_shift(lines, pat, 1);
    assert(!dropped_after(lines, pat, 0));
}

proof fn lemma_removed_before_count_shift(lines: Seq<Seq<char>>, pat: Seq<char>, i: int)
    requires
        lines.len() >= 1,
        0 <= i <= lines.len(),
    ensures
        removed_before_count_from(lines, pat, i) == count_matches_from(
            lines.drop_first(),
            pat,
            i,
        ),
    decreases lines.len() - i,
{
    let d = lines.drop_first();
    if i == lines.len() {
        assert(count_matches_from(d, pat, i) == 0);
    } else if i == lines.len() - 1 {
        assert(!dropped_before(lines, pat, i));
        assert(removed_before_count_from(lines, pat, lines.len() as int) == 0);
        assert(count_matches_from(d, pat, i) == 0);
    } else {
        lemma_removed_before_count_shift(lines, pat, i + 1);
        assert(d[i] == lines[i + 1]);
    }
}

/// Each match, except one on the first line, deletes exactly one line:
/// the deletion count of the remove-before edit is the number of matches
/// among all lines but the first.
pub proof fn lemma_removed_before_count_is_matches(lines: Seq<Seq<char>>, pat: Seq<char>)
    requires
        lines.len() >= 1,
    ensures
        removed_before_count(lines, pat) == count_matches(lines.drop_first(), pat),
{
    lemma_removed_before_count_shift(lines, pat, 0);
}

proof fn lemma_remove_after_from_no_drop(lines: Seq<Seq<char>>, pat: Seq<char>, i: int)
    requires
        0 <= i <= lines.len(),
        forall|j: int| 0 <= j < lines.len() - 1 ==> !regex_accepts(pat, #[trigger] lines[j]),
    ensures
        remove_after_from(lines, pat, i) == lines.skip(i),
    decreases lines.len() - i,
{
    if i == lines.len() {
        assert(remove_after_from(lines, pat, i) =~~= lines.skip(i));
    } else {
        lemma_remove_after_from_no_drop(lines, pat, i + 1);
        assert(!dropped_after(lines, pat, i));
        assert(lines.skip(i) =~~= seq![lines[i]] + lines.skip(i + 1));
        assert(remove_after_from(lines, pat, i) =~~= lines.skip(i));
    }
}

/// A match on the final line alone is a guaranteed no-op for the
/// remove-after edit: there is no following line to delete.
pub proof fn lemma_remove_after_final_line_noop(lines: Seq<Seq<char>>, pat: Seq<char>)
    requires
        lines.len() >= 1,
        forall|j: int| 0 <= j < lines.len() - 1 ==> !regex_accepts(pat, #[trigger] lines[j]),
    ensures
        remove_after_spec(lines, pat) == lines,
        removed_after_count(lines, pat) == 0,
{
    lemma_remove_after_from_no_drop(lines, pat, 0);
    assert(lines.skip(0) =~~= lines);
    assert(!dropped_after(lines, pat, lines.len() - 1));
    assert(remove_after_spec(lines, pat) == remove_after_kept(lines, pat));
    lemma_removed_after_count_is_matches(lines, pat);
    lemma_count_matches_none(lines.drop_last(), pat);
}

proof fn lemma_count_matches_none_from(lines: Seq<Seq<char>>, pat: Seq<char>, i: int)
    requires
        0 <= i <= lines.len(),
        forall|j: int| 0 <= j < lines.len() ==> !regex_accepts(pat, #[trigger] lines[j]),
    ensures
        count_matches_from(lines, pat, i) == 0,
    decreases lines.len() - i,
{
    if i < lines.len() {
        lemma_count_matches_none_from(lines, pat, i + 1);
    }
}

/// A pattern that matches no line counts no match.
pub proof fn lemma_count_matches_none(lines: Seq<Seq<char>>, pat: Seq<char>)
    requires
        forall|j: int| 0 <= j < lines.len() ==> !regex_accepts(pat, #[trigger] lines[j]),
    ensures
        count_matches(lines, pat) == 0,
{
    lemma_count_matches_none_from(lines, pat, 0);
}

proof fn lemma_remove_before_from_no_drop(lines: Seq<Seq<char>>, pat: Seq<char>, i: int)
    requires
        0 <= i <= lines.len(),
        forall|j: int| 1 <= j < lines.len() ==> !regex_accepts(pat, #[trigger] lines[j]),
    ensures
        remove_before_from(lines, pat, i) == lines.skip(i),
    decreases lines.len() - i,
{
    if i == lines.len() {
        assert(remove_before_from(lines, pat, i) =~~= lines.skip(i));
    } else {
        lemma_remove_before_from_no_drop(lines, pat, i + 1);
        assert(!dropped_before(lines, pat, i));
        assert(lines.skip(i) =~~= seq![lines[i]] + lines.skip(i + 1));
        assert(remove_before_from(lines, pat, i) =~~= lines.skip(i));
    }
}

/// A match on the first line alone is a guaranteed no-op for the
/// remove-before edit: there is no preceding line to delete.
pub proof fn lemma_remove_before_first_line_noop(lines: Seq<Seq<char>>, pat: Seq<char>)
    requires
        lines.len() >= 1,
        forall|j: int| 1 <= j < lines.len() ==> !regex_accepts(pat, #[trigger] lines[j]),
    ensures
        remove_before_spec(lines, pat) == lines,
        removed_before_count(lines, pat) == 0,
{
    lemma_remove_before_from_no_drop(lines, pat, 0);
    assert(lines.skip(0) =~~= lines);
    lemma_removed_before_count_is_matches(lines, pat);
    assert(forall|j: int|
        0 <= j < lines.drop_first().len() ==> !regex_accepts(
            pat,
            #[trigger] lines.drop_first()[j],
        ));
    lemma_count_matches_none(lines.drop_first(), pat);
}

} // verus!
