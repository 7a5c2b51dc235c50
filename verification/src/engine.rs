//! The single-pass engine: executable handlers over a file's lines.
//!
//! Each handler walks the lines once, building the edited lines, the
//! dry-run preview and the count of affected positions, and is proved to
//! produce exactly what the corresponding spec function in `ops` says.
use vstd::prelude::*;

use crate::ops::{
    add_after_from, add_after_preview, add_after_preview_from, add_after_spec, add_before_from,
    add_before_preview, add_before_preview_from, add_before_spec, count_matches,
    count_matches_from, dropped_after, dropped_before, insert_at_preview, insert_at_spec,
    line_hits, overwrite_at_preview, overwrite_at_spec, overwrite_pattern_from,
    overwrite_pattern_preview, overwrite_pattern_preview_from, overwrite_pattern_spec,
    remove_after_from, remove_after_kept, remove_after_preview, remove_after_preview_from,
    remove_after_spec, remove_at_preview, remove_at_spec, remove_before_from,
    remove_before_preview, remove_before_preview_from, remove_before_spec, remove_matching_from,
    remove_matching_kept, remove_matching_preview, remove_matching_preview_from,
    remove_matching_spec,
    removed_after_count, removed_after_count_from, removed_before_count,
    removed_before_count_from, PreviewV,
};
use crate::pattern::{line_matches, regex_pattern};

verus! {

/// One dry-run preview line. `added` is true for a line the edit puts in
/// place and false for one it takes out of place; `line` is the resulting
/// 1-indexed number for added lines and the original one for removed
/// lines.
pub struct PreviewEntry {
    pub line: usize,
    pub added: bool,
    pub text: String,
}

impl DeepView for PreviewEntry {
    type V = PreviewV;

    open spec fn deep_view(&self) -> PreviewV {
        (self.line as nat, self.added, self.text@)
    }
}

/// What one pass over the lines produced: the edited lines, the dry-run
/// preview, and how many positions the locator affected (zero means the
/// "nothing matched" warning is due).
pub struct EditResult {
    pub lines: Vec<String>,
    pub preview: Vec<PreviewEntry>,
    pub matched: usize,
}

/// Inserts `entry` immediately after every line the pattern matches.
pub fn add_after_lines(lines: &Vec<String>, re: &regex::Regex, entry: &str) -> (r: EditResult)
    requires
        lines@.len() <= usize::MAX / 2,
    ensures
        r.lines.deep_view() == add_after_spec(lines.deep_view(), regex_pattern(*re), entry@),
        r.preview.deep_view() == add_after_preview(lines.deep_view(), regex_pattern(*re), entry@),
        r.matched == count_matches(lines.deep_view(), regex_pattern(*re)),
{
    let ghost dv = lines.deep_view();
    let ghost pat = regex_pattern(*re);
    let n = lines.len();
    let mut out: Vec<String> = Vec::new();
    let mut pv: Vec<PreviewEntry> = Vec::new();
    let mut found: usize = 0;
    let mut i: usize = 0;
    proof {
        assert(out.deep_view() + add_after_from(dv, pat, entry@, 0) =~~= add_after_from(
            dv,
            pat,
            entry@,
            0,
        ));
        assert(pv.deep_view() + add_after_preview_from(dv, pat, entry@, 0, 0)
            =~~= add_after_preview_from(dv, pat, entry@, 0, 0));
    }
    while i < n
        invariant
            n == lines@.len(),
            dv == lines.deep_view(),
            pat == regex_pattern(*re),
            n <= usize::MAX / 2,
            i <= n,
            found <= i,
            found + count_matches_from(dv, pat, i as int) == count_matches(dv, pat),
            out.deep_view() + add_after_from(dv, pat, entry@, i as int) == add_after_spec(
                dv,
                pat,
                entry@,
            ),
            pv.deep_view() + add_after_preview_from(dv, pat, entry@, i as int, found as int)
                == add_after_preview(dv, pat, entry@),
        decreases n - i,
    {
        let m = line_matches(re, &lines[i]);
        proof {
            assert(dv[i as int] == lines@[i as int]@);
        }
        let ghost old_out = out.deep_view();
        let ghost old_pv = pv.deep_view();
        if m {
            out.push(lines[i].clone());
            out.push(entry.to_owned());
            found = found + 1;
            pv.push(
                PreviewEntry { line: i + 1 + found, added: true, text: entry.to_owned() },
            );
            proof {
                assert(out.deep_view() =~~= old_out + seq![dv[i as int], entry@]);
                assert(add_after_from(dv, pat, entry@, i as int) == seq![dv[i as int], entry@]
                    + add_after_from(dv, pat, entry@, i + 1));
                assert(out.deep_view() + add_after_from(dv, pat, entry@, i + 1) =~~= old_out
                    + add_after_from(dv, pat, entry@, i as int));
                assert(pv.deep_view() =~~= old_pv + seq![
                    (((i + 1 + found) as usize) as nat, true, entry@),
                ]);
                assert(add_after_preview_from(dv, pat, entry@, i as int, (found - 1) as int)
                    == seq![((i + 1 + found) as nat, true, entry@)] + add_after_preview_from(
                    dv,
                    pat,
                    entry@,
                    i + 1,
                    found as int,
                ));
                assert(pv.deep_view() + add_after_preview_from(dv, pat, entry@, i + 1, found as int)
                    =~~= old_pv + add_after_preview_from(
                    dv,
                    pat,
                    entry@,
                    i as int,
                    (found - 1) as int,
                ));
            }
        } else {
            out.push(lines[i].clone());
            proof {
                assert(out.deep_view() =~~= old_out + seq![dv[i as int]]);
                assert(add_after_from(dv, pat, entry@, i as int) == seq![dv[i as int]]
                    + add_after_from(dv, pat, entry@, i + 1));
                assert(out.deep_view() + add_after_from(dv, pat, entry@, i + 1) =~~= old_out
                    + add_after_from(dv, pat, entry@, i as int));
            }
        }
        i += 1;
    }
    proof {
        assert(out.deep_view() =~~= out.deep_view() + add_after_from(dv, pat, entry@, n as int));
        assert(pv.deep_view() =~~= pv.deep_view() + add_after_preview_from(
            dv,
            pat,
            entry@,
            n as int,
            found as int,
        ));
    }
    EditResult { lines: out, preview: pv, matched: found }
}

/// Inserts `entry` immediately before every line the pattern matches.
pub fn add_before_lines(lines: &Vec<String>, re: &regex::Regex, entry: &str) -> (r: EditResult)
    requires
        lines@.len() <= usize::MAX / 2,
    ensures
        r.lines.deep_view() == add_before_spec(lines.deep_view(), regex_pattern(*re), entry@),
        r.preview.deep_view() == add_before_preview(lines.deep_view(), regex_pattern(*re), entry@),
        r.matched == count_matches(lines.deep_view(), regex_pattern(*re)),
{
    let ghost dv = lines.deep_view();
    let ghost pat = regex_pattern(*re);
    let n = lines.len();
    let mut out: Vec<String> = Vec::new();
    let mut pv: Vec<PreviewEntry> = Vec::new();
    let mut found: usize = 0;
    let mut i: usize = 0;
    proof {
        assert(out.deep_view() + add_before_from(dv, pat, entry@, 0) =~~= add_before_from(
            dv,
            pat,
            entry@,
            0,
        ));
        assert(pv.deep_view() + add_before_preview_from(dv, pat, entry@, 0, 0)
            =~~= add_before_preview_from(dv, pat, entry@, 0, 0));
    }
    while i < n
        invariant
            n == lines@.len(),
            dv == lines.deep_view(),
            pat == regex_pattern(*re),
            n <= usize::MAX / 2,
            i <= n,
            found <= i,
            found + count_matches_from(dv, pat, i as int) == count_matches(dv, pat),
            out.deep_view() + add_before_from(dv, pat, entry@, i as int) == add_before_spec(
                dv,
                pat,
                entry@,
            ),
            pv.deep_view() + add_before_preview_from(dv, pat, entry@, i as int, found as int)
                == add_before_preview(dv, pat, entry@),
        decreases n - i,
    {
        let m = line_matches(re, &lines[i]);
        proof {
            assert(dv[i as int] == lines@[i as int]@);
        }
        let ghost old_out = out.deep_view();
        let ghost old_pv = pv.deep_view();
        if m {
            out.push(entry.to_owned());
            out.push(lines[i].clone());
            found = found + 1;
            pv.push(PreviewEntry { line: i + found, added: true, text: entry.to_owned() });
            proof {
                assert(out.deep_view() =~~= old_out + seq![entry@, dv[i as int]]);
                assert(add_before_from(dv, pat, entry@, i as int) == seq![entry@, dv[i as int]]
                    + add_before_from(dv, pat, entry@, i + 1));
                assert(out.deep_view() + add_before_from(dv, pat, entry@, i + 1) =~~= old_out
                    + add_before_from(dv, pat, entry@, i as int));
                assert(pv.deep_view() =~~= old_pv + seq![
                    (((i + found) as usize) as nat, true, entry@),
                ]);
                assert(add_before_preview_from(dv, pat, entry@, i as int, (found - 1) as int)
                    == seq![((i + found) as nat, true, entry@)] + add_before_preview_from(
                    dv,
                    pat,
                    entry@,
                    i + 1,
                    found as int,
                ));
                assert(pv.deep_view() + add_before_preview_from(
                    dv,
                    pat,
                    entry@,
                    i + 1,
                    found as int,
                ) =~~= old_pv + add_before_preview_from(
                    dv,
                    pat,
                    entry@,
                    i as int,
                    (found - 1) as int,
                ));
            }
        } else {
            out.push(lines[i].clone());
            proof {
                assert(out.deep_view() =~~= old_out + seq![dv[i as int]]);
                assert(add_before_from(dv, pat, entry@, i as int) == seq![dv[i as int]]
                    + add_before_from(dv, pat, entry@, i + 1));
                assert(out.deep_view() + add_before_from(dv, pat, entry@, i + 1) =~~= old_out
                    + add_before_from(dv, pat, entry@, i as int));
            }
        }
        i += 1;
    }
    proof {
        assert(out.deep_view() =~~= out.deep_view() + add_before_from(dv, pat, entry@, n as int));
        assert(pv.deep_view() =~~= pv.deep_view() + add_before_preview_from(
            dv,
            pat,
            entry@,
            n as int,
            found as int,
        ));
    }
    EditResult { lines: out, preview: pv, matched: found }
}

/// Replaces every line the pattern matches by `entry`.
pub fn overwrite_pattern_lines(lines: &Vec<String>, re: &regex::Regex, entry: &str) -> (r:
    EditResult)
    ensures
        r.lines.deep_view() == overwrite_pattern_spec(
            lines.deep_view(),
            regex_pattern(*re),
            entry@,
        ),
        r.preview.deep_view() == overwrite_pattern_preview(
            lines.deep_view(),
            regex_pattern(*re),
            entry@,
        ),
        r.matched == count_matches(lines.deep_view(), regex_pattern(*re)),
{
    let ghost dv = lines.deep_view();
    let ghost pat = regex_pattern(*re);
    let n = lines.len();
    let mut out: Vec<String> = Vec::new();
    let mut pv: Vec<PreviewEntry> = Vec::new();
    let mut found: usize = 0;
    let mut i: usize = 0;
    proof {
        assert(out.deep_view() + overwrite_pattern_from(dv, pat, entry@, 0)
            =~~= overwrite_pattern_from(dv, pat, entry@, 0));
        assert(pv.deep_view() + overwrite_pattern_preview_from(dv, pat, entry@, 0)
            =~~= overwrite_pattern_preview_from(dv, pat, entry@, 0));
    }
    while i < n
        invariant
            n == lines@.len(),
            dv == lines.deep_view(),
            pat == regex_pattern(*re),
            i <= n,
            found <= i,
            found + count_matches_from(dv, pat, i as int) == count_matches(dv, pat),
            out.deep_view() + overwrite_pattern_from(dv, pat, entry@, i as int)
                == overwrite_pattern_spec(dv, pat, entry@),
            pv.deep_view() + overwrite_pattern_preview_from(dv, pat, entry@, i as int)
                == overwrite_pattern_preview(dv, pat, entry@),
        decreases n - i,
    {
        let m = line_matches(re, &lines[i]);
        proof {
            assert(dv[i as int] == lines@[i as int]@);
        }
        let ghost old_out = out.deep_view();
        let ghost old_pv = pv.deep_view();
        if m {
            out.push(entry.to_owned());
            found = found + 1;
            pv.push(PreviewEntry { line: i + 1, added: false, text: lines[i].clone() });
            pv.push(PreviewEntry { line: i + 1, added: true, text: entry.to_owned() });
            proof {
                assert(out.deep_view() =~~= old_out + seq![entry@]);
                assert(overwrite_pattern_from(dv, pat, entry@, i as int) == seq![entry@]
                    + overwrite_pattern_from(dv, pat, entry@, i + 1));
                assert(out.deep_view() + overwrite_pattern_from(dv, pat, entry@, i + 1)
                    =~~= old_out + overwrite_pattern_from(dv, pat, entry@, i as int));
                assert(pv.deep_view() =~~= old_pv + seq![
                    (((i + 1) as usize) as nat, false, dv[i as int]),
                    (((i + 1) as usize) as nat, true, entry@),
                ]);
                assert(overwrite_pattern_preview_from(dv, pat, entry@, i as int) == seq![
                    ((i + 1) as nat, false, dv[i as int]),
                    ((i + 1) as nat, true, entry@),
                ] + overwrite_pattern_preview_from(dv, pat, entry@, i + 1));
                assert(pv.deep_view() + overwrite_pattern_preview_from(dv, pat, entry@, i + 1)
                    =~~= old_pv + overwrite_pattern_preview_from(dv, pat, entry@, i as int));
            }
        } else {
            out.push(lines[i].clone());
            proof {
                assert(out.deep_view() =~~= old_out + seq![dv[i as int]]);
                assert(overwrite_pattern_from(dv, pat, entry@, i as int) == seq![dv[i as int]]
                    + overwrite_pattern_from(dv, pat, entry@, i + 1));
                assert(out.deep_view() + overwrite_pattern_from(dv, pat, entry@, i + 1)
                    =~~= old_out + overwrite_pattern_from(dv, pat, entry@, i as int));
            }
        }
        i += 1;
    }
    proof {
        assert(out.deep_view() =~~= out.deep_view() + overwrite_pattern_from(
            dv,
            pat,
            entry@,
            n as int,
        ));
        assert(pv.deep_view() =~~= pv.deep_view() + overwrite_pattern_preview_from(
            dv,
            pat,
            entry@,
            n as int,
        ));
    }
    EditResult { lines: out, preview: pv, matched: found }
}

/// Deletes every line the pattern matches.
pub fn remove_matching_lines(lines: &Vec<String>, re: &regex::Regex) -> (r: EditResult)
    ensures
        r.lines.deep_view() == remove_matching_spec(lines.deep_view(), regex_pattern(*re)),
        r.preview.deep_view() == remove_matching_preview(lines.deep_view(), regex_pattern(*re)),
        r.matched == count_matches(lines.deep_view(), regex_pattern(*re)),
{
    let ghost dv = lines.deep_view();
    let ghost pat = regex_pattern(*re);
    let n = lines.len();
    let mut out: Vec<String> = Vec::new();
    let mut pv: Vec<PreviewEntry> = Vec::new();
    let mut found: usize = 0;
    let mut i: usize = 0;
    proof {
        assert(out.deep_view() + remove_matching_from(dv, pat, 0) =~~= remove_matching_from(
            dv,
            pat,
            0,
        ));
        assert(pv.deep_view() + remove_matching_preview_from(dv, pat, 0)
            =~~= remove_matching_preview_from(dv, pat, 0));
    }
    while i < n
        invariant
            n == lines@.len(),
            dv == lines.deep_view(),
            pat == regex_pattern(*re),
            i <= n,
            found <= i,
            found + count_matches_from(dv, pat, i as int) == count_matches(dv, pat),
            out.deep_view() + remove_matching_from(dv, pat, i as int) == remove_matching_kept(
                dv,
                pat,
            ),
            pv.deep_view() + remove_matching_preview_from(dv, pat, i as int)
                == remove_matching_preview(dv, pat),
        decreases n - i,
    {
        let m = line_matches(re, &lines[i]);
        proof {
            assert(dv[i as int] == lines@[i as int]@);
        }
        let ghost old_out = out.deep_view();
        let ghost old_pv = pv.deep_view();
        if m {
            found = found + 1;
            pv.push(PreviewEntry { line: i + 1, added: false, text: lines[i].clone() });
            proof {
                assert(remove_matching_from(dv, pat, i as int) == remove_matching_from(
                    dv,
                    pat,
                    i + 1,
                ));
                assert(pv.deep_view() =~~= old_pv + seq![
                    (((i + 1) as usize) as nat, false, dv[i as int]),
                ]);
                assert(remove_matching_preview_from(dv, pat, i as int) == seq![
                    ((i + 1) as nat, false, dv[i as int]),
                ] + remove_matching_preview_from(dv, pat, i + 1));
                assert(pv.deep_view() + remove_matching_preview_from(dv, pat, i + 1) =~~= old_pv
                    + remove_matching_preview_from(dv, pat, i as int));
            }
        } else {
            out.push(lines[i].clone());
            proof {
                assert(out.deep_view() =~~= old_out + seq![dv[i as int]]);
                assert(remove_matching_from(dv, pat, i as int) == seq![dv[i as int]]
                    + remove_matching_from(dv, pat, i + 1));
                assert(out.deep_view() + remove_matching_from(dv, pat, i + 1) =~~= old_out
                    + remove_matching_from(dv, pat, i as int));
            }
        }
        i += 1;
    }
    proof {
        assert(out.deep_view() =~~= out.deep_view() + remove_matching_from(dv, pat, n as int));
        assert(pv.deep_view() =~~= pv.deep_view() + remove_matching_preview_from(
            dv,
            pat,
            n as int,
        ));
        assert(out.deep_view() == remove_matching_kept(dv, pat));
        assert(out@.len() == out.deep_view().len());
    }
    let needs_sep = if n > 0 && out.len() > 0 {
        proof {
            assert(dv[n - 1] == lines@[n - 1]@);
            assert(dv.last() == dv[n - 1]);
        }
        line_matches(re, &lines[n - 1])
    } else {
        false
    };
    if needs_sep {
        let ghost old_out = out.deep_view();
        out.push(String::new());
        proof {
            assert(out.deep_view() =~~= old_out.push(Seq::<char>::empty()));
        }
    }
    EditResult { lines: out, preview: pv, matched: found }
}

/// Deletes the line immediately after every line the pattern matches. A
/// match on the final line drops nothing; a dropped line is still checked
/// for a match of its own.
pub fn remove_after_lines(lines: &Vec<String>, re: &regex::Regex) -> (r: EditResult)
    ensures
        r.lines.deep_view() == remove_after_spec(lines.deep_view(), regex_pattern(*re)),
        r.preview.deep_view() == remove_after_preview(lines.deep_view(), regex_pattern(*re)),
        r.matched == removed_after_count(lines.deep_view(), regex_pattern(*re)),
{
    let ghost dv = lines.deep_view();
    let ghost pat = regex_pattern(*re);
    let n = lines.len();
    let mut out: Vec<String> = Vec::new();
    let mut pv: Vec<PreviewEntry> = Vec::new();
    let mut found: usize = 0;
    let mut prev_match = false;
    let mut i: usize = 0;
    proof {
        assert(out.deep_view() + remove_after_from(dv, pat, 0) =~~= remove_after_from(dv, pat, 0));
        assert(pv.deep_view() + remove_after_preview_from(dv, pat, 0)
            =~~= remove_after_preview_from(dv, pat, 0));
    }
    while i < n
        invariant
            n == lines@.len(),
            dv == lines.deep_view(),
            pat == regex_pattern(*re),
            i <= n,
            found <= i,
            prev_match == dropped_after(dv, pat, i as int),
            found + removed_after_count_from(dv, pat, i as int) == removed_after_count(dv, pat),
            out.deep_view() + remove_after_from(dv, pat, i as int) == remove_after_kept(dv, pat),
            pv.deep_view() + remove_after_preview_from(dv, pat, i as int) == remove_after_preview(
                dv,
                pat,
            ),
        decreases n - i,
    {
        proof {
            assert(dv[i as int] == lines@[i as int]@);
        }
        let ghost old_out = out.deep_view();
        let ghost old_pv = pv.deep_view();
        if prev_match {
            found = found + 1;
            pv.push(PreviewEntry { line: i + 1, added: false, text: lines[i].clone() });
            proof {
                assert(remove_after_from(dv, pat, i as int) == remove_after_from(dv, pat, i + 1));
                assert(pv.deep_view() =~~= old_pv + seq![
                    (((i + 1) as usize) as nat, false, dv[i as int]),
                ]);
                assert(remove_after_preview_from(dv, pat, i as int) == seq![
                    ((i + 1) as nat, false, dv[i as int]),
                ] + remove_after_preview_from(dv, pat, i + 1));
                assert(pv.deep_view() + remove_after_preview_from(dv, pat, i + 1) =~~= old_pv
                    + remove_after_preview_from(dv, pat, i as int));
            }
        } else {
            out.push(lines[i].clone());
            proof {
                assert(out.deep_view() =~~= old_out + seq![dv[i as int]]);
                assert(remove_after_from(dv, pat, i as int) == seq![dv[i as int]]
                    + remove_after_from(dv, pat, i + 1));
                assert(out.deep_view() + remove_after_from(dv, pat, i + 1) =~~= old_out
                    + remove_after_from(dv, pat, i as int));
            }
        }
        prev_match = line_matches(re, &lines[i]);
        i += 1;
    }
    proof {
        assert(out.deep_view() =~~= out.deep_view() + remove_after_from(dv, pat, n as int));
        assert(pv.deep_view() =~~= pv.deep_view() + remove_after_preview_from(dv, pat, n as int));
        assert(out.deep_view() == remove_after_kept(dv, pat));
    }
    let final_dropped = if n >= 2 {
        proof {
            assert(dv[n - 2] == lines@[n - 2]@);
        }
        line_matches(re, &lines[n - 2])
    } else {
        false
    };
    if final_dropped {
        let ghost old_out = out.deep_view();
        out.push(String::new());
        proof {
            assert(out.deep_view() =~~= old_out.push(Seq::<char>::empty()));
        }
    }
    EditResult { lines: out, preview: pv, matched: found }
}

/// Deletes the line immediately before every line the pattern matches. A
/// match on the first line drops nothing.
pub fn remove_before_lines(lines: &Vec<String>, re: &regex::Regex) -> (r: EditResult)
    ensures
        r.lines.deep_view() == remove_before_spec(lines.deep_view(), regex_pattern(*re)),
        r.preview.deep_view() == remove_before_preview(lines.deep_view(), regex_pattern(*re)),
        r.matched == removed_before_count(lines.deep_view(), regex_pattern(*re)),
{
    let ghost dv = lines.deep_view();
    let ghost pat = regex_pattern(*re);
    let n = lines.len();
    let mut out: Vec<String> = Vec::new();
    let mut pv: Vec<PreviewEntry> = Vec::new();
    let mut found: usize = 0;
    let mut i: usize = 0;
    proof {
        assert(out.deep_view() + remove_before_from(dv, pat, 0) =~~= remove_before_from(
            dv,
            pat,
            0,
        ));
        assert(pv.deep_view() + remove_before_preview_from(dv, pat, 0)
            =~~= remove_before_preview_from(dv, pat, 0));
    }
    while i < n
        invariant
            n == lines@.len(),
            dv == lines.deep_view(),
            pat == regex_pattern(*re),
            i <= n,
            found <= i,
            found + removed_before_count_from(dv, pat, i as int) == removed_before_count(dv, pat),
            out.deep_view() + remove_before_from(dv, pat, i as int) == remove_before_spec(
                dv,
                pat,
            ),
            pv.deep_view() + remove_before_preview_from(dv, pat, i as int)
                == remove_before_preview(dv, pat),
        decreases n - i,
    {
        let dropped = if i + 1 < n {
            line_matches(re, &lines[i + 1])
        } else {
            false
        };
        proof {
            assert(dv[i as int] == lines@[i as int]@);
            if i + 1 < n {
                assert(dv[i + 1] == lines@[i + 1]@);
            }
            assert(dropped == dropped_before(dv, pat, i as int));
        }
        let ghost old_out = out.deep_view();
        let ghost old_pv = pv.deep_view();
        if dropped {
            found = found + 1;
            pv.push(PreviewEntry { line: i + 1, added: false, text: lines[i].clone() });
            proof {
                assert(remove_before_from(dv, pat, i as int) == remove_before_from(
                    dv,
                    pat,
                    i + 1,
                ));
                assert(pv.deep_view() =~~= old_pv + seq![
                    (((i + 1) as usize) as nat, false, dv[i as int]),
                ]);
                assert(remove_before_preview_from(dv, pat, i as int) == seq![
                    ((i + 1) as nat, false, dv[i as int]),
                ] + remove_before_preview_from(dv, pat, i + 1));
                assert(pv.deep_view() + remove_before_preview_from(dv, pat, i + 1) =~~= old_pv
                    + remove_before_preview_from(dv, pat, i as int));
            }
        } else {
            out.push(lines[i].clone());
            proof {
                assert(out.deep_view() =~~= old_out + seq![dv[i as int]]);
                assert(remove_before_from(dv, pat, i as int) == seq![dv[i as int]]
                    + remove_before_from(dv, pat, i + 1));
                assert(out.deep_view() + remove_before_from(dv, pat, i + 1) =~~= old_out
                    + remove_before_from(dv, pat, i as int));
            }
        }
        i += 1;
    }
    proof {
        assert(out.deep_view() =~~= out.deep_view() + remove_before_from(dv, pat, n as int));
        assert(pv.deep_view() =~~= pv.deep_view() + remove_before_preview_from(dv, pat, n as int));
    }
    EditResult { lines: out, preview: pv, matched: found }
}

/// A copy of the lines, line for line.
fn clone_lines(lines: &Vec<String>) -> (r: Vec<String>)
    ensures
        r.deep_view() == lines.deep_view(),
        r@.len() == lines@.len(),
{
    let mut out: Vec<String> = Vec::new();
    let mut i: usize = 0;
    while i < lines.len()
        invariant
            i <= lines@.len(),
            out.deep_view() == lines.deep_view().take(i as int),
        decreases lines@.len() - i,
    {
        let ghost old_dv = out.deep_view();
        let line = lines[i].clone();
        proof {
            assert(line@ == lines.deep_view()[i as int]);
        }
        out.push(line);
        proof {
            assert(out.deep_view() =~~= old_dv.push(lines.deep_view()[i as int]));
            assert(out.deep_view() =~~= lines.deep_view().take(i + 1));
        }
        i += 1;
    }
    proof {
        assert(lines.deep_view().take(lines@.len() as int) =~~= lines.deep_view());
    }
    out
}

/// Inserts `entry` before the 1-indexed line `line_no`, shifting it and
/// all following lines down by one; with no line `line_no` the lines come
/// back unchanged.
pub fn add_at_lines(lines: &Vec<String>, line_no: usize, entry: &str) -> (r: EditResult)
    requires
        line_no >= 1,
        lines@.len() < usize::MAX,
    ensures
        r.lines.deep_view() == insert_at_spec(lines.deep_view(), line_no as int, entry@),
        r.preview.deep_view() == insert_at_preview(lines.deep_view(), line_no as int, entry@),
        r.matched == line_hits(lines.deep_view(), line_no as int),
{
    let ghost dv = lines.deep_view();
    let mut out = clone_lines(lines);
    let mut pv: Vec<PreviewEntry> = Vec::new();
    let mut matched: usize = 0;
    if line_no <= lines.len() {
        let ghost old_out = out@;
        out.insert(line_no - 1, entry.to_owned());
        pv.push(PreviewEntry { line: line_no, added: false, text: lines[line_no - 1].clone() });
        pv.push(PreviewEntry { line: line_no, added: true, text: entry.to_owned() });
        pv.push(
            PreviewEntry { line: line_no + 1, added: true, text: lines[line_no - 1].clone() },
        );
        matched = 1;
        proof {
            assert(dv[line_no - 1] == lines@[line_no - 1]@);
            assert(out.deep_view() =~~= dv.insert(line_no - 1, entry@));
            assert(pv.deep_view() =~~= insert_at_preview(dv, line_no as int, entry@));
        }
    } else {
        proof {
            assert(pv.deep_view() =~~= Seq::<PreviewV>::empty());
        }
    }
    EditResult { lines: out, preview: pv, matched }
}

/// Replaces the 1-indexed line `line_no` by `entry`; with no line
/// `line_no` the lines come back unchanged.
pub fn overwrite_at_lines(lines: &Vec<String>, line_no: usize, entry: &str) -> (r: EditResult)
    requires
        line_no >= 1,
    ensures
        r.lines.deep_view() == overwrite_at_spec(lines.deep_view(), line_no as int, entry@),
        r.preview.deep_view() == overwrite_at_preview(lines.deep_view(), line_no as int, entry@),
        r.matched == line_hits(lines.deep_view(), line_no as int),
{
    let ghost dv = lines.deep_view();
    let mut out = clone_lines(lines);
    let mut pv: Vec<PreviewEntry> = Vec::new();
    let mut matched: usize = 0;
    if line_no <= lines.len() {
        out.remove(line_no - 1);
        out.insert(line_no - 1, entry.to_owned());
        pv.push(PreviewEntry { line: line_no, added: false, text: lines[line_no - 1].clone() });
        pv.push(PreviewEntry { line: line_no, added: true, text: entry.to_owned() });
        matched = 1;
        proof {
            assert(dv[line_no - 1] == lines@[line_no - 1]@);
            assert(out.deep_view() =~~= dv.update(line_no - 1, entry@));
            assert(pv.deep_view() =~~= overwrite_at_preview(dv, line_no as int, entry@));
        }
    } else {
        proof {
            assert(pv.deep_view() =~~= Seq::<PreviewV>::empty());
        }
    }
    EditResult { lines: out, preview: pv, matched }
}

/// Deletes the 1-indexed line `line_no`; with no line `line_no` the lines
/// come back unchanged.
pub fn remove_at_lines(lines: &Vec<String>, line_no: usize) -> (r: EditResult)
    requires
        line_no >= 1,
    ensures
        r.lines.deep_view() == remove_at_spec(lines.deep_view(), line_no as int),
        r.preview.deep_view() == remove_at_preview(lines.deep_view(), line_no as int),
        r.matched == line_hits(lines.deep_view(), line_no as int),
{
    let ghost dv = lines.deep_view();
    let mut out = clone_lines(lines);
    let mut pv: Vec<PreviewEntry> = Vec::new();
    let mut matched: usize = 0;
    if line_no <= lines.len() {
        out.remove(line_no - 1);
        if line_no == lines.len() && out.len() > 0 {
            let ghost old_out = out.deep_view();
            out.push(String::new());
            proof {
                assert(old_out =~~= dv.remove(line_no - 1));
                assert(out.deep_view() =~~= dv.remove(line_no - 1).push(Seq::<char>::empty()));
            }
        } else {
            proof {
                assert(out.deep_view() =~~= dv.remove(line_no - 1));
            }
        }
        pv.push(PreviewEntry { line: line_no, added: false, text: lines[line_no - 1].clone() });
        matched = 1;
        proof {
            assert(dv[line_no - 1] == lines@[line_no - 1]@);
            assert(pv.deep_view() =~~= remove_at_preview(dv, line_no as int));
        }
    } else {
        proof {
            assert(pv.deep_view() =~~= Seq::<PreviewV>::empty());
        }
    }
    EditResult { lines: out, preview: pv, matched }
}

} // verus!
