//! The line-stream model: a file's contents are its lines, split on `'\n'`.
//!
//! `split_lines_spec` and `join_lines_spec` are the mathematical model;
//! `split_lines` and `join_lines` are the executable pair proved against it.
//! Joining the split of any contents restores the contents exactly, and
//! splitting the join of newline-free lines restores the lines: the engine
//! never fabricates or drops a separator.
use vstd::prelude::*;

verus! {

/// The lines of `s`: `s` split on `'\n'`, as `str::split` does it.
/// Empty contents give one empty line; a trailing `'\n'` gives a final
/// empty line.
pub open spec fn split_lines_spec(s: Seq<char>) -> Seq<Seq<char>>
    decreases s.len(),
{
    if s.len() == 0 {
        seq![Seq::<char>::empty()]
    } else if s[0] == '\n' {
        seq![Seq::<char>::empty()] + split_lines_spec(s.skip(1))
    } else {
        let rest = split_lines_spec(s.skip(1));
        seq![seq![s[0]] + rest[0]] + rest.skip(1)
    }
}

/// The contents that a sequence of lines denotes: the lines joined with a
/// single `'\n'` between neighbours and none after the last.
pub open spec fn join_lines_spec(lines: Seq<Seq<char>>) -> Seq<char>
    decreases lines.len(),
{
    if lines.len() == 0 {
        Seq::<char>::empty()
    } else if lines.len() == 1 {
        lines[0]
    } else {
        lines[0] + seq!['\n'] + join_lines_spec(lines.skip(1))
    }
}

/// Splitting never gives an empty sequence of lines, and at most one line
/// per character plus one.
pub proof fn lemma_split_lines_len(s: Seq<char>)
    ensures
        1 <= split_lines_spec(s).len() <= s.len() + 1,
    decreases s.len(),
{
    if s.len() == 0 {
    } else {
        lemma_split_lines_len(s.skip(1));
    }
}

/// No line produced by splitting contains a `'\n'`.
pub proof fn lemma_split_lines_no_newline(s: Seq<char>)
    ensures
        forall|i: int|
            0 <= i < split_lines_spec(s).len() ==> !(#[trigger] split_lines_spec(
                s,
            )[i]).contains('\n'),
    decreases s.len(),
{
    let r = split_lines_spec(s);
    if s.len() == 0 {
        assert forall|i: int| 0 <= i < r.len() implies !(#[trigger] r[i]).contains('\n') by {
            assert(forall|j: int| 0 <= j < r[i].len() ==> r[i][j] != '\n');
        }
    } else if s[0] == '\n' {
        lemma_split_lines_no_newline(s.skip(1));
        let rest = split_lines_spec(s.skip(1));
        assert forall|i: int| 0 <= i < r.len() implies !(#[trigger] r[i]).contains('\n') by {
            if i == 0 {
                assert(forall|j: int| 0 <= j < r[0].len() ==> r[0][j] != '\n');
            } else {
                assert(r[i] == rest[i - 1]);
            }
        }
    } else {
        lemma_split_lines_no_newline(s.skip(1));
        let rest = split_lines_spec(s.skip(1));
        lemma_split_lines_len(s.skip(1));
        assert forall|i: int| 0 <= i < r.len() implies !(#[trigger] r[i]).contains('\n') by {
            if i == 0 {
                assert(!rest[0].contains('\n'));
                assert(forall|j: int| 0 <= j < rest[0].len() ==> rest[0][j] != '\n');
                assert(r[0] == seq![s[0]] + rest[0]);
                assert(forall|j: int| 1 <= j < r[0].len() ==> r[0][j] == rest[0][j - 1]);
                assert(forall|j: int| 0 <= j < r[0].len() ==> r[0][j] != '\n');
            } else {
                assert(r[i] == rest[i]);
            }
        }
    }
}

/// Splitting contents whose first `'\n'` stands at position `k` gives the
/// first `k` characters as the first line, then the split of the remainder.
pub proof fn lemma_split_lines_at_newline(s: Seq<char>, k: int)
    requires
        0 <= k < s.len(),
        s[k] == '\n',
        forall|j: int| 0 <= j < k ==> s[j] != '\n',
    ensures
        split_lines_spec(s) == seq![s.take(k)] + split_lines_spec(s.skip(k + 1)),
    decreases k,
{
    if k == 0 {
        assert(split_lines_spec(s) =~~= seq![s.take(0)] + split_lines_spec(s.skip(1)));
    } else {
        lemma_split_lines_at_newline(s.skip(1), k - 1);
        let rest = split_lines_spec(s.skip(1));
        lemma_split_lines_len(s.skip(1));
        assert(s.skip(1).take(k - 1) =~= s.take(k).skip(1));
        assert(rest == seq![s.skip(1).take(k - 1)] + split_lines_spec(s.skip(1).skip(k)));
        assert(s.skip(1).skip(k) =~= s.skip(k + 1));
        assert(seq![s[0]] + rest[0] =~= s.take(k));
        assert(split_lines_spec(s) =~~= seq![s.take(k)] + split_lines_spec(s.skip(k + 1)));
    }
}

/// Splitting newline-free contents gives that one line.
pub proof fn lemma_split_lines_newline_free(s: Seq<char>)
    requires
        forall|j: int| 0 <= j < s.len() ==> s[j] != '\n',
    ensures
        split_lines_spec(s) == seq![s],
    decreases s.len(),
{
    if s.len() == 0 {
        assert(split_lines_spec(s) =~~= seq![s]);
    } else {
        lemma_split_lines_newline_free(s.skip(1));
        assert(seq![s[0]] + s.skip(1) =~= s);
        assert(split_lines_spec(s) =~~= seq![s]);
    }
}

/// Joining the split of any contents restores the contents exactly.
pub proof fn lemma_join_split(s: Seq<char>)
    ensures
        join_lines_spec(split_lines_spec(s)) == s,
    decreases s.len(),
{
    let r = split_lines_spec(s);
    if s.len() == 0 {
        assert(join_lines_spec(r) =~= s);
    } else if s[0] == '\n' {
        lemma_join_split(s.skip(1));
        let rest = split_lines_spec(s.skip(1));
        lemma_split_lines_len(s.skip(1));
        assert(r.len() >= 2);
        assert(r[0] =~= Seq::<char>::empty());
        assert(r.skip(1) =~~= rest);
        assert(join_lines_spec(r) =~= r[0] + seq!['\n'] + join_lines_spec(rest));
        assert(join_lines_spec(r) =~= s);
    } else {
        lemma_join_split(s.skip(1));
        let rest = split_lines_spec(s.skip(1));
        lemma_split_lines_len(s.skip(1));
        if rest.len() == 1 {
            assert(r =~~= seq![seq![s[0]] + rest[0]]);
            assert(join_lines_spec(r) == seq![s[0]] + rest[0]);
            assert(join_lines_spec(rest) == rest[0]);
            assert(join_lines_spec(r) =~= s);
        } else {
            assert(r.len() >= 2);
            assert(r[0] == seq![s[0]] + rest[0]);
            assert(r.skip(1) =~~= rest.skip(1));
            assert(join_lines_spec(r) == r[0] + seq!['\n'] + join_lines_spec(rest.skip(1)));
            assert(join_lines_spec(rest) == rest[0] + seq!['\n'] + join_lines_spec(rest.skip(1)));
            assert(join_lines_spec(r) =~= seq![s[0]] + join_lines_spec(rest));
            assert(s =~= seq![s[0]] + s.skip(1));
            assert(join_lines_spec(r) =~= s);
        }
    }
}

/// Splitting the join of newline-free lines restores the lines exactly.
pub proof fn lemma_split_join(lines: Seq<Seq<char>>)
    requires
        lines.len() > 0,
        forall|i: int| 0 <= i < lines.len() ==> !(#[trigger] lines[i]).contains('\n'),
    ensures
        split_lines_spec(join_lines_spec(lines)) == lines,
    decreases lines.len(),
{
    let j = join_lines_spec(lines);
    if lines.len() == 1 {
        assert(forall|p: int| 0 <= p < lines[0].len() ==> lines[0][p] != '\n');
        lemma_split_lines_newline_free(lines[0]);
        assert(split_lines_spec(j) =~~= lines);
    } else {
        lemma_split_join(lines.skip(1));
        let k = lines[0].len() as int;
        assert(j == lines[0] + seq!['\n'] + join_lines_spec(lines.skip(1)));
        assert(j[k] == '\n');
        assert(forall|p: int| 0 <= p < lines[0].len() ==> lines[0][p] != '\n');
        assert(forall|p: int| 0 <= p < k ==> j[p] != '\n');
        lemma_split_lines_at_newline(j, k);
        assert(j.take(k) =~= lines[0]);
        assert(j.skip(k + 1) =~= join_lines_spec(lines.skip(1)));
        assert(split_lines_spec(j) =~~= lines);
    }
}

/// Joining one more line appends a separator and the line.
pub proof fn lemma_join_lines_push(lines: Seq<Seq<char>>, x: Seq<char>)
    requires
        lines.len() > 0,
    ensures
        join_lines_spec(lines.push(x)) == join_lines_spec(lines) + seq!['\n'] + x,
    decreases lines.len(),
{
    if lines.len() == 1 {
        assert(lines.push(x).skip(1) =~~= seq![x]);
        assert(join_lines_spec(seq![x]) == seq![x][0]);
        assert(join_lines_spec(lines.push(x)) == lines.push(x)[0] + seq!['\n'] + join_lines_spec(
            lines.push(x).skip(1),
        ));
        assert(join_lines_spec(lines.push(x)) =~= lines[0] + seq!['\n'] + x);
    } else {
        lemma_join_lines_push(lines.skip(1), x);
        assert(lines.push(x).skip(1) =~~= lines.skip(1).push(x));
        assert(join_lines_spec(lines.push(x)) =~= join_lines_spec(lines) + seq!['\n'] + x);
    }
}

/// Splits `s` on `'\n'` into its lines.
pub fn split_lines(s: &str) -> (r: Vec<String>)
    ensures
        r.deep_view() == split_lines_spec(s@),
        r.len() >= 1,
{
    let n = s.unicode_len();
    let mut out: Vec<String> = Vec::new();
    let mut start: usize = 0;
    let mut i: usize = 0;
    proof {
        assert(out.deep_view() + split_lines_spec(s@.skip(0)) =~~= split_lines_spec(s@.skip(0)));
        assert(s@.skip(0) =~= s@);
    }
    while i < n
        invariant
            n == s@.len(),
            start <= i <= n,
            forall|j: int| start <= j < i ==> s@[j] != '\n',
            out.deep_view() + split_lines_spec(s@.skip(start as int)) == split_lines_spec(s@),
        decreases n - i,
    {
        let c = s.get_char(i);
        if c == '\n' {
            let line = s.substring_char(start, i).to_owned();
            proof {
                let t = s@.skip(start as int);
                assert(forall|j: int|
                    0 <= j < i - start ==> t[j] == s@[start + j] && t[j] != '\n');
                lemma_split_lines_at_newline(t, i - start);
                assert(t.take(i - start) =~= s@.subrange(start as int, i as int));
                assert(t.skip(i - start + 1) =~= s@.skip(i + 1));
                assert(out.deep_view().push(line@) + split_lines_spec(s@.skip(i + 1))
                    =~~= out.deep_view() + split_lines_spec(s@.skip(start as int)));
            }
            out.push(line);
            start = i + 1;
        }
        i += 1;
    }
    let last = s.substring_char(start, n).to_owned();
    proof {
        let t = s@.skip(start as int);
        assert(forall|j: int| 0 <= j < t.len() ==> t[j] == s@[start + j] && t[j] != '\n');
        lemma_split_lines_newline_free(t);
        assert(last@ =~= t);
        assert(out.deep_view().push(last@) =~~= out.deep_view() + split_lines_spec(
            s@.skip(start as int),
        ));
    }
    out.push(last);
    out
}

/// Joins lines with a single `'\n'` between neighbours and none at the end.
pub fn join_lines(lines: &Vec<String>) -> (r: String)
    ensures
        r@ == join_lines_spec(lines.deep_view()),
{
    let mut out = String::new();
    let mut i: usize = 0;
    while i < lines.len()
        invariant
            i <= lines.len(),
            out@ == join_lines_spec(lines.deep_view().take(i as int)),
        decreases lines.len() - i,
    {
        proof {
            let dv = lines.deep_view();
            if i > 0 {
                lemma_join_lines_push(dv.take(i as int), dv[i as int]);
            }
            assert(dv.take(i + 1) =~~= dv.take(i as int).push(dv[i as int]));
        }
        if i > 0 {
            out.append("\n");
            proof {
                reveal_strlit("\n");
                assert("\n"@ =~= seq!['\n']);
            }
        }
        out.append(lines[i].as_str());
        i += 1;
    }
    proof {
        assert(lines.deep_view().take(lines.len() as int) =~~= lines.deep_view());
    }
    out
}

} // verus!
