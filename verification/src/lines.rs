//! Cutting the raw text of the input file into items, one per line.
//!
//! A line ends at a line feed; a carriage return immediately before the
//! line feed belongs to the terminator, not to the line.  Text after the
//! last line feed forms a final line only if it is nonempty, so a file
//! that ends with a newline yields the same items as one that does not.
//! Blank lines are kept as empty items.

use vstd::prelude::*;
use vstd::string::StrSliceExecFns;

verus! {

/// `line` with a single trailing carriage return removed, if present.
pub open spec fn strip_cr(line: Seq<char>) -> Seq<char> {
    if line.len() > 0 && line.last() == '\r' {
        line.drop_last()
    } else {
        line
    }
}

/// The index of the first line feed in `s`, or `s.len()` if there is none.
pub open spec fn first_newline(s: Seq<char>) -> int
    decreases s.len(),
{
    if s.len() == 0 {
        0
    } else if s[0] == '\n' {
        0
    } else {
        1 + first_newline(s.drop_first())
    }
}

/// The lines of `s`: the text is split at each line feed, a carriage
/// return directly before a line feed is stripped, and a final unmarked
/// fragment counts as a line only when the text is nonempty.
pub open spec fn spec_lines(s: Seq<char>) -> Seq<Seq<char>>
    decreases s.len(),
{
    if s.len() == 0 {
        Seq::empty()
    } else {
        let i = first_newline(s);
        if 0 <= i < s.len() {
            seq![strip_cr(s.subrange(0, i))] + spec_lines(s.subrange(i + 1, s.len() as int))
        } else {
            seq![s]
        }
    }
}

/// A scan that saw no line feed before `j`, and one at `j` unless it ran
/// off the end, has found `first_newline`.
proof fn lemma_first_newline_at(s: Seq<char>, j: int)
    requires
        0 <= j <= s.len(),
        forall|k: int| 0 <= k < j ==> s[k] != '\n',
        j < s.len() ==> s[j] == '\n',
    ensures
        first_newline(s) == j,
    decreases j,
{
    if j == 0 {
        if s.len() > 0 {
            assert(s[0] == '\n');
        }
    } else {
        assert(s[0] != '\n');
        assert forall|k: int| 0 <= k < j - 1 implies s.drop_first()[k] != '\n' by {
            assert(s.drop_first()[k] == s[k + 1]);
        }
        assert(j - 1 < s.drop_first().len() ==> s.drop_first()[j - 1] == '\n');
        lemma_first_newline_at(s.drop_first(), j - 1);
    }
}

/// Split the raw file contents into one item per line.
///
/// The result is exactly `spec_lines` of the input: split at line feeds,
/// carriage returns before a line feed stripped, a trailing newline
/// producing no extra empty item.
pub fn split_lines(contents: &str) -> (lines: Vec<String>)
    ensures
        lines.deep_view() == spec_lines(contents@),
{
    let n = contents.unicode_len();
    let mut lines: Vec<String> = Vec::new();
    let mut pos: usize = 0;
    proof {
        assert(contents@.subrange(0, n as int) =~= contents@);
    }
    while pos < n
        invariant
            pos <= n,
            n == contents@.len(),
            spec_lines(contents@) == lines.deep_view() + spec_lines(
                contents@.subrange(pos as int, n as int),
            ),
        decreases n - pos,
    {
        let ghost suffix = contents@.subrange(pos as int, n as int);
        let ghost prev = lines.deep_view();
        let mut j: usize = pos;
        while j < n && contents.get_char(j) != '\n'
            invariant
                pos <= j <= n,
                n == contents@.len(),
                forall|k: int| pos <= k < j ==> contents@[k] != '\n',
            decreases n - j,
        {
            j = j + 1;
        }
        proof {
            assert forall|k: int| 0 <= k < j - pos implies suffix[k] != '\n' by {
                assert(suffix[k] == contents@[pos + k]);
            }
            lemma_first_newline_at(suffix, j - pos);
        }
        if j == n {
            let line = contents.substring_char(pos, n);
            lines.push(line.to_owned());
            proof {
                assert(suffix =~= contents@.subrange(pos as int, n as int));
                assert(line@ =~= suffix);
                assert(spec_lines(suffix) == seq![suffix]);
                assert(lines.deep_view() =~~= prev.push(suffix));
                assert(contents@.subrange(n as int, n as int).len() == 0);
                assert(lines.deep_view() + spec_lines(contents@.subrange(n as int, n as int))
                    =~~= prev + spec_lines(suffix));
            }
            pos = n;
        } else {
            let end = if j > pos && contents.get_char(j - 1) == '\r' {
                j - 1
            } else {
                j
            };
            let line = contents.substring_char(pos, end);
            lines.push(line.to_owned());
            proof {
                let i = j - pos;
                assert(suffix.subrange(0, i) =~= contents@.subrange(pos as int, j as int));
                if j > pos && contents@[j - 1] == '\r' {
                    assert(contents@.subrange(pos as int, j as int).last() == '\r');
                    assert(strip_cr(suffix.subrange(0, i)) =~= contents@.subrange(
                        pos as int,
                        j - 1,
                    ));
                } else {
                    if i > 0 {
                        assert(suffix.subrange(0, i).last() == contents@[j - 1]);
                    }
                    assert(strip_cr(suffix.subrange(0, i)) =~= contents@.subrange(
                        pos as int,
                        j as int,
                    ));
                }
                assert(strip_cr(suffix.subrange(0, i)) == line@);
                assert(suffix.subrange(i + 1, suffix.len() as int) =~= contents@.subrange(
                    j + 1,
                    n as int,
                ));
                assert(spec_lines(suffix) == seq![line@] + spec_lines(
                    contents@.subrange(j + 1, n as int),
                ));
                assert(lines.deep_view() =~~= prev.push(line@));
                assert(lines.deep_view() + spec_lines(contents@.subrange(j + 1, n as int))
                    =~~= prev + spec_lines(suffix));
            }
            pos = j + 1;
        }
    }
    proof {
        assert(contents@.subrange(n as int, n as int).len() == 0);
        assert(lines.deep_view() + spec_lines(contents@.subrange(pos as int, n as int))
            =~~= lines.deep_view());
    }
    lines
}

} // verus!
