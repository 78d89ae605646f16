//! Deriving the output file path from the input file path.
//!
//! The output path is the input path with its file extension replaced by
//! the typesetting-source extension `.tex`; a path whose file name has no
//! extension gets it appended.  Path components are separated by `/`.

use vstd::prelude::*;
use vstd::string::StrSliceExecFns;
use vstd::string::StringExecFns;

verus! {

/// The extension of every output file.
pub const TEX_EXTENSION: &'static str = ".tex";

/// The index of the last occurrence of `c` in `s`, or `-1` if there is none.
pub open spec fn last_index(s: Seq<char>, c: char) -> int
    decreases s.len(),
{
    if s.len() == 0 {
        -1
    } else if s.last() == c {
        s.len() - 1
    } else {
        last_index(s.drop_last(), c)
    }
}

/// The output path for input path `p`: everything up to the extension dot
/// of the file name, then `.tex`.  A dot opening the file name (a hidden
/// file) or standing in an earlier component does not count as an
/// extension, so `.tex` is then appended to the whole path.
pub open spec fn spec_output_path(p: Seq<char>) -> Seq<char> {
    let dot = last_index(p, '.');
    let slash = last_index(p, '/');
    if dot > slash + 1 {
        p.subrange(0, dot) + TEX_EXTENSION@
    } else {
        p + TEX_EXTENSION@
    }
}

/// `last_index` stays in bounds, lands on `c`, and nothing after it is `c`.
pub proof fn lemma_last_index_props(s: Seq<char>, c: char)
    ensures
        -1 <= last_index(s, c) < s.len(),
        last_index(s, c) >= 0 ==> s[last_index(s, c)] == c,
        forall|k: int| last_index(s, c) < k < s.len() ==> s[k] != c,
    decreases s.len(),
{
    if s.len() == 0 {
    } else if s.last() == c {
    } else {
        lemma_last_index_props(s.drop_last(), c);
        assert forall|k: int| last_index(s, c) < k < s.len() implies s[k] != c by {
            if k < s.len() - 1 {
                assert(s.drop_last()[k] == s[k]);
            }
        }
        if last_index(s, c) >= 0 {
            assert(s[last_index(s, c)] == s.drop_last()[last_index(s.drop_last(), c)]);
        }
    }
}

/// A backward scan that saw `c` at `i` and nowhere later has found
/// `last_index`.
proof fn lemma_last_index_at(s: Seq<char>, c: char, i: int)
    requires
        0 <= i < s.len(),
        s[i] == c,
        forall|k: int| i < k < s.len() ==> s[k] != c,
    ensures
        last_index(s, c) == i,
    decreases s.len(),
{
    if i == s.len() - 1 {
    } else {
        assert(s.last() != c);
        assert(s.drop_last()[i] == s[i]);
        assert forall|k: int| i < k < s.drop_last().len() implies s.drop_last()[k] != c by {
            assert(s.drop_last()[k] == s[k]);
        }
        lemma_last_index_at(s.drop_last(), c, i);
    }
}

/// A backward scan that saw `c` nowhere has found none.
proof fn lemma_last_index_none(s: Seq<char>, c: char)
    requires
        forall|k: int| 0 <= k < s.len() ==> s[k] != c,
    ensures
        last_index(s, c) == -1,
    decreases s.len(),
{
    if s.len() > 0 {
        assert forall|k: int| 0 <= k < s.drop_last().len() implies s.drop_last()[k] != c by {
            assert(s.drop_last()[k] == s[k]);
        }
        lemma_last_index_none(s.drop_last(), c);
    }
}

/// The index of the last occurrence of `c` in `s`, or `None` if `c`
/// does not occur; `last_index` keeps the `-1` convention in specs.
fn last_occurrence(s: &str, c: char) -> (r: Option<usize>)
    ensures
        match r {
            Some(i) => (i as int) < s@.len() && last_index(s@, c) == i as int,
            None => last_index(s@, c) == -1,
        },
{
    let n = s.unicode_len();
    let mut k: usize = n;
    while k > 0
        invariant
            k <= n,
            n == s@.len(),
            forall|m: int| k <= m < n ==> s@[m] != c,
        decreases k,
    {
        k = k - 1;
        if s.get_char(k) == c {
            proof {
                lemma_last_index_at(s@, c, k as int);
            }
            return Some(k);
        }
    }
    proof {
        lemma_last_index_none(s@, c);
    }
    None
}

/// Derive the output path: the input path with its extension replaced by
/// `.tex`, or with `.tex` appended if its file name has none.
pub fn output_path(input: &str) -> (out: String)
    ensures
        out@ == spec_output_path(input@),
{
    let dot = last_occurrence(input, '.');
    let slash = last_occurrence(input, '/');
    let cut: Option<usize> = match (dot, slash) {
        (Some(d), Some(s)) => if d > s && d - s > 1 {
            Some(d)
        } else {
            None
        },
        (Some(d), None) => if d > 0 {
            Some(d)
        } else {
            None
        },
        (None, _) => None,
    };
    match cut {
        Some(d) => {
            let stem = input.substring_char(0, d);
            let mut out = stem.to_owned();
            out.append(TEX_EXTENSION);
            proof {
                assert(out@ =~= spec_output_path(input@));
            }
            out
        },
        None => {
            let mut out = input.to_owned();
            out.append(TEX_EXTENSION);
            proof {
                assert(out@ =~= spec_output_path(input@));
            }
            out
        },
    }
}

/// The derived output path always ends in the typesetting-source
/// extension `.tex`, whatever extension the input path carried.
pub proof fn lemma_output_path_has_tex_extension(p: Seq<char>)
    ensures
        spec_output_path(p).len() >= 4,
        spec_output_path(p).subrange(
            spec_output_path(p).len() - 4,
            spec_output_path(p).len() as int,
        ) == TEX_EXTENSION@,
{
    reveal_strlit(".tex");
    lemma_last_index_props(p, '.');
    lemma_last_index_props(p, '/');
    assert(spec_output_path(p).subrange(
        spec_output_path(p).len() - 4,
        spec_output_path(p).len() as int,
    ) =~= TEX_EXTENSION@);
}

} // verus!
