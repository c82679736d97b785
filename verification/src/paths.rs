//! Derivation of the output file name from the input file name: a textual
//! replacement of every occurrence of the source-extension token `.mdx` by the
//! target token `.md`, left to right, non-overlapping — so a base name that
//! happens to contain the token elsewhere is affected too.

use vstd::prelude::*;

use crate::scan::{sub_at, sub_at_x};

verus! {

/// The suffix of `s` starting at `i` with every occurrence of `.mdx` replaced
/// by `.md`.
pub open spec fn replace_ext_from(s: Seq<char>, i: int) -> Seq<char>
    decreases s.len() - i,
    via replace_ext_from_decreases
{
    if i >= s.len() {
        Seq::empty()
    } else if sub_at(s, i, ".mdx"@) {
        ".md"@ + replace_ext_from(s, i + ".mdx"@.len() as int)
    } else {
        seq![s[i]] + replace_ext_from(s, i + 1)
    }
}

#[via_fn]
proof fn replace_ext_from_decreases(s: Seq<char>, i: int) {
    reveal_strlit(".mdx");
}

/// The whole file name with every `.mdx` token replaced by `.md`.
pub open spec fn out_filename_spec(name: Seq<char>) -> Seq<char> {
    replace_ext_from(name, 0)
}

/// Derives the output file name from the input file name by replacing every
/// occurrence of the `.mdx` token with `.md`.
pub fn build_out_filename(name: &str) -> (out: String)
    ensures
        out@ == out_filename_spec(name@),
{
    let n = name.unicode_len();
    let tok_len = ".mdx".unicode_len();
    let mut out = String::new();
    let mut i: usize = 0;
    proof {
        reveal_strlit(".mdx");
    }
    while i < n
        invariant
            i <= n,
            n == name@.len(),
            tok_len == ".mdx"@.len(),
            1 <= tok_len,
            out@ + replace_ext_from(name@, i as int) == out_filename_spec(name@),
        decreases n - i,
    {
        let ghost prev = out@;
        if sub_at_x(name, i, ".mdx") {
            out.append(".md");
            proof {
                assert(out@ + replace_ext_from(name@, i as int + ".mdx"@.len() as int) =~= prev
                    + replace_ext_from(name@, i as int));
            }
            i += tok_len;
        } else {
            let piece = name.substring_char(i, i + 1);
            out.append(piece);
            proof {
                assert(piece@ =~= seq![name@[i as int]]);
                assert(out@ + replace_ext_from(name@, i as int + 1) =~= prev + replace_ext_from(
                    name@,
                    i as int,
                ));
            }
            i += 1;
        }
    }
    proof {
        assert(out@ + replace_ext_from(name@, n as int) =~= out@);
    }
    out
}

} // verus!
