//! The tag matcher, the document rewriter and the import stripper.
//!
//! A tag instance begins with the literal `<Figure`; the attribute-list
//! capture runs from there to the first `>` (it does not tolerate a literal
//! `>` inside an attribute value); the body capture is the shortest nonempty
//! span after that `>` which is followed by the literal closing tag
//! `</Figure>`, so several instances in one document are each handled on
//! their own. Matches are found left to right, non-overlapping, over the
//! original text in a single pass. An import reference has the shape
//! `import Figure from "<path>"`, an optional `;`, and any trailing newlines;
//! each one is removed whole.

use vstd::prelude::*;

use crate::figure::{parse_figure, Figure, FigureModel};
use crate::render::render_spec;
use crate::scan::{
    find_ch, find_ch_x, find_sub, find_sub_x, lemma_find_ch_some, lemma_find_sub_some,
    lemma_newline_run_end_bounds, newline_run_end, newline_run_end_x, sub_at, sub_at_x,
};

verus! {

/// Position of the `>` that closes the opening tag beginning at `i`: the
/// first `>` after the tag name.
pub open spec fn fig_gt(s: Seq<char>, i: int) -> Option<int> {
    find_ch(s, i + "<Figure"@.len(), '>')
}

/// Position of the closing tag for the instance beginning at `i`: the first
/// occurrence of `</Figure>` that leaves a nonempty body.
pub open spec fn fig_close(s: Seq<char>, i: int) -> Option<int> {
    match fig_gt(s, i) {
        Some(g) => find_sub(s, g + 2, "</Figure>"@),
        None => None,
    }
}

/// True when a whole tag instance begins exactly at position `i`.
pub open spec fn fig_match_at(s: Seq<char>, i: int) -> bool {
    &&& sub_at(s, i, "<Figure"@)
    &&& fig_gt(s, i) is Some
    &&& fig_close(s, i) is Some
}

/// The attribute-list capture of the instance beginning at `i`: everything
/// between the tag name and the first `>`.
pub open spec fn fig_attrs(s: Seq<char>, i: int) -> Seq<char> {
    s.subrange(i + "<Figure"@.len(), fig_gt(s, i)->0)
}

/// The body capture of the instance beginning at `i`: everything between the
/// opening tag's `>` and the closing tag, verbatim.
pub open spec fn fig_body(s: Seq<char>, i: int) -> Seq<char> {
    s.subrange(fig_gt(s, i)->0 + 1, fig_close(s, i)->0)
}

/// The position just past the instance beginning at `i`.
pub open spec fn fig_end(s: Seq<char>, i: int) -> int {
    fig_close(s, i)->0 + "</Figure>"@.len()
}

/// A matched instance lies within the text, its captures in order.
pub proof fn lemma_fig_match_bounds(s: Seq<char>, i: int)
    requires
        fig_match_at(s, i),
    ensures
        i + "<Figure"@.len() <= fig_gt(s, i)->0 < s.len(),
        fig_gt(s, i)->0 + 2 <= fig_close(s, i)->0,
        i < fig_end(s, i) <= s.len(),
{
    lemma_find_ch_some(s, i + "<Figure"@.len(), '>');
    let g = fig_gt(s, i)->0;
    lemma_find_sub_some(s, g + 2, "</Figure>"@);
}

/// The figure-substitution pass over the suffix of `s` that starts at `i`:
/// each instance found is replaced by its rendered block, every other
/// character is copied through.
pub open spec fn replace_figures_from(s: Seq<char>, i: int) -> Seq<char>
    decreases s.len() - i,
    via replace_figures_from_decreases
{
    if i >= s.len() {
        Seq::empty()
    } else if fig_match_at(s, i) {
        render_spec(parse_figure(fig_attrs(s, i), fig_body(s, i))) + replace_figures_from(
            s,
            fig_end(s, i),
        )
    } else {
        seq![s[i]] + replace_figures_from(s, i + 1)
    }
}

#[via_fn]
proof fn replace_figures_from_decreases(s: Seq<char>, i: int) {
    if i < s.len() && fig_match_at(s, i) {
        lemma_fig_match_bounds(s, i);
    }
}

/// The whole figure-substitution pass.
pub open spec fn replace_figures_spec(s: Seq<char>) -> Seq<char> {
    replace_figures_from(s, 0)
}

/// The records of all instances found in the suffix of `s` starting at `i`,
/// left to right, non-overlapping.
pub open spec fn figures_from(s: Seq<char>, i: int) -> Seq<FigureModel>
    decreases s.len() - i,
    via figures_from_decreases
{
    if i >= s.len() {
        Seq::empty()
    } else if fig_match_at(s, i) {
        seq![parse_figure(fig_attrs(s, i), fig_body(s, i))] + figures_from(s, fig_end(s, i))
    } else {
        figures_from(s, i + 1)
    }
}

#[via_fn]
proof fn figures_from_decreases(s: Seq<char>, i: int) {
    if i < s.len() && fig_match_at(s, i) {
        lemma_fig_match_bounds(s, i);
    }
}

/// The text an import reference opens with.
pub open spec fn import_prefix() -> Seq<char> {
    "import Figure from \""@
}

/// Position of the quote that closes the import path beginning at `i`.
pub open spec fn imp_quote(s: Seq<char>, i: int) -> Option<int> {
    find_ch(s, i + import_prefix().len(), '"')
}

/// True when an import reference begins exactly at position `i`: the prefix,
/// then a nonempty path closed by the next quote.
pub open spec fn import_match_at(s: Seq<char>, i: int) -> bool {
    &&& sub_at(s, i, import_prefix())
    &&& imp_quote(s, i) is Some
    &&& imp_quote(s, i)->0 > i + import_prefix().len()
}

/// The position just past the import reference beginning at `i`: past the
/// closing quote, an optional `;`, and any run of newlines.
pub open spec fn import_end(s: Seq<char>, i: int) -> int {
    let k = imp_quote(s, i)->0;
    let p = if k + 1 < s.len() && s[k + 1] == ';' {
        k + 2
    } else {
        k + 1
    };
    newline_run_end(s, p)
}

/// A matched import reference lies within the text and past where it starts.
pub proof fn lemma_import_end_bounds(s: Seq<char>, i: int)
    requires
        import_match_at(s, i),
    ensures
        i < import_end(s, i) <= s.len(),
        i + import_prefix().len() < imp_quote(s, i)->0 < s.len(),
{
    lemma_find_ch_some(s, i + import_prefix().len(), '"');
    let k = imp_quote(s, i)->0;
    let p = if k + 1 < s.len() && s[k + 1] == ';' {
        k + 2
    } else {
        k + 1
    };
    lemma_newline_run_end_bounds(s, p);
}

/// The import-stripping pass over the suffix of `s` that starts at `i`: each
/// import reference found is dropped, every other character is copied through.
pub open spec fn remove_imports_from(s: Seq<char>, i: int) -> Seq<char>
    decreases s.len() - i,
    via remove_imports_from_decreases
{
    if i >= s.len() {
        Seq::empty()
    } else if import_match_at(s, i) {
        remove_imports_from(s, import_end(s, i))
    } else {
        seq![s[i]] + remove_imports_from(s, i + 1)
    }
}

#[via_fn]
proof fn remove_imports_from_decreases(s: Seq<char>, i: int) {
    if i < s.len() && import_match_at(s, i) {
        lemma_import_end_bounds(s, i);
    }
}

/// The whole import-stripping pass.
pub open spec fn remove_import_spec(s: Seq<char>) -> Seq<char> {
    remove_imports_from(s, 0)
}

/// The whole rewrite: figure substitution first, import stripping after.
pub open spec fn rewrite_spec(s: Seq<char>) -> Seq<char> {
    remove_import_spec(replace_figures_spec(s))
}

/// Decides `fig_match_at` at position `i` and hands back the position of the
/// opening tag's `>` and of the closing tag.
fn fig_try_match(s: &str, i: usize) -> (r: Option<(usize, usize)>)
    ensures
        r is Some <==> fig_match_at(s@, i as int),
        r matches Some((g, c)) ==> {
            &&& fig_gt(s@, i as int) == Some(g as int)
            &&& fig_close(s@, i as int) == Some(c as int)
        },
{
    if !sub_at_x(s, i, "<Figure") {
        return None;
    }
    let n = s.unicode_len();
    let open_len = "<Figure".unicode_len();
    match find_ch_x(s, i + open_len, '>') {
        None => None,
        Some(g) => {
            proof {
                lemma_find_ch_some(s@, i as int + "<Figure"@.len(), '>');
            }
            if n - g < 2 {
                return None;
            }
            match find_sub_x(s, g + 2, "</Figure>") {
                None => None,
                Some(c) => Some((g, c)),
            }
        },
    }
}

/// Decides `import_match_at` at position `i` and hands back the position just
/// past the whole reference.
fn import_try_match(s: &str, i: usize) -> (r: Option<usize>)
    ensures
        r is Some <==> import_match_at(s@, i as int),
        r matches Some(e) ==> e as int == import_end(s@, i as int) && i < e <= s@.len(),
{
    if !sub_at_x(s, i, "import Figure from \"") {
        return None;
    }
    let n = s.unicode_len();
    let plen = "import Figure from \"".unicode_len();
    match find_ch_x(s, i + plen, '"') {
        None => None,
        Some(k) => {
            if k <= i + plen {
                return None;
            }
            proof {
                lemma_find_ch_some(s@, i as int + import_prefix().len(), '"');
            }
            let p = if k + 1 < n && s.get_char(k + 1) == ';' {
                k + 2
            } else {
                k + 1
            };
            let e = newline_run_end_x(s, p);
            Some(e)
        },
    }
}

/// Replaces every tag instance in the document with its rendered block:
/// instances are found left to right, non-overlapping, over the original
/// text, and every other character is copied through unchanged.
pub fn replace_figures(s: &str) -> (out: String)
    ensures
        out@ == replace_figures_spec(s@),
{
    let n = s.unicode_len();
    let mut out = String::new();
    let mut i: usize = 0;
    while i < n
        invariant
            i <= n,
            n == s@.len(),
            out@ + replace_figures_from(s@, i as int) == replace_figures_spec(s@),
        decreases n - i,
    {
        let ghost prev = out@;
        match fig_try_match(s, i) {
            Some((g, c)) => {
                proof {
                    lemma_fig_match_bounds(s@, i as int);
                }
                let open_len = "<Figure".unicode_len();
                let attrs = s.substring_char(i + open_len, g);
                let body = s.substring_char(g + 1, c);
                let fig = Figure::new(attrs, body);
                let block = fig.render();
                out.append(block.as_str());
                let close_len = "</Figure>".unicode_len();
                proof {
                    assert(prev + replace_figures_from(s@, i as int) == replace_figures_spec(s@));
                    assert(out@ + replace_figures_from(s@, fig_end(s@, i as int)) =~= prev
                        + replace_figures_from(s@, i as int));
                }
                i = c + close_len;
            },
            None => {
                let piece = s.substring_char(i, i + 1);
                out.append(piece);
                proof {
                    assert(piece@ =~= seq![s@[i as int]]);
                    assert(out@ + replace_figures_from(s@, i as int + 1) =~= prev
                        + replace_figures_from(s@, i as int));
                }
                i += 1;
            },
        }
    }
    proof {
        assert(out@ + replace_figures_from(s@, n as int) =~= out@);
    }
    out
}

/// Collects the record of every tag instance found in the document, left to
/// right, non-overlapping.
pub fn find_all_figures_in_string<'a>(s: &'a str) -> (figs: Vec<Figure<'a>>)
    ensures
        figs@.map_values(|f: Figure<'a>| f@) == figures_from(s@, 0),
{
    let n = s.unicode_len();
    let mut figs: Vec<Figure<'a>> = Vec::new();
    let mut i: usize = 0;
    proof {
        assert(figs@.map_values(|f: Figure<'a>| f@) =~= Seq::<FigureModel>::empty());
    }
    while i < n
        invariant
            i <= n,
            n == s@.len(),
            figs@.map_values(|f: Figure<'a>| f@) + figures_from(s@, i as int) == figures_from(
                s@,
                0,
            ),
        decreases n - i,
    {
        let ghost prev = figs@.map_values(|f: Figure<'a>| f@);
        match fig_try_match(s, i) {
            Some((g, c)) => {
                proof {
                    lemma_fig_match_bounds(s@, i as int);
                }
                let open_len = "<Figure".unicode_len();
                let attrs = s.substring_char(i + open_len, g);
                let body = s.substring_char(g + 1, c);
                let fig = Figure::new(attrs, body);
                figs.push(fig);
                let close_len = "</Figure>".unicode_len();
                proof {
                    assert(figs@.map_values(|f: Figure<'a>| f@) =~= prev + seq![
                        parse_figure(fig_attrs(s@, i as int), fig_body(s@, i as int)),
                    ]);
                    assert(figs@.map_values(|f: Figure<'a>| f@) + figures_from(
                        s@,
                        fig_end(s@, i as int),
                    ) =~= prev + figures_from(s@, i as int));
                }
                i = c + close_len;
            },
            None => {
                i += 1;
            },
        }
    }
    proof {
        assert(figs@.map_values(|f: Figure<'a>| f@) + figures_from(s@, n as int) =~= figs@
            .map_values(|f: Figure<'a>| f@));
    }
    figs
}

/// Removes every import reference to the custom component from the document;
/// every other character is copied through unchanged.
pub fn remove_import(s: &str) -> (out: String)
    ensures
        out@ == remove_import_spec(s@),
{
    let n = s.unicode_len();
    let mut out = String::new();
    let mut i: usize = 0;
    while i < n
        invariant
            i <= n,
            n == s@.len(),
            out@ + remove_imports_from(s@, i as int) == remove_import_spec(s@),
        decreases n - i,
    {
        let ghost prev = out@;
        match import_try_match(s, i) {
            Some(e) => {
                i = e;
            },
            None => {
                let piece = s.substring_char(i, i + 1);
                out.append(piece);
                proof {
                    assert(piece@ =~= seq![s@[i as int]]);
                    assert(out@ + remove_imports_from(s@, i as int + 1) =~= prev
                        + remove_imports_from(s@, i as int));
                }
                i += 1;
            },
        }
    }
    proof {
        assert(out@ + remove_imports_from(s@, n as int) =~= out@);
    }
    out
}

/// Rewrites one document: every tag instance is replaced by its rendered
/// block, then every import reference to the custom component is stripped.
pub fn rewrite(s: &str) -> (out: String)
    ensures
        out@ == rewrite_spec(s@),
{
    let no_figures = replace_figures(s);
    remove_import(no_figures.as_str())
}

/// The figure-substitution pass copies a span with no instance through
/// unchanged.
proof fn lemma_replace_figures_clean_span(s: Seq<char>, i: int, j: int)
    requires
        0 <= i <= j <= s.len(),
        forall|m: int| i <= m < j ==> !fig_match_at(s, m),
    ensures
        replace_figures_from(s, i) == s.subrange(i, j) + replace_figures_from(s, j),
    decreases j - i,
{
    if i == j {
        assert(replace_figures_from(s, i) =~= s.subrange(i, j) + replace_figures_from(s, j));
    } else {
        lemma_replace_figures_clean_span(s, i + 1, j);
        assert(replace_figures_from(s, i) =~= s.subrange(i, j) + replace_figures_from(s, j));
    }
}

/// The figure-substitution pass leaves a document with no instance unchanged.
proof fn lemma_replace_figures_noop(s: Seq<char>, i: int)
    requires
        0 <= i <= s.len(),
        forall|j: int| i <= j < s.len() ==> !fig_match_at(s, j),
    ensures
        replace_figures_from(s, i) == s.subrange(i, s.len() as int),
{
    lemma_replace_figures_clean_span(s, i, s.len() as int);
    assert(replace_figures_from(s, i) =~= s.subrange(i, s.len() as int));
}

/// The import-stripping pass copies a span with no reference through
/// unchanged.
proof fn lemma_remove_imports_clean_span(s: Seq<char>, i: int, j: int)
    requires
        0 <= i <= j <= s.len(),
        forall|m: int| i <= m < j ==> !import_match_at(s, m),
    ensures
        remove_imports_from(s, i) == s.subrange(i, j) + remove_imports_from(s, j),
    decreases j - i,
{
    if i == j {
        assert(remove_imports_from(s, i) =~= s.subrange(i, j) + remove_imports_from(s, j));
    } else {
        lemma_remove_imports_clean_span(s, i + 1, j);
        assert(remove_imports_from(s, i) =~= s.subrange(i, j) + remove_imports_from(s, j));
    }
}

/// The import-stripping pass leaves a document with no reference unchanged.
proof fn lemma_remove_imports_noop(s: Seq<char>, i: int)
    requires
        0 <= i <= s.len(),
        forall|j: int| i <= j < s.len() ==> !import_match_at(s, j),
    ensures
        remove_imports_from(s, i) == s.subrange(i, s.len() as int),
{
    lemma_remove_imports_clean_span(s, i, s.len() as int);
    assert(remove_imports_from(s, i) =~= s.subrange(i, s.len() as int));
}

/// A document whose only tag instance begins at `i` comes out of the
/// figure-substitution pass as the text before the instance, then the
/// rendered block of its record, then the text after it, each unchanged.
pub proof fn lemma_single_instance_shape(s: Seq<char>, i: int)
    requires
        0 <= i < s.len(),
        fig_match_at(s, i),
        forall|m: int| 0 <= m < i ==> !fig_match_at(s, m),
        forall|m: int| fig_end(s, i) <= m < s.len() ==> !fig_match_at(s, m),
    ensures
        replace_figures_spec(s) == s.subrange(0, i) + render_spec(
            parse_figure(fig_attrs(s, i), fig_body(s, i)),
        ) + s.subrange(fig_end(s, i), s.len() as int),
{
    lemma_fig_match_bounds(s, i);
    lemma_replace_figures_clean_span(s, 0, i);
    lemma_replace_figures_noop(s, fig_end(s, i));
    assert(replace_figures_spec(s) =~= s.subrange(0, i) + render_spec(
        parse_figure(fig_attrs(s, i), fig_body(s, i)),
    ) + s.subrange(fig_end(s, i), s.len() as int));
}

/// A document whose only import reference begins at `i` comes out of the
/// import-stripping pass as the text before the reference followed by the
/// text after it, each unchanged.
pub proof fn lemma_single_import_removed(s: Seq<char>, i: int)
    requires
        0 <= i < s.len(),
        import_match_at(s, i),
        forall|m: int| 0 <= m < i ==> !import_match_at(s, m),
        forall|m: int| import_end(s, i) <= m < s.len() ==> !import_match_at(s, m),
    ensures
        remove_import_spec(s) == s.subrange(0, i) + s.subrange(
            import_end(s, i),
            s.len() as int,
        ),
{
    lemma_import_end_bounds(s, i);
    lemma_remove_imports_clean_span(s, 0, i);
    lemma_remove_imports_noop(s, import_end(s, i));
    assert(remove_import_spec(s) =~= s.subrange(0, i) + s.subrange(
        import_end(s, i),
        s.len() as int,
    ));
}

/// A document with no tag instance and no import reference comes out of the
/// rewrite unchanged.
pub proof fn lemma_rewrite_noop(s: Seq<char>)
    requires
        forall|i: int| 0 <= i < s.len() ==> !fig_match_at(s, i),
        forall|i: int| 0 <= i < s.len() ==> !import_match_at(s, i),
    ensures
        rewrite_spec(s) == s,
{
    lemma_replace_figures_noop(s, 0);
    assert(s.subrange(0, s.len() as int) =~= s);
    lemma_remove_imports_noop(s, 0);
}

} // verus!
