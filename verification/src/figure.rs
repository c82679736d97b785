//! The figure record and its attribute parser.
//!
//! The attribute-list text of a tag holds zero or more `key="value"` pairs: a
//! key is a nonempty run of ASCII letters or underscores, `=` and an opening
//! quote follow immediately, and the value is a nonempty run of characters up
//! to the next quote (there is no escaping; a literal quote ends the value).
//! Pairs are collected left to right, non-overlapping; only the keys `src`,
//! `darkSrc` and `alt` set a field, the last occurrence of a key winning;
//! every other key is ignored.

use vstd::prelude::*;

use crate::scan::{
    find_ch, find_ch_x, is_name_char, lemma_find_ch_some, lemma_name_run_end_bounds, name_run_end,
    name_run_end_x, str_eq_x,
};

verus! {

/// The mathematical model of a parsed figure record.
pub ghost struct FigureModel {
    pub src: Seq<char>,
    pub dark_src: Option<Seq<char>>,
    pub alt: Option<Seq<char>>,
    pub body: Seq<char>,
}

/// One parsed tag instance: the required image source, the optional dark-mode
/// source, the optional alt text, and the inner body text held verbatim.
#[derive(Clone, Copy, Debug)]
pub struct Figure<'a> {
    pub src: &'a str,
    pub dark_src: Option<&'a str>,
    pub alt: Option<&'a str>,
    pub body: &'a str,
}

impl<'a> View for Figure<'a> {
    type V = FigureModel;

    open spec fn view(&self) -> FigureModel {
        FigureModel {
            src: self.src@,
            dark_src: self.dark_src.deep_view(),
            alt: self.alt.deep_view(),
            body: self.body@,
        }
    }
}

/// True when a `key="value"` pair begins exactly at position `i`: a nonempty
/// key run, then `="`, then a nonempty value closed by the next quote.
pub open spec fn attr_match_at(s: Seq<char>, i: int) -> bool {
    let j = name_run_end(s, i);
    let k = find_ch(s, j + 2, '"');
    &&& 0 <= i < s.len()
    &&& is_name_char(s[i])
    &&& j + 1 < s.len()
    &&& s[j] == '='
    &&& s[j + 1] == '"'
    &&& k is Some
    &&& k->0 > j + 2
}

/// The key captured by the pair beginning at `i`.
pub open spec fn attr_key(s: Seq<char>, i: int) -> Seq<char> {
    s.subrange(i, name_run_end(s, i))
}

/// The value captured by the pair beginning at `i`.
pub open spec fn attr_val(s: Seq<char>, i: int) -> Seq<char> {
    let j = name_run_end(s, i);
    s.subrange(j + 2, find_ch(s, j + 2, '"')->0)
}

/// The position just past the pair beginning at `i` (past its closing quote).
pub open spec fn attr_end(s: Seq<char>, i: int) -> int {
    find_ch(s, name_run_end(s, i) + 2, '"')->0 + 1
}

/// All `key="value"` pairs found at or after position `i`, left to right,
/// non-overlapping: scanning advances one position at a time and jumps past
/// each pair it finds.
pub open spec fn attr_pairs(s: Seq<char>, i: int) -> Seq<(Seq<char>, Seq<char>)>
    decreases s.len() - i,
    via attr_pairs_decreases
{
    if i >= s.len() {
        Seq::empty()
    } else if attr_match_at(s, i) {
        seq![(attr_key(s, i), attr_val(s, i))] + attr_pairs(s, attr_end(s, i))
    } else {
        attr_pairs(s, i + 1)
    }
}

#[via_fn]
proof fn attr_pairs_decreases(s: Seq<char>, i: int) {
    if i < s.len() && attr_match_at(s, i) {
        lemma_attr_end_bounds(s, i);
    }
}

/// A pair ends past where it starts and within the text.
pub proof fn lemma_attr_end_bounds(s: Seq<char>, i: int)
    requires
        attr_match_at(s, i),
    ensures
        i < attr_end(s, i) <= s.len(),
        i <= name_run_end(s, i),
{
    lemma_name_run_end_bounds(s, i);
    lemma_find_ch_some(s, name_run_end(s, i) + 2, '"');
}

/// The three keys the schema recognizes.
pub open spec fn recognized_key(key: Seq<char>) -> bool {
    key == "src"@ || key == "darkSrc"@ || key == "alt"@
}

/// The effect of one `key="value"` pair on a record: a recognized key sets its
/// field, any other key leaves the record unchanged.
pub open spec fn apply_attr(m: FigureModel, key: Seq<char>, val: Seq<char>) -> FigureModel {
    if key == "darkSrc"@ {
        FigureModel { dark_src: Some(val), ..m }
    } else if key == "src"@ {
        FigureModel { src: val, ..m }
    } else if key == "alt"@ {
        FigureModel { alt: Some(val), ..m }
    } else {
        m
    }
}

/// Applies a list of pairs to a record, left to right.
pub open spec fn fold_attrs(m: FigureModel, pairs: Seq<(Seq<char>, Seq<char>)>) -> FigureModel
    decreases pairs.len(),
{
    if pairs.len() == 0 {
        m
    } else {
        fold_attrs(apply_attr(m, pairs[0].0, pairs[0].1), pairs.drop_first())
    }
}

/// The record a tag starts from: no sources, no alt text, the body verbatim.
pub open spec fn empty_figure(body: Seq<char>) -> FigureModel {
    FigureModel { src: Seq::empty(), dark_src: None, alt: None, body }
}

/// The record that parsing an attribute list together with a body yields.
pub open spec fn parse_figure(attrs: Seq<char>, body: Seq<char>) -> FigureModel {
    fold_attrs(empty_figure(body), attr_pairs(attrs, 0))
}

/// An attribute pair with an unrecognized key leaves the record unchanged.
pub proof fn lemma_unknown_attr_ignored(m: FigureModel, key: Seq<char>, val: Seq<char>)
    requires
        !recognized_key(key),
    ensures
        apply_attr(m, key, val) == m,
{
}

/// A record depends only on the recognized pairs of its attribute list:
/// dropping every pair with an unrecognized key changes nothing.
pub proof fn lemma_unknown_attrs_filtered(m: FigureModel, pairs: Seq<(Seq<char>, Seq<char>)>)
    ensures
        fold_attrs(m, pairs) == fold_attrs(
            m,
            pairs.filter(|p: (Seq<char>, Seq<char>)| recognized_key(p.0)),
        ),
    decreases pairs.len(),
{
    let pred = |p: (Seq<char>, Seq<char>)| recognized_key(p.0);
    if pairs.len() == 0 {
        proof_filter_empty(pairs, pred);
    } else {
        let first = pairs[0];
        let rest = pairs.drop_first();
        assert(pairs =~= seq![first] + rest);
        Seq::filter_distributes_over_add(seq![first], rest, pred);
        proof_filter_singleton(first, pred);
        lemma_unknown_attrs_filtered(apply_attr(m, first.0, first.1), rest);
        if pred(first) {
            let fpairs = seq![first] + rest.filter(pred);
            assert(pairs.filter(pred) == fpairs);
            assert(fpairs[0] == first);
            assert(fpairs.drop_first() =~= rest.filter(pred));
        } else {
            assert(pairs.filter(pred) == rest.filter(pred));
        }
    }
}

/// Filtering an empty list yields the list itself.
proof fn proof_filter_empty(
    pairs: Seq<(Seq<char>, Seq<char>)>,
    pred: spec_fn((Seq<char>, Seq<char>)) -> bool,
)
    requires
        pairs.len() == 0,
    ensures
        pairs.filter(pred) == pairs,
{
    reveal(Seq::filter);
}

/// Filtering a one-element list keeps or drops that element.
proof fn proof_filter_singleton(
    p: (Seq<char>, Seq<char>),
    pred: spec_fn((Seq<char>, Seq<char>)) -> bool,
)
    ensures
        pred(p) ==> seq![p].filter(pred) == seq![p],
        !pred(p) ==> seq![p].filter(pred) == Seq::<(Seq<char>, Seq<char>)>::empty(),
{
    reveal(Seq::filter);
    assert(seq![p].drop_last() =~= Seq::<(Seq<char>, Seq<char>)>::empty());
    assert(Seq::<(Seq<char>, Seq<char>)>::empty().filter(pred)
        == Seq::<(Seq<char>, Seq<char>)>::empty());
    assert(seq![p].last() == p);
    if pred(p) {
        assert(Seq::<(Seq<char>, Seq<char>)>::empty().push(p) =~= seq![p]);
    }
}

/// Decides `attr_match_at` at position `i` and hands back the end of the key
/// run and the position of the closing quote.
fn attr_try_match(s: &str, i: usize) -> (r: Option<(usize, usize)>)
    requires
        i < s@.len(),
    ensures
        r is Some <==> attr_match_at(s@, i as int),
        r matches Some((j, k)) ==> {
            &&& j == name_run_end(s@, i as int)
            &&& find_ch(s@, j + 2, '"') == Some(k as int)
            &&& i < k < s@.len()
        },
{
    let n = s.unicode_len();
    let c0 = s.get_char(i);
    let u = c0 as u32;
    let name_char = (97 <= u && u <= 122) || (65 <= u && u <= 90) || c0 == '_';
    proof {
        assert(name_char == is_name_char(s@[i as int]));
    }
    if !name_char {
        return None;
    }
    let j = name_run_end_x(s, i);
    if n - j < 2 {
        return None;
    }
    if s.get_char(j) != '=' {
        return None;
    }
    if s.get_char(j + 1) != '"' {
        return None;
    }
    match find_ch_x(s, j + 2, '"') {
        None => None,
        Some(k) => {
            proof {
                lemma_find_ch_some(s@, j as int + 2, '"');
            }
            if k > j + 2 {
                Some((j, k))
            } else {
                None
            }
        },
    }
}

impl<'a> Figure<'a> {
    /// Parses the attribute-list text into a figure record that holds `body`
    /// verbatim: each recognized `key="value"` pair sets its field, the last
    /// occurrence of a key winning; unrecognized keys are ignored.
    pub fn new(attrs: &'a str, body: &'a str) -> (f: Figure<'a>)
        ensures
            f@ == parse_figure(attrs@, body@),
    {
        let n = attrs.unicode_len();
        let mut f = Figure { src: "", dark_src: None, alt: None, body };
        proof {
            reveal_strlit("");
            assert(""@ =~= Seq::<char>::empty());
            assert(f@ == empty_figure(body@));
        }
        let mut i: usize = 0;
        while i < n
            invariant
                i <= n,
                n == attrs@.len(),
                fold_attrs(f@, attr_pairs(attrs@, i as int)) == parse_figure(attrs@, body@),
            decreases n - i,
        {
            match attr_try_match(attrs, i) {
                None => {
                    i += 1;
                }
                Some((j, k)) => {
                    proof {
                        lemma_attr_end_bounds(attrs@, i as int);
                    }
                    let key = attrs.substring_char(i, j);
                    let val = attrs.substring_char(j + 2, k);
                    let ghost prev = f@;
                    if str_eq_x(key, "darkSrc") {
                        f.dark_src = Some(val);
                    } else if str_eq_x(key, "src") {
                        f.src = val;
                    } else if str_eq_x(key, "alt") {
                        f.alt = Some(val);
                    }
                    proof {
                        assert(f@ == apply_attr(prev, attr_key(attrs@, i as int), attr_val(attrs@, i as int)));
                        let pair = (attr_key(attrs@, i as int), attr_val(attrs@, i as int));
                        let rest = attr_pairs(attrs@, attr_end(attrs@, i as int));
                        assert(attr_pairs(attrs@, i as int) == seq![pair] + rest);
                        assert((seq![pair] + rest)[0] == pair);
                        assert((seq![pair] + rest).drop_first() =~= rest);
                    }
                    i = k + 1;
                }
            }
        }
        f
    }
}

} // verus!
