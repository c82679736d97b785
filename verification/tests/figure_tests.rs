use convert_figures::find_all_figures_in_string;
use convert_figures::Figure;

#[test]
fn parses_all_three_fields() {
    let f = Figure::new("src=\"a.png\" darkSrc=\"b.png\" alt=\"hi\"", "body");
    assert_eq!(f.src, "a.png");
    assert_eq!(f.dark_src, Some("b.png"));
    assert_eq!(f.alt, Some("hi"));
    assert_eq!(f.body, "body");
}

#[test]
fn missing_attributes_stay_absent() {
    let f = Figure::new("src=\"a.png\"", "body");
    assert_eq!(f.src, "a.png");
    assert_eq!(f.dark_src, None);
    assert_eq!(f.alt, None);
}

#[test]
fn missing_src_is_empty() {
    let f = Figure::new("alt=\"x\"", "body");
    assert_eq!(f.src, "");
    assert_eq!(f.alt, Some("x"));
}

#[test]
fn unknown_keys_are_dropped() {
    let f = Figure::new("foo=\"bar\" src=\"a.png\" class_name=\"wide\"", "b");
    assert_eq!(f.src, "a.png");
    assert_eq!(f.dark_src, None);
    assert_eq!(f.alt, None);
}

#[test]
fn attribute_order_is_irrelevant() {
    let a = Figure::new("alt=\"x\" src=\"a.png\"", "b");
    let b = Figure::new("src=\"a.png\" alt=\"x\"", "b");
    assert_eq!(a.src, b.src);
    assert_eq!(a.alt, b.alt);
    assert_eq!(a.dark_src, b.dark_src);
}

#[test]
fn duplicate_key_last_occurrence_wins() {
    let f = Figure::new("src=\"a.png\" src=\"b.png\"", "b");
    assert_eq!(f.src, "b.png");
}

#[test]
fn quote_in_value_truncates_it() {
    let f = Figure::new("src=\"a\"b\"", "body");
    assert_eq!(f.src, "a");
}

#[test]
fn empty_value_is_no_pair() {
    let f = Figure::new("src=\"\" alt=\"x\"", "body");
    assert_eq!(f.src, "");
    assert_eq!(f.alt, Some("x"));
}

#[test]
fn body_kept_verbatim_untrimmed() {
    let f = Figure::new("src=\"a\"", "  spaced body \n");
    assert_eq!(f.body, "  spaced body \n");
}

#[test]
fn finds_every_instance_in_order() {
    let text = "<Figure src=\"a\">one</Figure> and <Figure src=\"b\" alt=\"x\">two</Figure>";
    let figs = find_all_figures_in_string(text);
    assert_eq!(figs.len(), 2);
    assert_eq!(figs[0].src, "a");
    assert_eq!(figs[0].body, "one");
    assert_eq!(figs[1].src, "b");
    assert_eq!(figs[1].alt, Some("x"));
    assert_eq!(figs[1].body, "two");
}

#[test]
fn finds_none_in_plain_text() {
    let figs = find_all_figures_in_string("no tags here");
    assert_eq!(figs.len(), 0);
}

#[test]
fn whitespace_and_newlines_inside_opening_tag() {
    let text = "<Figure\n  src=\"a.png\"\n  alt=\"x\"\n>cap</Figure>";
    let figs = find_all_figures_in_string(text);
    assert_eq!(figs.len(), 1);
    assert_eq!(figs[0].src, "a.png");
    assert_eq!(figs[0].alt, Some("x"));
    assert_eq!(figs[0].body, "cap");
}

#[test]
fn attribute_value_with_greater_than_splits_capture() {
    // The attribute capture stops at the first `>`, so a `>` inside a value
    // ends the opening tag there and the rest falls into the body.
    let text = "<Figure src=\"a>b\">cap</Figure>";
    let figs = find_all_figures_in_string(text);
    assert_eq!(figs.len(), 1);
    assert_eq!(figs[0].src, "");
    assert_eq!(figs[0].body, "b\">cap");
}
