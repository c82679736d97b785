use convert_figures::build_out_filename;
use convert_figures::remove_import;
use convert_figures::replace_figures;
use convert_figures::rewrite;

fn count(haystack: &str, needle: &str) -> usize {
    haystack.matches(needle).count()
}

#[test]
fn noop_on_text_without_tags() {
    let text = "# A heading\n\nplain **markdown** text\nwith nothing special\n";
    assert_eq!(rewrite(text), text);
}

#[test]
fn noop_on_empty_document() {
    assert_eq!(rewrite(""), "");
}

#[test]
fn noop_keeps_unrelated_imports() {
    let text = "import Foo from \"../Foo.astro\";\n\nSome prose.\n";
    assert_eq!(rewrite(text), text);
}

#[test]
fn round_trip_shape_single_instance() {
    let text = "before\n<Figure src=\"a.png\">caption</Figure>\nafter\n";
    let out = rewrite(text);
    assert_eq!(count(&out, "<figure>"), 1);
    assert_eq!(count(&out, "</figure>"), 1);
    assert_eq!(count(&out, "<img src=\"a.png\" />"), 1);
    assert_eq!(count(&out, "<figcaption>caption</figcaption>"), 1);
    assert_eq!(count(&out, "<source"), 0);
    assert_eq!(count(&out, "alt="), 0);
    assert!(out.starts_with("before\n"));
    assert!(out.ends_with("\nafter\n"));
}

#[test]
fn dark_mode_emits_source_pair_light_first() {
    let text = "<Figure src=\"a.png\" darkSrc=\"b.png\">cap</Figure>";
    let out = rewrite(text);
    assert_eq!(count(&out, "<source"), 2);
    let light = "<source srcset=\"a.png\" media=\"(prefers-color-scheme: light)\" />";
    let dark = "<source srcset=\"b.png\" media=\"(prefers-color-scheme: dark)\" />";
    assert_eq!(count(&out, light), 1);
    assert_eq!(count(&out, dark), 1);
    let light_at = out.find(light).unwrap();
    let dark_at = out.find(dark).unwrap();
    assert!(light_at < dark_at);
}

#[test]
fn alt_present_appears_on_img() {
    let text = "<Figure src=\"a.png\" alt=\"x\">cap</Figure>";
    let out = rewrite(text);
    assert_eq!(count(&out, "<img src=\"a.png\" alt=\"x\" />"), 1);
}

#[test]
fn alt_absent_leaves_no_alt_attribute() {
    let text = "<Figure src=\"a.png\">cap</Figure>";
    let out = rewrite(text);
    assert_eq!(count(&out, "<img src=\"a.png\" />"), 1);
    assert_eq!(count(&out, "alt="), 0);
}

#[test]
fn unknown_attribute_changes_nothing() {
    let with_unknown = "<Figure src=\"a.png\" foo=\"bar\">cap</Figure>";
    let without = "<Figure src=\"a.png\">cap</Figure>";
    assert_eq!(rewrite(with_unknown), rewrite(without));
}

#[test]
fn import_line_removed_other_lines_kept() {
    let text = "import Figure from \"../Figure.astro\";\n\n# Title\n<Figure src=\"a.png\">cap</Figure>\n";
    let out = rewrite(text);
    assert_eq!(count(&out, "import Figure"), 0);
    assert!(out.starts_with("# Title\n"));
    assert!(out.contains("<figcaption>cap</figcaption>"));
}

#[test]
fn import_without_semicolon_removed() {
    let text = "import Figure from \"./F.astro\"\nrest\n";
    assert_eq!(remove_import(text), "rest\n");
}

#[test]
fn import_trailing_blank_lines_removed() {
    let text = "import Figure from \"./F.astro\";\n\n\nrest\n";
    assert_eq!(remove_import(text), "rest\n");
}

#[test]
fn import_with_empty_path_kept() {
    let text = "import Figure from \"\";\n";
    assert_eq!(remove_import(text), text);
}

#[test]
fn derived_filename_replaces_extension_token() {
    assert_eq!(build_out_filename("page.mdx"), "page.md");
}

#[test]
fn derived_filename_affects_every_token_occurrence() {
    assert_eq!(build_out_filename("a.mdx.mdx"), "a.md.md");
    assert_eq!(build_out_filename("x.mdxy"), "x.mdy");
    assert_eq!(build_out_filename("plain.md"), "plain.md");
}

#[test]
fn two_instances_handled_separately() {
    let text = "<Figure src=\"a.png\">one</Figure>\nmiddle\n<Figure src=\"b.png\">two</Figure>";
    let out = replace_figures(text);
    assert_eq!(count(&out, "<figure>"), 2);
    assert_eq!(count(&out, "<figcaption>one</figcaption>"), 1);
    assert_eq!(count(&out, "<figcaption>two</figcaption>"), 1);
    assert_eq!(count(&out, "\nmiddle\n"), 1);
}

#[test]
fn empty_body_does_not_match() {
    let text = "<Figure src=\"a.png\"></Figure>";
    assert_eq!(rewrite(text), text);
}

#[test]
fn unclosed_tag_left_alone() {
    let text = "<Figure src=\"a.png\">body with no closing tag";
    assert_eq!(rewrite(text), text);
}

#[test]
fn body_copied_verbatim_with_markup_and_newlines() {
    let body = "line one\n  <em>two</em>\nline three";
    let text = format!("<Figure src=\"a.png\">{}</Figure>", body);
    let out = rewrite(&text);
    let expected = format!("<figcaption>{}</figcaption>", body);
    assert_eq!(count(&out, &expected), 1);
}

#[test]
fn full_block_exact_output() {
    let text = "<Figure src=\"a.png\" darkSrc=\"b.png\" alt=\"hi\">cap</Figure>";
    let expected = "<figure>\n  <a href=\"a.png\" title=\"Click to enlarge\" target=\"_blank\">\n    <picture>\n      <source srcset=\"a.png\" media=\"(prefers-color-scheme: light)\" />\n      <source srcset=\"b.png\" media=\"(prefers-color-scheme: dark)\" />\n      <img src=\"a.png\" alt=\"hi\" />\n    </picture>\n  </a>\n  <figcaption>cap</figcaption>\n</figure>";
    assert_eq!(rewrite(text), expected);
}

#[test]
fn full_block_exact_output_minimal() {
    let text = "<Figure src=\"a.png\">cap</Figure>";
    let expected = "<figure>\n  <a href=\"a.png\" title=\"Click to enlarge\" target=\"_blank\">\n    <picture>\n      <img src=\"a.png\" />\n    </picture>\n  </a>\n  <figcaption>cap</figcaption>\n</figure>";
    assert_eq!(rewrite(text), expected);
}

#[test]
fn missing_src_renders_empty_attribute() {
    let text = "<Figure alt=\"x\">cap</Figure>";
    let out = rewrite(text);
    assert_eq!(count(&out, "<img src=\"\" alt=\"x\" />"), 1);
}
