//! Serialization of a figure record into the fixed semantic-markup block.
//!
//! The output shape is deterministic in the record alone: a `<figure>` block
//! holding a link, a `<picture>` with an optional pair of `<source>` elements
//! (present exactly when a dark-mode source is), an `<img>` with an optional
//! `alt` attribute, and a `<figcaption>` carrying the body verbatim. There is
//! no trailing newline after the closing `</figure>`.

use vstd::prelude::*;

use crate::figure::{Figure, FigureModel};

verus! {

/// The opening of the block, through `<picture>`.
pub open spec fn render_header(src: Seq<char>) -> Seq<char> {
    "<figure>\n  <a href=\""@ + src + "\" title=\"Click to enlarge\" target=\"_blank\">\n    <picture>\n"@
}

/// The light-scheme `<source>` element, which references the main source.
pub open spec fn render_light_source(src: Seq<char>) -> Seq<char> {
    "      <source srcset=\""@ + src + "\" media=\"(prefers-color-scheme: light)\" />\n"@
}

/// The dark-scheme `<source>` element, which references the dark-mode source.
pub open spec fn render_dark_source(dark: Seq<char>) -> Seq<char> {
    "      <source srcset=\""@ + dark + "\" media=\"(prefers-color-scheme: dark)\" />\n"@
}

/// The `<source>` pair: present exactly when a dark-mode source is, light
/// scheme first.
pub open spec fn render_sources(src: Seq<char>, dark_src: Option<Seq<char>>) -> Seq<char> {
    match dark_src {
        Some(dark) => render_light_source(src) + render_dark_source(dark),
        None => Seq::empty(),
    }
}

/// The `<img>` element: its `alt` attribute is present exactly when alt text
/// is, with a preceding space; otherwise the tag self-closes without one.
pub open spec fn render_img(src: Seq<char>, alt: Option<Seq<char>>) -> Seq<char> {
    "      <img src=\""@ + src + (match alt {
        Some(a) => "\" alt=\""@ + a + "\" />\n"@,
        None => "\" />\n"@,
    })
}

/// The close of the block, with the body verbatim in the `<figcaption>`.
pub open spec fn render_footer(body: Seq<char>) -> Seq<char> {
    "    </picture>\n  </a>\n  <figcaption>"@ + body + "</figcaption>\n</figure>"@
}

/// The whole rendered block for a record.
pub open spec fn render_spec(m: FigureModel) -> Seq<char> {
    render_header(m.src) + render_sources(m.src, m.dark_src) + render_img(m.src, m.alt)
        + render_footer(m.body)
}

/// When a dark-mode source is present the rendered block holds the two
/// `<source>` elements as one adjacent pair, the light scheme first,
/// referencing the main and the dark-mode source in that order; when it is
/// absent the block holds none and goes straight from the header to the
/// `<img>` element.
pub proof fn lemma_dark_mode_pairing(m: FigureModel)
    ensures
        m.dark_src is Some ==> {
            let pair = render_light_source(m.src) + render_dark_source(m.dark_src->0);
            let at = render_header(m.src).len() as int;
            &&& 0 <= at
            &&& at + pair.len() <= render_spec(m).len()
            &&& render_spec(m).subrange(at, at + pair.len() as int) == pair
        },
        m.dark_src is None ==> render_spec(m) == render_header(m.src) + render_img(m.src, m.alt)
            + render_footer(m.body),
{
    if m.dark_src is Some {
        let pair = render_light_source(m.src) + render_dark_source(m.dark_src->0);
        let at = render_header(m.src).len() as int;
        assert(render_spec(m).subrange(at, at + pair.len() as int) =~= pair);
    } else {
        assert(render_sources(m.src, m.dark_src) =~= Seq::<char>::empty());
        assert(render_spec(m) =~= render_header(m.src) + render_img(m.src, m.alt)
            + render_footer(m.body));
    }
}

/// When alt text is present the `<img>` element carries ` alt="..."` between
/// the source attribute and the self-closing bracket; when it is absent the
/// element closes directly after the source attribute, with no alt attribute
/// at all.
pub proof fn lemma_alt_presence(m: FigureModel)
    ensures
        m.alt is Some ==> render_img(m.src, m.alt) == "      <img src=\""@ + m.src + "\" alt=\""@
            + m.alt->0 + "\" />\n"@,
        m.alt is None ==> render_img(m.src, m.alt) == "      <img src=\""@ + m.src + "\" />\n"@,
{
    if m.alt is Some {
        assert(render_img(m.src, m.alt) =~= "      <img src=\""@ + m.src + "\" alt=\""@
            + m.alt->0 + "\" />\n"@);
    }
}

impl<'a> Figure<'a> {
    /// Serializes the record into its semantic-markup block, byte for byte
    /// deterministic in the record.
    pub fn render(&self) -> (out: String)
        ensures
            out@ == render_spec(self@),
    {
        let mut out = String::new();
        out.append("<figure>\n  <a href=\"");
        out.append(self.src);
        out.append("\" title=\"Click to enlarge\" target=\"_blank\">\n    <picture>\n");
        match self.dark_src {
            Some(dark) => {
                out.append("      <source srcset=\"");
                out.append(self.src);
                out.append("\" media=\"(prefers-color-scheme: light)\" />\n");
                out.append("      <source srcset=\"");
                out.append(dark);
                out.append("\" media=\"(prefers-color-scheme: dark)\" />\n");
            },
            None => {},
        }
        out.append("      <img src=\"");
        out.append(self.src);
        match self.alt {
            Some(a) => {
                out.append("\" alt=\"");
                out.append(a);
                out.append("\" />\n");
            },
            None => {
                out.append("\" />\n");
            },
        }
        out.append("    </picture>\n  </a>\n  <figcaption>");
        out.append(self.body);
        out.append("</figcaption>\n</figure>");
        proof {
            assert(out@ =~= render_spec(self@));
        }
        out
    }
}

} // verus!
