//! Rewrites documents that use a custom `<Figure ...>...</Figure>` markup
//! element into plain semantic markup: every tag instance is located, its
//! attribute list is parsed into a typed record, the record is serialized into
//! a fixed `<figure>` block, and the import line that referenced the custom
//! component is stripped.

pub mod figure;
pub mod paths;
pub mod render;
pub mod rewrite;
pub mod scan;

pub use crate::figure::Figure;
pub use crate::paths::build_out_filename;
pub use crate::rewrite::find_all_figures_in_string;
pub use crate::rewrite::remove_import;
pub use crate::rewrite::replace_figures;
pub use crate::rewrite::rewrite;
