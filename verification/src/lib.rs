//! A static-site builder: markdown pages rendered into a layout template, with per-page
//! titles and descriptions, saved under an output folder.
pub mod entities;
pub mod functions;
pub mod paths;
pub mod text;

pub use entities::html_file::HtmlFile;
pub use entities::markdown_file::MarkdownFile;
pub use entities::args_dto::Args;
pub use entities::page_meta::PageMeta;
pub use entities::validated_args_dto::{ArgumentsValidationError, ValidatedArgsDto};

use vstd::prelude::*;

verus! {

/// The layout template that every page is rendered into.
pub const LAYOUT_FILE_PATH: &'static str = "template.html";

/// Where a page's rendered markdown goes in the layout.
pub const CONTENT_PLACEHOLDER: &'static str = "<!--REPLACE_ME_BY_CONTENT-->";

/// Where a page's title goes in the layout.
pub const TITLE_PLACEHOLDER: &'static str = "<!--PAGE_TITLE-->";

/// Where a page's meta description goes in the layout.
pub const DESCRIPTION_PLACEHOLDER: &'static str = "<!--PAGE_DESCRIPTION-->";

} // verus!
