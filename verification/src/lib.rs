//! Building the public pages of the notes from the HTML that Typst's HTML
//! backend produces: reading its parts, giving sections and statements stable
//! ids, turning citations and footnotes into side notes, converting math to
//! KaTeX, and rendering the page around the body.
pub mod text;
pub mod scan;
pub mod math;
pub mod tex;
pub mod pieces;
pub mod convert;
pub mod paths;
pub mod chapters;
pub mod delims;
pub mod patterns;
pub mod markup;
pub mod notes;
pub mod dom;
pub mod body;
pub mod bibliography;
pub mod citations;
pub mod footnotes;
pub mod anchors;
pub mod parts;
pub mod config;
pub mod scripts;
pub mod render;
