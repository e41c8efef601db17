//! Core of a static site builder: splitting front matter from markdown
//! documents, converting bodies to HTML, binding pages into templates and
//! mapping source paths to output paths.

pub mod driver;
pub mod front_matter;
pub mod inheritance;
pub mod markdown;
pub mod page;
pub mod paths;
pub mod render;
pub mod text;
