//! Cohoard: a play-script chat transcript formatter.
//!
//! The library parses freeform transcript text into a sequence of typed
//! blocks (timestamp markers and speaker posts), and renders those blocks
//! through a user-supplied template into an HTML fragment adapted to a
//! platform that strips `<style>` tags and `class`/`id` attributes.

pub mod json;
pub mod markdown;
pub mod model;
pub mod parse;
pub mod pipeline;
pub mod text;

pub use markdown::markdown_to_html;
pub use model::BlockView;
pub use model::ChatlogBlock;
pub use model::Config;
pub use model::User;
pub use parse::parse_posts;
pub use pipeline::post_process;
pub use pipeline::render;
pub use pipeline::strip_attributes;
pub use pipeline::RenderError;
