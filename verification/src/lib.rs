//! Renders a structured API-documentation tree as fixed-width Markdown pages,
//! resolves type names to cross-reference anchors, and answers read-only
//! queries (page names, referenced type names, page lookup) over the loaded
//! model. Every rendering function's output is pinned, character for
//! character, by a spec function over the model, and the query results are
//! specified exactly, so rendering and listing are provably deterministic.

pub mod model;
pub mod query;
pub mod render;
pub mod resolver;
pub mod table;
pub mod text;
