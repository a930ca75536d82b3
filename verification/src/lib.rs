//! A post-processing rule pipeline for parsed markdown documents: heading
//! levels are shifted and clamped, links are classified as internal or
//! external against a configured domain, tables get a CSS class, a table of
//! contents is synthesized from the headings, and three custom emphasis
//! spans render as semantic elements.  Every pass is a pure transformation
//! over the library's own document tree, and the renderer writes the final
//! HTML character for character.
pub mod domain;
pub mod driver;
pub mod emphasis;
pub mod heading_level_modification;
pub mod link_with_target;
pub mod node;
pub mod options;
pub mod renderer;
pub mod table_decoration;
pub mod table_of_contents;
pub mod text;
