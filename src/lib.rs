//! Reference documentation for JSON-Schema-shaped documents: a typed
//! property model and a renderer that turns it into markdown lines.
pub mod laws;
pub mod order;
pub mod render;
pub mod schema;

pub use order::{lex_less, lex_lt};
pub use render::{render, MarkdownWriter};
pub use schema::{
    ArrayProperty, BooleanProperty, IntegerProperty, ObjectProperty, Property, PropertyMap,
    PropertyOrReference, Reference, Schema, StringProperty,
};
