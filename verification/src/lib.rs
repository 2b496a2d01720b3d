//! Interactive streaming rewrite of a structured localization document.
//!
//! The library walks a stream of structural events taken from a tagged
//! document, passes every non-translatable event through unchanged, and
//! replaces the text of each translatable element (`<String Key="..">`)
//! according to an operator decision.  The surrounding program supplies
//! the event stream, the machine-translation candidates and the operator
//! input; everything the library decides is verified.

pub mod anchor;
pub mod driver;
pub mod event;
pub mod laws;
pub mod model;
pub mod prompt;
pub mod render;
pub mod rewrite_error;

pub use event::Attr;
pub use event::AttrView;
pub use event::EventView;
pub use event::StructuralEvent;
