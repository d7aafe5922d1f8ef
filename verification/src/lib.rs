//! A browser for the wands left behind in save-game records.
//!
//! - [`markup`] holds the tree of a document, and [`xml`] reads a text
//!   into it.
//! - [`numeric`] and [`text`] read the values of attributes.
//! - [`translation`] holds the display texts of the spells.
//! - [`models`] holds the wands and reads them from records.
//! - [`navigation`] is the state machine of the two screens.

pub mod error;
pub mod markup;
pub mod models;
pub mod navigation;
pub mod numeric;
pub mod text;
pub mod translation;
pub mod xml;
