//! A data model for rich, structured chat text: namespaced identifiers,
//! palette and hex colors, and a tree of styled component variants, together
//! with a verified mapping between component trees and a JSON-like wire form.

pub mod text;
pub mod identifier;
pub mod color;
pub mod json;
pub mod component;
pub mod codec;
pub mod roundtrip;
pub mod render;
