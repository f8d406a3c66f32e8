//! Terminal text styling: ANSI SGR escape sequences for colors and text
//! attributes, composed through a copyable [`Style`] value, together with
//! gradient and rainbow text effects and the pure parts of line prompts.
//!
//! Every function is verified against a model in which a string is the
//! sequence of its characters.

pub mod fancy;
pub mod input;
pub mod style;
pub mod text;

pub use crate::fancy::rainbowify;
pub use crate::style::{Color, Style};
