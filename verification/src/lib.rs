//! Reading and writing lines of the Universal Chess Interface protocol.
//!
//! A line is split into tokens at spaces and tabs; the commands that a
//! graphical interface sends to an engine (`UciIn`) and the answers that an
//! engine sends back (`UciOut`) are parsed from such lines and printed back
//! into them.

pub mod tokens;
pub mod line_break;
pub mod numbers;
pub mod chess;
pub mod types;
pub mod parser;
pub mod render;
pub mod text_lemmas;
pub mod readback;
pub mod laws;
pub mod info_laws;
pub mod option_laws;
pub mod answer_laws;
pub mod word_laws;
