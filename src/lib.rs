//! Window commands of a GUI toolkit, with the transformation of their results
//! and their diagnostic text, specified and proved.

pub mod decimal;
pub mod window;
