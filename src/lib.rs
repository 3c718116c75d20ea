pub mod description;
pub mod grammar;
pub mod icon;
pub mod laws;
pub mod model;
pub mod outside;
pub mod png;
pub mod text;

pub use description::parse_description;
pub use grammar::parse_metadata;
pub use icon::parse;
pub use model::{Delay, Dmi, FormatError, IconFile, IconState};
