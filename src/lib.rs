
pub mod model;
pub mod parser;

pub use parser::{Error, Locale};
