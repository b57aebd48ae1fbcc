pub mod normalize;
pub mod scalar;
pub mod floatsyn;
pub mod record;
pub mod xml;
pub mod error;
pub mod parser;
pub mod merge;
