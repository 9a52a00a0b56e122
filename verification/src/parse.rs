pub mod combinators;
pub mod error;
pub mod parsers;
pub mod splash;

pub use error::SplashParseError;
pub use splash::SplashParser;
