pub mod block;
pub mod builtin;
pub mod context;
pub mod error;
pub mod evaluate;
pub mod function;
pub mod runtime;
pub mod utils;
pub mod value;

pub use error::SplashRuntimeError;
pub use runtime::Runtime;
pub use value::Value;
