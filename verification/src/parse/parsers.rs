pub mod atom;
pub mod comment;
pub mod block;
pub mod expression;
pub mod identifier;
pub mod keyword;
pub mod literal;
pub mod operation;
pub mod operator;
pub mod program;
pub mod statement;
