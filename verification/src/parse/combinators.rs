pub mod parentheses;
pub mod trim;
pub mod whitespace;
