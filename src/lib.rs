//! A scanner and a recursive-descent parser for a small arithmetic
//! expression language: identifiers, integer literals in four bases, the
//! operators `+ - * /`, the comparisons `==` and `!=`, and `;` as the
//! statement terminator.
pub mod cursor;
pub mod token;
pub mod scan;
pub mod lexer;
pub mod ast;
pub mod parser;
pub mod laws;
