//! Front end of the Slang scripting language: error codes and diagnostics,
//! tokens, the lexer, the parser and the syntax tree it builds, semantic
//! analysis, the errors of each stage and their reporting, rules on the
//! types of literals, and the logic behind the enum helper derivations
//! (named, numeric and iterable enums).

pub mod text;
pub mod error_codes;
pub mod location;
pub mod line_info;
pub mod compiler_error;
pub mod token;
pub mod lexer_spec;
pub mod lexer;
pub mod lexer_laws;
pub mod token_printer;
pub mod parse_error;
pub mod parse_error_factory;
pub mod semantic_error;
pub mod enum_derive;
pub mod ast;
pub mod syntax;
pub mod numbers;
pub mod grammar;
pub mod parser;
pub mod analysis_error;
pub mod analysis_collector;
pub mod error_types;
pub mod type_rules;
pub mod analysis_context;
pub mod float_range;
pub mod type_system;
pub mod operations;
pub mod semantic_analyzer;
pub mod validation;
