# slang

The front end of Slang, a small statically typed scripting language, as a
library whose behaviour is stated in contracts and proved with Verus.

## Layout

- `src/` — the verified library:
  - `lexer_spec`, `lexer`, `lexer_laws`: the tokenizer, its specification
    as a step function over the source text, and what every tokenization
    satisfies (tokens in order, each the text at its offset, fit for parsing);
  - `grammar`, `parser`, `syntax`, `ast`, `numbers`: the recursive-descent
    parser, the grammar it follows, the syntax tree it builds, the symbols it
    resolves type names with, and the reading of numeric literals; type
    annotations are names, the unit type `()` or function types
    `fn(T, ..) -> R`, which the parser registers in the analysis context;
  - `analysis_context`, `semantic_analyzer`, `type_system`, `operations`,
    `validation`: semantic analysis — nested scopes of symbols, the registry
    of function and struct types, the type rules of literals and operators,
    the types of expressions, the checks of statements, and the errors a
    program yields, one per message and position;
  - `error_codes`, `compiler_error`, `line_info`, `location`: error codes,
    compiler errors and their display next to the offending source line;
  - `parse_error`, `parse_error_factory`, `semantic_error`, `error_types`,
    `analysis_error`, `analysis_collector`, `type_rules`: the errors of each
    stage, their messages, and the collector that drops duplicate errors;
  - `token`, `token_printer`: tokens and their listing;
  - `enum_derive`: the names, numbers and listings that the enum helpers
    `NamedEnum`, `NumericEnum` and `IterableEnum` give the variants of an enum;
  - `text`: strings, decimal numbers and text search.
- `app/` — terminal output (colored error reports and token listings), the
  error types with the standard error traits, and float values.
- `tests/` — tests of the library.

Line starts, and the line and column of an offset, are counted in bytes of
the UTF-8 encoding of the source. The lexer numbers token offsets by
characters (Unicode scalar values), one per character read; for ASCII
source the two agree.
