use vstd::prelude::*;

verus! {

/// Whether the registry supports the file at this path: it recognizes the
/// `.rs` extension of Rust sources.
pub open spec fn supports_path(path: Seq<char>) -> bool {
    path.len() >= 3 && path[path.len() - 3] == '.' && path[path.len() - 2] == 'r' && path[path.len()
        - 1] == 's'
}

/// The registry's highlight query for Rust syntax trees: it tags the node
/// kinds of the grammar with the capture vocabulary the classification table
/// knows.
pub open spec fn rust_query() -> Seq<char> {
    "(line_comment) @comment (block_comment) @comment (string_literal) @string (char_literal) @character (integer_literal) @number (float_literal) @float (type_identifier) @type (primitive_type) @type (field_identifier) @property (identifier) @variable"@
}

/// The registry's query text for Rust sources, as executable text.
pub fn rust_query_text() -> (r: &'static str)
    ensures
        r@ == rust_query(),
{
    "(line_comment) @comment (block_comment) @comment (string_literal) @string (char_literal) @character (integer_literal) @number (float_literal) @float (type_identifier) @type (primitive_type) @type (field_identifier) @property (identifier) @variable"
}

/// The static language registry: the companion highlight-query text for a
/// supported file path, nothing for any other. The grammar itself is a fixed
/// constant that the trusted query runners build.
pub fn get_language(path: &str) -> (r: Option<&'static str>)
    ensures
        (r is Some) == supports_path(path@),
        r matches Some(t) ==> t@ == rust_query(),
{
    let n = path.unicode_len();
    if n >= 3 && path.get_char(n - 3) == '.' && path.get_char(n - 2) == 'r' && path.get_char(
        n - 1,
    ) == 's' {
        Option::Some(rust_query_text())
    } else {
        Option::None
    }
}

} // verus!
