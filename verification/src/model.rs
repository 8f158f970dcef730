use vstd::prelude::*;

verus! {

/// One character (or character-class fragment) that ends a word token.
pub struct BreakingChar {
    /// The regex-safe literal or class fragment standing for the character.
    pub ch: String,
    /// Whether a backslash-escaped occurrence still counts as word content
    /// rather than as a breaking point.
    pub escapable: bool,
}

/// One named lexical rule: a unique name, a semantic token-type tag, and a
/// raw match pattern that may contain placeholder tokens.
pub struct ExpressionFormat {
    pub name: String,
    pub token_type: String,
    pub pattern: String,
}

/// The author's whole input: the three placeholder tokens, the ordered set
/// of breaking characters, and the two ordered rule lists.
pub struct GrammarGenerator {
    pub breaking_ahead_placeholder: String,
    pub breaking_behind_placeholder: String,
    pub word_placeholder: String,
    pub breaking_chars: Vec<BreakingChar>,
    pub comments: Vec<ExpressionFormat>,
    pub expressions: Vec<ExpressionFormat>,
}

/// A reference to a repository entry by bare name; it is written to the
/// output as a single-entry object whose "include" key holds `#` + name.
pub struct Include(pub String);

/// An ordered list of references, written under a "patterns" key.
pub struct Patterns {
    pub patterns: Vec<Include>,
}

/// The named map section of the output document: the two include-lists and
/// one fully expanded entry per distinct rule name.
pub struct Repository {
    pub comment: Patterns,
    pub expression: Patterns,
    pub expr_formats: Vec<ExpressionFormat>,
}

/// The fully expanded output document.
pub struct GrammarFile {
    pub name: String,
    pub patterns: Vec<Include>,
    pub repository: Repository,
    pub scope_name: String,
}

} // verus!
