//! Generator for a TextMate-style syntax-highlighting grammar: a compact
//! specification of breaking characters and named lexical rules is expanded,
//! placeholder by placeholder, into concrete regular expressions, assembled
//! into a cross-referenced grammar document, and rendered as JSON text.

mod assemble;
mod expand;
mod laws;
mod model;
mod render;
mod replace;

pub use assemble::{
    all_rules, include_names, is_assembled, last_pattern_upto, last_token_type_upto, names_of,
    repo_keys, repo_keys_upto, repo_matches_upto, lemma_repo_keys_distinct,
    lemma_repo_keys_membership,
};
pub use expand::{
    ahead_fragment, alt_upto, behind_fragment, breaking_alt, class_chars, class_chars_upto,
    escaped_alt, escaped_alt_upto, has_escapable_upto, non_breaking_class, spec_expand,
    word_fragment,
};
pub use laws::{
    lemma_collision_expression_wins, lemma_expand_no_placeholders, lemma_lookaround_mirror,
    lemma_reference_integrity, lemma_replace_absent, repo_has_key,
};
pub use model::{BreakingChar, ExpressionFormat, GrammarFile, GrammarGenerator, Include, Patterns, Repository};
pub use render::{
    escape_char, escape_str, escape_upto, fixed_parts, has_rule_named, hex_digit, includes_upto,
    join_comma_upto, json_str, render_include, render_include_array, render_patterns_obj,
    render_repository, render_rule, rendered_parts, rule_parts, spec_grammar_json, views_of,
};
pub use replace::{contains_pat, occurs_at, replace, replace_all};
