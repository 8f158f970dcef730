use grammar_gen::{BreakingChar, ExpressionFormat, GrammarGenerator};

fn bc(ch: &str, escapable: bool) -> BreakingChar {
    BreakingChar { ch: ch.to_string(), escapable }
}

fn gen(bcs: Vec<BreakingChar>) -> GrammarGenerator {
    GrammarGenerator {
        breaking_ahead_placeholder: "$A".to_string(),
        breaking_behind_placeholder: "$B".to_string(),
        word_placeholder: "$W".to_string(),
        breaking_chars: bcs,
        comments: Vec::new(),
        expressions: Vec::new(),
    }
}

#[test]
fn placeholder_free_pattern_is_unchanged() {
    let g = gen(vec![bc(".", false), bc(",", true)]);
    assert_eq!(g.expand("abc"), "abc");
    assert_eq!(g.expand(""), "");
    assert_eq!(g.expand("[a-z]+\\d*"), "[a-z]+\\d*");
}

#[test]
fn word_fragment_mixed_escapable() {
    let g = gen(vec![bc(".", false), bc(",", true)]);
    assert_eq!(g.expand("$W"), "(\\\\,|[^.,])++");
}

#[test]
fn word_fragment_no_escapable() {
    let g = gen(vec![bc(";", false)]);
    assert_eq!(g.expand("$W"), "(|[^;])++");
}

#[test]
fn word_fragment_all_escapable() {
    let g = gen(vec![bc("+", true), bc("-", true)]);
    assert_eq!(g.expand("$W"), "(\\\\+|\\\\-|[^+-])++");
}

#[test]
fn lookarounds_mirror_each_other() {
    let g = gen(vec![bc("+", false), bc("-", false)]);
    assert_eq!(g.expand("$A"), "(?=+|-)");
    assert_eq!(g.expand("$B"), "(?<=+|-)");
}

#[test]
fn lookaround_single_char() {
    let g = gen(vec![bc(";", false)]);
    assert_eq!(g.expand("$A"), "(?=;)");
    assert_eq!(g.expand("$B"), "(?<=;)");
}

#[test]
fn expands_every_occurrence() {
    let g = gen(vec![bc(";", false)]);
    assert_eq!(g.expand("$W=$W"), "(|[^;])++=(|[^;])++");
}

#[test]
fn expands_all_three_placeholders() {
    let g = gen(vec![bc(";", false)]);
    assert_eq!(g.expand("$B$W$A"), "(?<=;)(|[^;])++(?=;)");
}

#[test]
fn empty_breaking_set() {
    let g = gen(Vec::new());
    assert_eq!(g.expand("$W"), "(|[^])++");
    assert_eq!(g.expand("$A"), "(?=)");
    assert_eq!(g.expand("$B"), "(?<=)");
}

#[test]
fn placeholder_inside_literal_text_is_still_replaced() {
    let g = gen(vec![bc(";", false)]);
    assert_eq!(g.expand("ab$Wcd"), "ab(|[^;])++cd");
}

#[test]
fn empty_word_placeholder_matches_between_every_character() {
    let mut g = gen(vec![bc(".", false)]);
    g.word_placeholder = String::new();
    assert_eq!(g.expand("ab"), "(|[^.])++a(|[^.])++b(|[^.])++");
}

#[test]
fn later_passes_scan_expanded_text() {
    let mut g = gen(vec![bc(";", false)]);
    g.word_placeholder = "$W".to_string();
    g.breaking_ahead_placeholder = "[^".to_string();
    let r = g.expand("$W");
    assert_eq!(r, "(|(?=;);])++");
}

#[test]
fn rules_are_untouched_by_expand_helpers() {
    let mut g = gen(vec![bc(".", false)]);
    g.comments.push(ExpressionFormat {
        name: "c".to_string(),
        token_type: "t".to_string(),
        pattern: "p".to_string(),
    });
    assert_eq!(g.expand("x$Wy"), "x(|[^.])++y");
}
