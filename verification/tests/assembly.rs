use grammar_gen::{BreakingChar, ExpressionFormat, GrammarFile, GrammarGenerator};

fn rule(name: &str, token_type: &str, pattern: &str) -> ExpressionFormat {
    ExpressionFormat {
        name: name.to_string(),
        token_type: token_type.to_string(),
        pattern: pattern.to_string(),
    }
}

fn gen(
    bcs: Vec<BreakingChar>,
    comments: Vec<ExpressionFormat>,
    expressions: Vec<ExpressionFormat>,
) -> GrammarGenerator {
    GrammarGenerator {
        breaking_ahead_placeholder: "$A".to_string(),
        breaking_behind_placeholder: "$B".to_string(),
        word_placeholder: "$W".to_string(),
        breaking_chars: bcs,
        comments,
        expressions,
    }
}

fn semicolon() -> Vec<BreakingChar> {
    vec![BreakingChar { ch: ";".to_string(), escapable: false }]
}

#[test]
fn top_level_shape_is_fixed() {
    let g = gen(semicolon(), Vec::new(), Vec::new());
    let f = GrammarFile::from(g);
    assert_eq!(f.name, "CSCSCA");
    assert_eq!(f.scope_name, "source.sca");
    assert_eq!(f.patterns.len(), 2);
    assert_eq!(f.patterns[0].0, "comment");
    assert_eq!(f.patterns[1].0, "expression");
}

#[test]
fn top_level_shape_ignores_content() {
    let g = gen(
        Vec::new(),
        vec![rule("a", "t1", "x"), rule("b", "t2", "y")],
        vec![rule("c", "t3", "z")],
    );
    let f = GrammarFile::from(g);
    assert_eq!(f.name, "CSCSCA");
    assert_eq!(f.scope_name, "source.sca");
    assert_eq!(f.patterns.len(), 2);
    assert_eq!(f.patterns[0].0, "comment");
    assert_eq!(f.patterns[1].0, "expression");
}

#[test]
fn reference_lists_preserve_order() {
    let g = gen(
        semicolon(),
        vec![rule("c1", "t", "x"), rule("c2", "t", "y"), rule("c3", "t", "z")],
        vec![rule("e1", "t", "x"), rule("e2", "t", "y")],
    );
    let f = GrammarFile::from(g);
    let cs: Vec<&str> = f.repository.comment.patterns.iter().map(|i| i.0.as_str()).collect();
    assert_eq!(cs, ["c1", "c2", "c3"]);
    let es: Vec<&str> = f.repository.expression.patterns.iter().map(|i| i.0.as_str()).collect();
    assert_eq!(es, ["e1", "e2"]);
}

#[test]
fn reference_lists_preserve_permuted_order() {
    let g = gen(
        semicolon(),
        vec![rule("c3", "t", "x"), rule("c1", "t", "y"), rule("c2", "t", "z")],
        vec![rule("e2", "t", "x"), rule("e1", "t", "y")],
    );
    let f = GrammarFile::from(g);
    let cs: Vec<&str> = f.repository.comment.patterns.iter().map(|i| i.0.as_str()).collect();
    assert_eq!(cs, ["c3", "c1", "c2"]);
    let es: Vec<&str> = f.repository.expression.patterns.iter().map(|i| i.0.as_str()).collect();
    assert_eq!(es, ["e2", "e1"]);
}

#[test]
fn repository_entries_hold_expanded_patterns() {
    let g = gen(
        semicolon(),
        vec![rule("line-comment", "comment.line", "//$W")],
        vec![rule("word", "keyword", "$B$W$A")],
    );
    let f = GrammarFile::from(g);
    assert_eq!(f.repository.expr_formats.len(), 2);
    assert_eq!(f.repository.expr_formats[0].name, "line-comment");
    assert_eq!(f.repository.expr_formats[0].token_type, "comment.line");
    assert_eq!(f.repository.expr_formats[0].pattern, "//(|[^;])++");
    assert_eq!(f.repository.expr_formats[1].name, "word");
    assert_eq!(f.repository.expr_formats[1].token_type, "keyword");
    assert_eq!(f.repository.expr_formats[1].pattern, "(?<=;)(|[^;])++(?=;)");
}

#[test]
fn every_reference_resolves_in_repository() {
    let g = gen(
        semicolon(),
        vec![rule("c1", "t", "x"), rule("c2", "t", "y")],
        vec![rule("e1", "t", "z")],
    );
    let f = GrammarFile::from(g);
    for inc in f.repository.comment.patterns.iter().chain(f.repository.expression.patterns.iter())
    {
        assert!(f.repository.expr_formats.iter().any(|ef| ef.name == inc.0));
    }
}

#[test]
fn colliding_names_keep_one_entry_and_the_last_rule_wins() {
    let g = gen(
        semicolon(),
        vec![rule("shared", "comment.token", "c$W")],
        vec![rule("shared", "expression.token", "e$W")],
    );
    let f = GrammarFile::from(g);
    let hits: Vec<&ExpressionFormat> =
        f.repository.expr_formats.iter().filter(|ef| ef.name == "shared").collect();
    assert_eq!(hits.len(), 1);
    assert_eq!(hits[0].token_type, "expression.token");
    assert_eq!(hits[0].pattern, "e(|[^;])++");
    assert_eq!(f.repository.expr_formats.len(), 1);
}

#[test]
fn colliding_comment_names_keep_the_later_comment() {
    let g = gen(
        semicolon(),
        vec![rule("dup", "first", "a"), rule("dup", "second", "b"), rule("other", "t", "c")],
        Vec::new(),
    );
    let f = GrammarFile::from(g);
    assert_eq!(f.repository.expr_formats.len(), 2);
    assert_eq!(f.repository.expr_formats[0].name, "dup");
    assert_eq!(f.repository.expr_formats[0].token_type, "second");
    assert_eq!(f.repository.expr_formats[0].pattern, "b");
    assert_eq!(f.repository.expr_formats[1].name, "other");
}
