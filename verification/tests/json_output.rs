use grammar_gen::{BreakingChar, ExpressionFormat, GrammarFile, GrammarGenerator};

fn rule(name: &str, token_type: &str, pattern: &str) -> ExpressionFormat {
    ExpressionFormat {
        name: name.to_string(),
        token_type: token_type.to_string(),
        pattern: pattern.to_string(),
    }
}

fn gen(
    bcs: Vec<BreakingChar>,
    comments: Vec<ExpressionFormat>,
    expressions: Vec<ExpressionFormat>,
) -> GrammarGenerator {
    GrammarGenerator {
        breaking_ahead_placeholder: "$A".to_string(),
        breaking_behind_placeholder: "$B".to_string(),
        word_placeholder: "$W".to_string(),
        breaking_chars: bcs,
        comments,
        expressions,
    }
}

#[test]
fn end_to_end_single_comment_rule() {
    let g = gen(
        vec![BreakingChar { ch: ";".to_string(), escapable: false }],
        vec![rule("line-comment", "comment.line", "//$W")],
        Vec::new(),
    );
    let f = GrammarFile::from(g);
    assert_eq!(f.repository.expr_formats.len(), 1);
    assert_eq!(f.repository.expr_formats[0].name, "line-comment");
    assert_eq!(f.repository.expr_formats[0].pattern, "//(|[^;])++");
    assert_eq!(f.repository.comment.patterns.len(), 1);
    assert_eq!(f.repository.comment.patterns[0].0, "line-comment");
    assert_eq!(f.repository.expression.patterns.len(), 0);
    let json = f.to_json();
    let expected = "{\"name\":\"CSCSCA\",\
\"patterns\":[{\"include\":\"#comment\"},{\"include\":\"#expression\"}],\
\"repository\":{\
\"comment\":{\"patterns\":[{\"include\":\"#line-comment\"}]},\
\"expression\":{\"patterns\":[]},\
\"line-comment\":{\"name\":\"comment.line\",\"match\":\"//(|[^;])++\"}\
},\
\"scopeName\":\"source.sca\"}";
    assert_eq!(json, expected);
}

#[test]
fn json_output_parses_and_matches_schema() {
    let g = gen(
        vec![
            BreakingChar { ch: ".".to_string(), escapable: false },
            BreakingChar { ch: ",".to_string(), escapable: true },
        ],
        vec![rule("doc", "comment.block", "/*$W*/")],
        vec![rule("ident", "variable", "$B$W$A")],
    );
    let json = GrammarFile::from(g).to_json();
    let v: serde_json::Value = serde_json::from_str(&json).unwrap();
    assert_eq!(v["name"], "CSCSCA");
    assert_eq!(v["scopeName"], "source.sca");
    assert_eq!(v["patterns"][0]["include"], "#comment");
    assert_eq!(v["patterns"][1]["include"], "#expression");
    assert_eq!(v["repository"]["comment"]["patterns"][0]["include"], "#doc");
    assert_eq!(v["repository"]["expression"]["patterns"][0]["include"], "#ident");
    assert_eq!(v["repository"]["doc"]["name"], "comment.block");
    assert_eq!(v["repository"]["doc"]["match"], "/*(\\\\,|[^.,])++*/");
    assert_eq!(v["repository"]["ident"]["name"], "variable");
    assert_eq!(v["repository"]["ident"]["match"], "(?<=.|,)(\\\\,|[^.,])++(?=.|,)");
}

#[test]
fn json_escapes_quotes_and_backslashes() {
    let g = gen(
        vec![BreakingChar { ch: "\"".to_string(), escapable: true }],
        vec![rule("q", "to\"ken", "$W")],
        Vec::new(),
    );
    let f = GrammarFile::from(g);
    assert_eq!(f.repository.expr_formats[0].pattern, "(\\\\\"|[^\"])++");
    let json = f.to_json();
    let v: serde_json::Value = serde_json::from_str(&json).unwrap();
    assert_eq!(v["repository"]["q"]["name"], "to\"ken");
    assert_eq!(v["repository"]["q"]["match"], "(\\\\\"|[^\"])++");
}

#[test]
fn json_escapes_control_characters() {
    let g = gen(
        Vec::new(),
        vec![rule("nl", "token", "a\nb\tc\u{1f}d")],
        Vec::new(),
    );
    let json = GrammarFile::from(g).to_json();
    assert!(json.contains("a\\nb\\tc\\u001fd"));
    let v: serde_json::Value = serde_json::from_str(&json).unwrap();
    assert_eq!(v["repository"]["nl"]["match"], "a\nb\tc\u{1f}d");
}

#[test]
fn rule_named_comment_overwrites_the_include_list() {
    let g = gen(
        Vec::new(),
        vec![rule("comment", "token", "x")],
        Vec::new(),
    );
    let json = GrammarFile::from(g).to_json();
    let v: serde_json::Value = serde_json::from_str(&json).unwrap();
    assert_eq!(v["repository"]["comment"]["name"], "token");
    assert_eq!(v["repository"]["comment"]["match"], "x");
    assert!(v["repository"]["comment"].get("patterns").is_none());
    assert!(v["repository"]["expression"].get("patterns").is_some());
}

#[test]
fn empty_specification_renders_empty_lists() {
    let g = gen(Vec::new(), Vec::new(), Vec::new());
    let json = GrammarFile::from(g).to_json();
    let expected = "{\"name\":\"CSCSCA\",\
\"patterns\":[{\"include\":\"#comment\"},{\"include\":\"#expression\"}],\
\"repository\":{\
\"comment\":{\"patterns\":[]},\
\"expression\":{\"patterns\":[]}\
},\
\"scopeName\":\"source.sca\"}";
    assert_eq!(json, expected);
}
