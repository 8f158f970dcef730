use vstd::prelude::*;
use vstd::string::*;

use crate::assemble::include_names;
use crate::model::{ExpressionFormat, GrammarFile, Include, Patterns, Repository};
use crate::replace::push_char;

verus! {

/// The lower-case hexadecimal digit for a value below sixteen.
pub open spec fn hex_digit(n: int) -> char {
    if n == 0 {
        '0'
    } else if n == 1 {
        '1'
    } else if n == 2 {
        '2'
    } else if n == 3 {
        '3'
    } else if n == 4 {
        '4'
    } else if n == 5 {
        '5'
    } else if n == 6 {
        '6'
    } else if n == 7 {
        '7'
    } else if n == 8 {
        '8'
    } else if n == 9 {
        '9'
    } else if n == 10 {
        'a'
    } else if n == 11 {
        'b'
    } else if n == 12 {
        'c'
    } else if n == 13 {
        'd'
    } else if n == 14 {
        'e'
    } else {
        'f'
    }
}

/// How one character is written inside a JSON string literal: quotes and
/// backslashes gain a backslash, control characters take their short escape
/// or a `\u00..` form, everything else stands as itself.
pub open spec fn escape_char(c: char) -> Seq<char> {
    if c == '"' {
        "\\\""@
    } else if c == '\\' {
        "\\\\"@
    } else if c == '\n' {
        "\\n"@
    } else if c == '\r' {
        "\\r"@
    } else if c == '\t' {
        "\\t"@
    } else if c == '\u{8}' {
        "\\b"@
    } else if c == '\u{c}' {
        "\\f"@
    } else if (c as u32) < 32 {
        "\\u00"@ + seq![
            hex_digit(((c as u32) / 16) as int),
            hex_digit(((c as u32) % 16) as int),
        ]
    } else {
        seq![c]
    }
}

pub open spec fn escape_upto(s: Seq<char>, n: int) -> Seq<char>
    decreases n,
{
    if n <= 0 {
        Seq::empty()
    } else {
        escape_upto(s, n - 1) + escape_char(s[n - 1])
    }
}

/// The body of the JSON string literal for `s`.
pub open spec fn escape_str(s: Seq<char>) -> Seq<char> {
    escape_upto(s, s.len() as int)
}

/// The complete JSON string literal for `s`, quotes included.
pub open spec fn json_str(s: Seq<char>) -> Seq<char> {
    "\""@ + escape_str(s) + "\""@
}

/// A reference serializes as a single-entry object whose "include" key
/// holds the name prefixed by `#`.
pub open spec fn render_include(name: Seq<char>) -> Seq<char> {
    "{\"include\":\"#"@ + escape_str(name) + "\"}"@
}

pub open spec fn includes_upto(names: Seq<Seq<char>>, n: int) -> Seq<char>
    decreases n,
{
    if n <= 0 {
        Seq::empty()
    } else if n == 1 {
        render_include(names[0])
    } else {
        includes_upto(names, n - 1) + ","@ + render_include(names[n - 1])
    }
}

/// A JSON array of references, in order.
pub open spec fn render_include_array(names: Seq<Seq<char>>) -> Seq<char> {
    "["@ + includes_upto(names, names.len() as int) + "]"@
}

/// An ordered reference list serializes under a fixed "patterns" key.
pub open spec fn render_patterns_obj(names: Seq<Seq<char>>) -> Seq<char> {
    "{\"patterns\":"@ + render_include_array(names) + "}"@
}

/// A rule entry holds its token type under "name" and its expanded pattern
/// under "match".
pub open spec fn render_rule(token_type: Seq<char>, pattern: Seq<char>) -> Seq<char> {
    "{\"name\":"@ + json_str(token_type) + ",\"match\":"@ + json_str(pattern) + "}"@
}

/// Some rule in the list carries this name.
pub open spec fn has_rule_named(ex: Seq<ExpressionFormat>, name: Seq<char>) -> bool {
    exists|i: int| 0 <= i < ex.len() && (#[trigger] ex[i]).name@ == name
}

pub open spec fn views_of(ss: Seq<String>) -> Seq<Seq<char>> {
    ss.map(|i: int, s: String| s@)
}

/// The repository members rendered one by one: every rule entry, keyed by
/// its name.
pub open spec fn rule_parts(ex: Seq<ExpressionFormat>) -> Seq<Seq<char>> {
    ex.map(
        |i: int, ef: ExpressionFormat| json_str(ef.name@) + ":"@ + render_rule(
            ef.token_type@,
            ef.pattern@,
        ),
    )
}

/// The two fixed include-list members of the repository.  A rule that takes
/// the very key "comment" or "expression" overwrites the include-list of
/// that name, so the list is left out then.
pub open spec fn fixed_parts(r: Repository) -> Seq<Seq<char>> {
    let c: Seq<Seq<char>> = if !has_rule_named(r.expr_formats@, "comment"@) {
        seq!["\"comment\":"@ + render_patterns_obj(include_names(r.comment.patterns@))]
    } else {
        Seq::empty()
    };
    let e: Seq<Seq<char>> = if !has_rule_named(r.expr_formats@, "expression"@) {
        seq!["\"expression\":"@ + render_patterns_obj(include_names(r.expression.patterns@))]
    } else {
        Seq::empty()
    };
    c + e
}

pub open spec fn rendered_parts(r: Repository) -> Seq<Seq<char>> {
    fixed_parts(r) + rule_parts(r.expr_formats@)
}

pub open spec fn join_comma_upto(parts: Seq<Seq<char>>, n: int) -> Seq<char>
    decreases n,
{
    if n <= 0 {
        Seq::empty()
    } else if n == 1 {
        parts[0]
    } else {
        join_comma_upto(parts, n - 1) + ","@ + parts[n - 1]
    }
}

/// The repository as a JSON object: its members joined by commas.
pub open spec fn render_repository(r: Repository) -> Seq<char> {
    "{"@ + join_comma_upto(rendered_parts(r), rendered_parts(r).len() as int) + "}"@
}

/// The whole output document as compact JSON text.
pub open spec fn spec_grammar_json(f: GrammarFile) -> Seq<char> {
    "{\"name\":"@ + json_str(f.name@) + ",\"patterns\":"@ + render_include_array(
        include_names(f.patterns@),
    ) + ",\"repository\":"@ + render_repository(f.repository) + ",\"scopeName\":"@ + json_str(
        f.scope_name@,
    ) + "}"@
}

fn hex_char(n: u8) -> (c: char)
    requires
        n < 16,
    ensures
        c == hex_digit(n as int),
{
    if n == 0 {
        '0'
    } else if n == 1 {
        '1'
    } else if n == 2 {
        '2'
    } else if n == 3 {
        '3'
    } else if n == 4 {
        '4'
    } else if n == 5 {
        '5'
    } else if n == 6 {
        '6'
    } else if n == 7 {
        '7'
    } else if n == 8 {
        '8'
    } else if n == 9 {
        '9'
    } else if n == 10 {
        'a'
    } else if n == 11 {
        'b'
    } else if n == 12 {
        'c'
    } else if n == 13 {
        'd'
    } else if n == 14 {
        'e'
    } else {
        'f'
    }
}

fn append_escaped_char(out: &mut String, c: char)
    ensures
        final(out)@ == old(out)@ + escape_char(c),
{
    if c == '"' {
        out.append("\\\"");
    } else if c == '\\' {
        out.append("\\\\");
    } else if c == '\n' {
        out.append("\\n");
    } else if c == '\r' {
        out.append("\\r");
    } else if c == '\t' {
        out.append("\\t");
    } else if c == '\u{8}' {
        out.append("\\b");
    } else if c == '\u{c}' {
        out.append("\\f");
    } else if (c as u32) < 32 {
        out.append("\\u00");
        let code = c as u32;
        push_char(out, hex_char((code / 16) as u8));
        push_char(out, hex_char((code % 16) as u8));
        proof {
            assert(out@ =~= old(out)@ + escape_char(c));
        }
    } else {
        push_char(out, c);
    }
}

/// Append the escaped body of a JSON string literal.
fn append_escaped(out: &mut String, s: &str)
    ensures
        final(out)@ == old(out)@ + escape_str(s@),
{
    let n = s.unicode_len();
    let mut i: usize = 0;
    while i < n
        invariant
            i <= n,
            n == s@.len(),
            out@ == old(out)@ + escape_upto(s@, i as int),
        decreases n - i,
    {
        append_escaped_char(out, s.get_char(i));
        i += 1;
    }
}

/// Append the complete JSON string literal for `s`.
fn append_json_str(out: &mut String, s: &str)
    ensures
        final(out)@ == old(out)@ + json_str(s@),
{
    out.append("\"");
    append_escaped(out, s);
    out.append("\"");
    proof {
        assert(out@ =~= old(out)@ + json_str(s@));
    }
}

/// Append one rendered reference object.
fn append_include(out: &mut String, inc: &Include)
    ensures
        final(out)@ == old(out)@ + render_include(inc.0@),
{
    out.append("{\"include\":\"#");
    append_escaped(out, inc.0.as_str());
    out.append("\"}");
    proof {
        assert(out@ =~= old(out)@ + render_include(inc.0@));
    }
}

/// Append the JSON array holding one reference object per list entry.
fn append_include_array(out: &mut String, incs: &Vec<Include>)
    ensures
        final(out)@ == old(out)@ + render_include_array(include_names(incs@)),
{
    out.append("[");
    let ghost names = include_names(incs@);
    let mut i: usize = 0;
    while i < incs.len()
        invariant
            i <= incs@.len(),
            names == include_names(incs@),
            out@ == old(out)@ + "["@ + includes_upto(names, i as int),
        decreases incs@.len() - i,
    {
        if i > 0 {
            out.append(",");
        }
        append_include(out, &incs[i]);
        proof {
            assert(names[i as int] == incs@[i as int].0@);
            assert(out@ =~= old(out)@ + "["@ + includes_upto(names, i as int + 1));
        }
        i += 1;
    }
    out.append("]");
    proof {
        assert(out@ =~= old(out)@ + render_include_array(include_names(incs@)));
    }
}

/// Append the object that carries an ordered reference list.
fn append_patterns_obj(out: &mut String, p: &Patterns)
    ensures
        final(out)@ == old(out)@ + render_patterns_obj(include_names(p.patterns@)),
{
    out.append("{\"patterns\":");
    append_include_array(out, &p.patterns);
    out.append("}");
    proof {
        assert(out@ =~= old(out)@ + render_patterns_obj(include_names(p.patterns@)));
    }
}

/// Whether some rule carries this name.
fn contains_name(v: &Vec<ExpressionFormat>, name: &String) -> (b: bool)
    ensures
        b == has_rule_named(v@, name@),
{
    let mut j: usize = 0;
    while j < v.len()
        invariant
            j <= v@.len(),
            forall|k: int| 0 <= k < j ==> (#[trigger] v@[k]).name@ != name@,
        decreases v@.len() - j,
    {
        if v[j].name == *name {
            return true;
        }
        j += 1;
    }
    false
}

/// Append the repository object: the two include-lists (unless a rule name
/// overwrites them) followed by every rule entry, joined by commas.
fn append_repository(out: &mut String, r: &Repository)
    ensures
        final(out)@ == old(out)@ + render_repository(*r),
{
    let ghost parts = rendered_parts(*r);
    let mut members: Vec<String> = Vec::new();
    let comment_key = String::from_str("comment");
    let expression_key = String::from_str("expression");
    let hc = contains_name(&r.expr_formats, &comment_key);
    let he = contains_name(&r.expr_formats, &expression_key);
    if !hc {
        let mut p = String::from_str("\"comment\":");
        append_patterns_obj(&mut p, &r.comment);
        members.push(p);
    }
    if !he {
        let mut p = String::from_str("\"expression\":");
        append_patterns_obj(&mut p, &r.expression);
        members.push(p);
    }
    let ghost f = fixed_parts(*r).len();
    proof {
        assert(members@.len() == f);
        assert(forall|k: int| 0 <= k < f ==> views_of(members@)[k] == fixed_parts(*r)[k]);
    }
    let mut i: usize = 0;
    while i < r.expr_formats.len()
        invariant
            i <= r.expr_formats@.len(),
            parts == rendered_parts(*r),
            f == fixed_parts(*r).len(),
            members@.len() == f + i,
            forall|k: int| 0 <= k < f + i ==> views_of(members@)[k] == parts[k],
        decreases r.expr_formats@.len() - i,
    {
        let ef = &r.expr_formats[i];
        let mut p = String::new();
        append_json_str(&mut p, ef.name.as_str());
        p.append(":");
        p.append("{\"name\":");
        append_json_str(&mut p, ef.token_type.as_str());
        p.append(",\"match\":");
        append_json_str(&mut p, ef.pattern.as_str());
        p.append("}");
        proof {
            assert(p@ =~= json_str(ef.name@) + ":"@ + render_rule(ef.token_type@, ef.pattern@));
            assert(rule_parts(r.expr_formats@)[i as int] == json_str(ef.name@) + ":"@ + render_rule(
                ef.token_type@,
                ef.pattern@,
            ));
            assert(parts[f + i as int] == rule_parts(r.expr_formats@)[i as int]);
        }
        members.push(p);
        i += 1;
    }
    proof {
        assert(views_of(members@) =~= parts);
    }
    out.append("{");
    let mut j: usize = 0;
    while j < members.len()
        invariant
            j <= members@.len(),
            parts == views_of(members@),
            out@ == old(out)@ + "{"@ + join_comma_upto(parts, j as int),
        decreases members@.len() - j,
    {
        if j > 0 {
            out.append(",");
        }
        out.append(members[j].as_str());
        proof {
            assert(views_of(members@)[j as int] == members@[j as int]@);
            assert(out@ =~= old(out)@ + "{"@ + join_comma_upto(parts, j as int + 1));
        }
        j += 1;
    }
    out.append("}");
    proof {
        assert(out@ =~= old(out)@ + render_repository(*r));
    }
}

impl GrammarFile {
    /// Serialize the assembled document to the external JSON shape, in one
    /// compact object with the fields name, patterns, repository, scopeName.
    pub fn to_json(&self) -> (r: String)
        ensures
            r@ == spec_grammar_json(*self),
    {
        let mut out = String::from_str("{\"name\":");
        append_json_str(&mut out, self.name.as_str());
        out.append(",\"patterns\":");
        append_include_array(&mut out, &self.patterns);
        out.append(",\"repository\":");
        append_repository(&mut out, &self.repository);
        out.append(",\"scopeName\":");
        append_json_str(&mut out, self.scope_name.as_str());
        out.append("}");
        proof {
            assert(out@ =~= spec_grammar_json(*self));
        }
        out
    }
}

} // verus!
