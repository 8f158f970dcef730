use vstd::prelude::*;

use crate::assemble::{
    all_rules, include_names, is_assembled, last_pattern_upto, last_token_type_upto,
    lemma_repo_keys_distinct, lemma_repo_keys_membership, names_of, repo_keys,
};
use crate::expand::{ahead_fragment, behind_fragment, breaking_alt, spec_expand, word_fragment};
use crate::model::{BreakingChar, ExpressionFormat, GrammarFile, GrammarGenerator, Repository};
use crate::render::has_rule_named;
use crate::replace::{contains_pat, occurs_at, replace_all};

verus! {

/// Replacing a pattern that occurs nowhere in a string leaves the string
/// unchanged.
pub proof fn lemma_replace_absent(s: Seq<char>, pat: Seq<char>, to: Seq<char>)
    requires
        !contains_pat(s, pat),
    ensures
        replace_all(s, pat, to) == s,
    decreases s.len(),
{
    if pat.len() == 0 {
        assert(s.subrange(0, 0) =~= pat);
        assert(occurs_at(s, pat, 0));
    }
    if s.len() > 0 {
        if pat.len() <= s.len() && s.subrange(0, pat.len() as int) == pat {
            assert(occurs_at(s, pat, 0));
        }
        assert(!contains_pat(s.drop_first(), pat)) by {
            if contains_pat(s.drop_first(), pat) {
                let i = choose|i: int| occurs_at(s.drop_first(), pat, i);
                assert(s.subrange(i + 1, i + 1 + pat.len() as int) =~= s.drop_first().subrange(
                    i,
                    i + pat.len() as int,
                ));
                assert(occurs_at(s, pat, i + 1));
            }
        }
        lemma_replace_absent(s.drop_first(), pat, to);
        assert(seq![s[0]] + s.drop_first() =~= s);
    }
}

/// A match pattern that contains none of the three placeholder tokens is
/// returned unchanged by expansion, whatever the breaking set is.
pub proof fn lemma_expand_no_placeholders(g: GrammarGenerator, p: Seq<char>)
    requires
        !contains_pat(p, g.word_placeholder@),
        !contains_pat(p, g.breaking_behind_placeholder@),
        !contains_pat(p, g.breaking_ahead_placeholder@),
    ensures
        spec_expand(g, p) == p,
{
    lemma_replace_absent(p, g.word_placeholder@, word_fragment(g.breaking_chars@));
    lemma_replace_absent(p, g.breaking_behind_placeholder@, behind_fragment(g.breaking_chars@));
    lemma_replace_absent(p, g.breaking_ahead_placeholder@, ahead_fragment(g.breaking_chars@));
}

/// The two lookaround fragments are mirror images: a zero-width lookahead
/// and lookbehind wrapped around the identical breaking alternation, for
/// every breaking set.
pub proof fn lemma_lookaround_mirror(bcs: Seq<BreakingChar>)
    ensures
        ahead_fragment(bcs) == "(?="@ + breaking_alt(bcs) + ")"@,
        behind_fragment(bcs) == "(?<="@ + breaking_alt(bcs) + ")"@,
{
}

/// A name resolves in the repository: it is one of the two fixed
/// include-list keys, or some rule entry carries it.
pub open spec fn repo_has_key(r: Repository, name: Seq<char>) -> bool {
    name == "comment"@ || name == "expression"@ || has_rule_named(r.expr_formats@, name)
}

/// Every name referenced from the top-level pattern list and from the two
/// include-lists of an assembled document resolves to a repository key.
pub proof fn lemma_reference_integrity(g: GrammarGenerator, r: GrammarFile)
    requires
        is_assembled(g, r),
    ensures
        forall|i: int|
            0 <= i < r.patterns@.len() ==> repo_has_key(
                r.repository,
                (#[trigger] r.patterns@[i]).0@,
            ),
        forall|i: int|
            0 <= i < r.repository.comment.patterns@.len() ==> repo_has_key(
                r.repository,
                (#[trigger] r.repository.comment.patterns@[i]).0@,
            ),
        forall|i: int|
            0 <= i < r.repository.expression.patterns@.len() ==> repo_has_key(
                r.repository,
                (#[trigger] r.repository.expression.patterns@[i]).0@,
            ),
{
    let all = all_rules(g);
    let ex = r.repository.expr_formats@;
    let clen = g.comments@.len() as int;
    assert forall|i: int|
        0 <= i < r.repository.comment.patterns@.len() implies repo_has_key(
        r.repository,
        (#[trigger] r.repository.comment.patterns@[i]).0@,
    ) by {
        let name = r.repository.comment.patterns@[i].0@;
        assert(include_names(r.repository.comment.patterns@).len()
            == r.repository.comment.patterns@.len());
        assert(names_of(g.comments@).len() == g.comments@.len());
        assert(include_names(r.repository.comment.patterns@)[i] == name);
        assert(names_of(g.comments@)[i] == g.comments@[i].name@);
        assert(all[i] == g.comments@[i]);
        assert(all[i].name@ == name);
        lemma_repo_keys_membership(all, all.len() as int, name);
        let j = choose|j: int|
            0 <= j < repo_keys(all).len() && #[trigger] repo_keys(all)[j] == name;
        assert(names_of(ex)[j] == ex[j].name@);
        assert(has_rule_named(ex, name));
    }
    assert forall|i: int|
        0 <= i < r.repository.expression.patterns@.len() implies repo_has_key(
        r.repository,
        (#[trigger] r.repository.expression.patterns@[i]).0@,
    ) by {
        let name = r.repository.expression.patterns@[i].0@;
        assert(include_names(r.repository.expression.patterns@).len()
            == r.repository.expression.patterns@.len());
        assert(names_of(g.expressions@).len() == g.expressions@.len());
        assert(include_names(r.repository.expression.patterns@)[i] == name);
        assert(names_of(g.expressions@)[i] == g.expressions@[i].name@);
        assert(all[clen + i] == g.expressions@[i]);
        assert(all[clen + i].name@ == name);
        lemma_repo_keys_membership(all, all.len() as int, name);
        let j = choose|j: int|
            0 <= j < repo_keys(all).len() && #[trigger] repo_keys(all)[j] == name;
        assert(names_of(ex)[j] == ex[j].name@);
        assert(has_rule_named(ex, name));
    }
}

/// The token type and raw pattern that the repository keeps for a name are
/// those of the last rule carrying it.
proof fn lemma_last_from(all: Seq<ExpressionFormat>, n: int, m: int, name: Seq<char>)
    requires
        0 <= m < n <= all.len(),
        all[m].name@ == name,
        forall|k: int| m < k < n ==> (#[trigger] all[k]).name@ != name,
    ensures
        last_token_type_upto(all, n, name) == all[m].token_type@,
        last_pattern_upto(all, n, name) == all[m].pattern@,
    decreases n,
{
    if m < n - 1 {
        lemma_last_from(all, n - 1, m, name);
    }
}

/// When a comment rule and an expression rule share one name, and no rule
/// after that expression rule carries it, the assembled repository holds
/// exactly one entry for the name, with the expression rule's token type and
/// expanded pattern: comment rules are processed first, and on a collision
/// the rule processed last silently wins.
pub proof fn lemma_collision_expression_wins(
    g: GrammarGenerator,
    r: GrammarFile,
    ci: int,
    ej: int,
)
    requires
        is_assembled(g, r),
        0 <= ci < g.comments@.len(),
        0 <= ej < g.expressions@.len(),
        g.comments@[ci].name@ == g.expressions@[ej].name@,
        forall|k: int|
            ej < k < g.expressions@.len() ==> (#[trigger] g.expressions@[k]).name@
                != g.expressions@[ej].name@,
    ensures
        exists|m: int|
            0 <= m < r.repository.expr_formats@.len() && (#[trigger] r.repository.expr_formats@[m]).name@
                == g.expressions@[ej].name@,
        forall|m: int|
            0 <= m < r.repository.expr_formats@.len() && (#[trigger] r.repository.expr_formats@[m]).name@
                == g.expressions@[ej].name@ ==> r.repository.expr_formats@[m].token_type@
                == g.expressions@[ej].token_type@ && r.repository.expr_formats@[m].pattern@
                == spec_expand(g, g.expressions@[ej].pattern@),
        forall|m1: int, m2: int|
            0 <= m1 < m2 < r.repository.expr_formats@.len() ==> (
            #[trigger] r.repository.expr_formats@[m1]).name@ != (
            #[trigger] r.repository.expr_formats@[m2]).name@,
{
    let all = all_rules(g);
    let ex = r.repository.expr_formats@;
    let name = g.expressions@[ej].name@;
    let clen = g.comments@.len() as int;
    assert(all[clen + ej] == g.expressions@[ej]);
    assert(all[clen + ej].name@ == name);
    lemma_repo_keys_membership(all, all.len() as int, name);
    let j = choose|j: int| 0 <= j < repo_keys(all).len() && #[trigger] repo_keys(all)[j] == name;
    assert(names_of(ex)[j] == ex[j].name@);
    assert(0 <= j < ex.len() && ex[j].name@ == name);
    assert forall|k: int| clen + ej < k < all.len() implies (#[trigger] all[k]).name@ != name by {
        assert(all[k] == g.expressions@[k - clen]);
    }
    lemma_last_from(all, all.len() as int, clen + ej, name);
    assert forall|m: int|
        0 <= m < ex.len() && (#[trigger] ex[m]).name@ == name implies ex[m].token_type@
        == g.expressions@[ej].token_type@ && ex[m].pattern@ == spec_expand(
        g,
        g.expressions@[ej].pattern@,
    ) by {
        assert(ex[m].token_type@ == last_token_type_upto(all, all.len() as int, ex[m].name@));
    }
    lemma_repo_keys_distinct(all, all.len() as int);
    assert forall|m1: int, m2: int| 0 <= m1 < m2 < ex.len() implies (#[trigger] ex[m1]).name@ != (
    #[trigger] ex[m2]).name@ by {
        assert(names_of(ex)[m1] == ex[m1].name@);
        assert(names_of(ex)[m2] == ex[m2].name@);
    }
}

} // verus!
