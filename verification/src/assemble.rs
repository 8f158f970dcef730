use vstd::prelude::*;
use vstd::string::*;

use crate::expand::spec_expand;
use crate::model::{ExpressionFormat, GrammarFile, GrammarGenerator, Include, Patterns, Repository};

verus! {

/// The names of a rule list, in order.
pub open spec fn names_of(rules: Seq<ExpressionFormat>) -> Seq<Seq<char>> {
    rules.map(|i: int, ef: ExpressionFormat| ef.name@)
}

/// The names of a reference list, in order.
pub open spec fn include_names(incs: Seq<Include>) -> Seq<Seq<char>> {
    incs.map(|i: int, inc: Include| inc.0@)
}

/// The concatenation that fixes the repository's iteration order:
/// every comment rule, then every expression rule.
pub open spec fn all_rules(g: GrammarGenerator) -> Seq<ExpressionFormat> {
    g.comments@ + g.expressions@
}

/// The distinct rule names among the first `n` rules, each at the position
/// of its first occurrence: the repository's key order.
pub open spec fn repo_keys_upto(all: Seq<ExpressionFormat>, n: int) -> Seq<Seq<char>>
    decreases n,
{
    if n <= 0 {
        Seq::empty()
    } else {
        let prev = repo_keys_upto(all, n - 1);
        if prev.contains(all[n - 1].name@) {
            prev
        } else {
            prev.push(all[n - 1].name@)
        }
    }
}

pub open spec fn repo_keys(all: Seq<ExpressionFormat>) -> Seq<Seq<char>> {
    repo_keys_upto(all, all.len() as int)
}

/// The token type of the last rule named `name` among the first `n`:
/// on a name collision the later rule silently wins.
pub open spec fn last_token_type_upto(all: Seq<ExpressionFormat>, n: int, name: Seq<char>) -> Seq<
    char,
>
    decreases n,
{
    if n <= 0 {
        arbitrary()
    } else if all[n - 1].name@ == name {
        all[n - 1].token_type@
    } else {
        last_token_type_upto(all, n - 1, name)
    }
}

/// The raw match pattern of the last rule named `name` among the first `n`.
pub open spec fn last_pattern_upto(all: Seq<ExpressionFormat>, n: int, name: Seq<char>) -> Seq<
    char,
>
    decreases n,
{
    if n <= 0 {
        arbitrary()
    } else if all[n - 1].name@ == name {
        all[n - 1].pattern@
    } else {
        last_pattern_upto(all, n - 1, name)
    }
}

/// The repository entries agree with the first `n` rules: the key sequence
/// is the distinct names in first-occurrence order, and each entry holds the
/// token type and the expanded pattern of the last rule carrying its name.
pub open spec fn repo_matches_upto(
    out: Seq<ExpressionFormat>,
    all: Seq<ExpressionFormat>,
    g: GrammarGenerator,
    n: int,
) -> bool {
    &&& names_of(out) == repo_keys_upto(all, n)
    &&& forall|k: int|
        0 <= k < out.len() ==> (#[trigger] out[k]).token_type@ == last_token_type_upto(
            all,
            n,
            out[k].name@,
        ) && out[k].pattern@ == spec_expand(g, last_pattern_upto(all, n, out[k].name@))
}

/// What assembly promises of the produced document.
pub open spec fn is_assembled(g: GrammarGenerator, r: GrammarFile) -> bool {
    &&& r.name@ == "CSCSCA"@
    &&& r.scope_name@ == "source.sca"@
    &&& r.patterns@.len() == 2
    &&& r.patterns@[0].0@ == "comment"@
    &&& r.patterns@[1].0@ == "expression"@
    &&& include_names(r.repository.comment.patterns@) == names_of(g.comments@)
    &&& include_names(r.repository.expression.patterns@) == names_of(g.expressions@)
    &&& repo_matches_upto(r.repository.expr_formats@, all_rules(g), g, all_rules(g).len() as int)
}

/// No name appears twice in the key sequence.
pub proof fn lemma_repo_keys_distinct(all: Seq<ExpressionFormat>, n: int)
    ensures
        forall|i: int, j: int|
            0 <= i < j < repo_keys_upto(all, n).len() ==> repo_keys_upto(all, n)[i]
                != repo_keys_upto(all, n)[j],
    decreases n,
{
    if n > 0 {
        lemma_repo_keys_distinct(all, n - 1);
        let prev = repo_keys_upto(all, n - 1);
        if !prev.contains(all[n - 1].name@) {
            assert forall|i: int, j: int|
                0 <= i < j < repo_keys_upto(all, n).len() implies repo_keys_upto(all, n)[i]
                != repo_keys_upto(all, n)[j] by {
                if j == prev.len() {
                    assert(repo_keys_upto(all, n)[i] == prev[i]);
                    if prev[i] == all[n - 1].name@ {
                        assert(prev.contains(all[n - 1].name@));
                    }
                }
            }
        }
    }
}

/// A name is a key exactly when some rule among the first `n` carries it.
pub proof fn lemma_repo_keys_membership(all: Seq<ExpressionFormat>, n: int, name: Seq<char>)
    requires
        n <= all.len(),
    ensures
        repo_keys_upto(all, n).contains(name) <==> exists|i: int|
            0 <= i < n && (#[trigger] all[i]).name@ == name,
    decreases n,
{
    if n > 0 {
        lemma_repo_keys_membership(all, n - 1, name);
        if repo_keys_upto(all, n).contains(name) {
            if !repo_keys_upto(all, n - 1).contains(name) {
                assert(all[n - 1].name@ == name);
            }
        }
        if exists|i: int| 0 <= i < n && (#[trigger] all[i]).name@ == name {
            let i = choose|i: int| 0 <= i < n && (#[trigger] all[i]).name@ == name;
            if i < n - 1 {
                assert(repo_keys_upto(all, n - 1).contains(name));
                if !repo_keys_upto(all, n - 1).contains(all[n - 1].name@) {
                    assert(repo_keys_upto(all, n) == repo_keys_upto(all, n - 1).push(
                        all[n - 1].name@,
                    ));
                    let j = choose|j: int|
                        0 <= j < repo_keys_upto(all, n - 1).len() && #[trigger] repo_keys_upto(
                            all,
                            n - 1,
                        )[j] == name;
                    assert(repo_keys_upto(all, n)[j] == name);
                }
            } else {
                if !repo_keys_upto(all, n - 1).contains(name) {
                    assert(repo_keys_upto(all, n)[repo_keys_upto(all, n).len() - 1] == name);
                }
            }
        }
    }
}

/// Find the entry carrying `name`, if one is there.
fn find_name(v: &Vec<ExpressionFormat>, name: &String) -> (r: Option<usize>)
    ensures
        match r {
            Some(j) => j < v@.len() && v@[j as int].name@ == name@,
            None => forall|k: int| 0 <= k < v@.len() ==> (#[trigger] v@[k]).name@ != name@,
        },
{
    let mut j: usize = 0;
    while j < v.len()
        invariant
            j <= v@.len(),
            forall|k: int| 0 <= k < j ==> (#[trigger] v@[k]).name@ != name@,
        decreases v@.len() - j,
    {
        if v[j].name == *name {
            return Some(j);
        }
        j += 1;
    }
    None
}

/// Insert one expanded rule into the repository entries: a new name goes to
/// the end, a name already present has its entry overwritten in place.
fn upsert(
    out: &mut Vec<ExpressionFormat>,
    entry_name: &String,
    entry_token: &String,
    expanded: String,
    Ghost(all): Ghost<Seq<ExpressionFormat>>,
    Ghost(g): Ghost<GrammarGenerator>,
    Ghost(n): Ghost<int>,
)
    requires
        0 <= n < all.len(),
        all[n].name@ == entry_name@,
        all[n].token_type@ == entry_token@,
        expanded@ == spec_expand(g, all[n].pattern@),
        repo_matches_upto(old(out)@, all, g, n),
    ensures
        repo_matches_upto(final(out)@, all, g, n + 1),
{
    proof {
        lemma_repo_keys_distinct(all, n);
    }
    let entry = ExpressionFormat {
        name: entry_name.clone(),
        token_type: entry_token.clone(),
        pattern: expanded,
    };
    let found = find_name(out, entry_name);
    match found {
        Some(j) => {
            proof {
                assert(names_of(out@)[j as int] == entry_name@);
                assert(repo_keys_upto(all, n).contains(all[n].name@));
                assert(repo_keys_upto(all, n + 1) == repo_keys_upto(all, n));
            }
            let ghost prev = out@;
            out.set(j, entry);
            proof {
                assert(names_of(out@) =~= names_of(prev));
                assert forall|k: int| 0 <= k < out@.len() implies (#[trigger] out@[k]).token_type@
                    == last_token_type_upto(all, n + 1, out@[k].name@) && out@[k].pattern@
                    == spec_expand(g, last_pattern_upto(all, n + 1, out@[k].name@)) by {
                    if k != j {
                        assert(out@[k] == prev[k]);
                        assert(names_of(prev)[k] == prev[k].name@);
                        assert(names_of(prev)[j as int] == all[n].name@);
                        assert(prev[k].name@ != all[n].name@);
                    }
                }
            }
        },
        None => {
            proof {
                assert(!repo_keys_upto(all, n).contains(all[n].name@)) by {
                    if repo_keys_upto(all, n).contains(all[n].name@) {
                        let j = choose|j: int|
                            0 <= j < repo_keys_upto(all, n).len() && #[trigger] repo_keys_upto(
                                all,
                                n,
                            )[j] == all[n].name@;
                        assert(names_of(out@)[j] == out@[j].name@);
                    }
                }
                assert(repo_keys_upto(all, n + 1) == repo_keys_upto(all, n).push(all[n].name@));
            }
            let ghost prev = out@;
            out.push(entry);
            proof {
                assert(names_of(out@) =~= names_of(prev).push(all[n].name@));
                assert forall|k: int| 0 <= k < out@.len() implies (#[trigger] out@[k]).token_type@
                    == last_token_type_upto(all, n + 1, out@[k].name@) && out@[k].pattern@
                    == spec_expand(g, last_pattern_upto(all, n + 1, out@[k].name@)) by {
                    if k < prev.len() {
                        assert(out@[k] == prev[k]);
                        assert(prev[k].name@ != all[n].name@);
                    }
                }
            }
        },
    }
}

/// Map a rule list to the ordered reference list of its names.
fn includes_of(rules: &Vec<ExpressionFormat>) -> (r: Vec<Include>)
    ensures
        include_names(r@) == names_of(rules@),
{
    let mut incs: Vec<Include> = Vec::new();
    let mut i: usize = 0;
    while i < rules.len()
        invariant
            i <= rules@.len(),
            incs@.len() == i,
            forall|k: int| 0 <= k < i ==> (#[trigger] incs@[k]).0@ == rules@[k].name@,
        decreases rules@.len() - i,
    {
        incs.push(Include(rules[i].name.clone()));
        i += 1;
    }
    proof {
        assert(include_names(incs@) =~= names_of(rules@));
    }
    incs
}

impl GrammarFile {
    /// Assemble the output document from a specification: a fixed top-level
    /// reference pair, the two ordered include-lists, and one expanded
    /// repository entry per distinct rule name, comment rules first, a later
    /// rule overwriting an earlier one of the same name.
    pub fn from(g: GrammarGenerator) -> (r: GrammarFile)
        ensures
            is_assembled(g, r),
    {
        let comment_incs = includes_of(&g.comments);
        let expression_incs = includes_of(&g.expressions);
        let ghost all = all_rules(g);
        let mut expr_formats: Vec<ExpressionFormat> = Vec::new();
        proof {
            assert(names_of(expr_formats@) =~= repo_keys_upto(all, 0));
        }
        let clen = g.comments.len();
        let mut i: usize = 0;
        while i < clen
            invariant
                i <= clen,
                clen == g.comments@.len(),
                all == all_rules(g),
                repo_matches_upto(expr_formats@, all, g, i as int),
            decreases clen - i,
        {
            proof {
                assert(all[i as int] == g.comments@[i as int]);
            }
            let expanded = g.expand(g.comments[i].pattern.as_str());
            upsert(
                &mut expr_formats,
                &g.comments[i].name,
                &g.comments[i].token_type,
                expanded,
                Ghost(all),
                Ghost(g),
                Ghost(i as int),
            );
            i += 1;
        }
        let elen = g.expressions.len();
        let mut j: usize = 0;
        while j < elen
            invariant
                j <= elen,
                elen == g.expressions@.len(),
                clen == g.comments@.len(),
                all == all_rules(g),
                repo_matches_upto(expr_formats@, all, g, clen + j as int),
            decreases elen - j,
        {
            proof {
                assert(all[clen + j as int] == g.expressions@[j as int]);
            }
            let expanded = g.expand(g.expressions[j].pattern.as_str());
            upsert(
                &mut expr_formats,
                &g.expressions[j].name,
                &g.expressions[j].token_type,
                expanded,
                Ghost(all),
                Ghost(g),
                Ghost(clen + j as int),
            );
            j += 1;
        }
        let mut top: Vec<Include> = Vec::new();
        top.push(Include(String::from_str("comment")));
        top.push(Include(String::from_str("expression")));
        GrammarFile {
            name: String::from_str("CSCSCA"),
            patterns: top,
            repository: Repository {
                comment: Patterns { patterns: comment_incs },
                expression: Patterns { patterns: expression_incs },
                expr_formats,
            },
            scope_name: String::from_str("source.sca"),
        }
    }
}

} // verus!
