use vstd::prelude::*;
use vstd::string::*;

use crate::model::{BreakingChar, GrammarGenerator};
use crate::replace::{replace, replace_all};

verus! {

/// The literal forms of the first `n` breaking characters, concatenated:
/// the body of the negated character class.
pub open spec fn class_chars_upto(bcs: Seq<BreakingChar>, n: int) -> Seq<char>
    decreases n,
{
    if n <= 0 {
        Seq::empty()
    } else {
        class_chars_upto(bcs, n - 1) + bcs[n - 1].ch@
    }
}

pub open spec fn class_chars(bcs: Seq<BreakingChar>) -> Seq<char> {
    class_chars_upto(bcs, bcs.len() as int)
}

/// The negated character class matching any single non-breaking character.
pub open spec fn non_breaking_class(bcs: Seq<BreakingChar>) -> Seq<char> {
    "[^"@ + class_chars(bcs) + "]"@
}

/// Whether any of the first `n` breaking characters is escapable.
pub open spec fn has_escapable_upto(bcs: Seq<BreakingChar>, n: int) -> bool
    decreases n,
{
    if n <= 0 {
        false
    } else {
        has_escapable_upto(bcs, n - 1) || bcs[n - 1].escapable
    }
}

/// The alternation, joined by `|`, of every escapable breaking character
/// among the first `n`, each rendered as a literal backslash followed by
/// the character.  Empty when none is escapable.
pub open spec fn escaped_alt_upto(bcs: Seq<BreakingChar>, n: int) -> Seq<char>
    decreases n,
{
    if n <= 0 {
        Seq::empty()
    } else {
        let prev = escaped_alt_upto(bcs, n - 1);
        if !bcs[n - 1].escapable {
            prev
        } else if has_escapable_upto(bcs, n - 1) {
            prev + "|\\\\"@ + bcs[n - 1].ch@
        } else {
            "\\\\"@ + bcs[n - 1].ch@
        }
    }
}

pub open spec fn escaped_alt(bcs: Seq<BreakingChar>) -> Seq<char> {
    escaped_alt_upto(bcs, bcs.len() as int)
}

/// The alternation, joined by `|`, of the first `n` breaking characters'
/// plain literal forms.
pub open spec fn alt_upto(bcs: Seq<BreakingChar>, n: int) -> Seq<char>
    decreases n,
{
    if n <= 0 {
        Seq::empty()
    } else if n == 1 {
        bcs[0].ch@
    } else {
        alt_upto(bcs, n - 1) + "|"@ + bcs[n - 1].ch@
    }
}

/// The plain breaking alternation, used only inside the two lookarounds.
pub open spec fn breaking_alt(bcs: Seq<BreakingChar>) -> Seq<char> {
    alt_upto(bcs, bcs.len() as int)
}

/// The word fragment: one-or-more, possessively, of either an escaped
/// breaking character or a non-breaking character.
pub open spec fn word_fragment(bcs: Seq<BreakingChar>) -> Seq<char> {
    "("@ + escaped_alt(bcs) + "|"@ + non_breaking_class(bcs) + ")++"@
}

/// The zero-width "preceded by a breaking character" assertion.
pub open spec fn behind_fragment(bcs: Seq<BreakingChar>) -> Seq<char> {
    "(?<="@ + breaking_alt(bcs) + ")"@
}

/// The zero-width "followed by a breaking character" assertion.
pub open spec fn ahead_fragment(bcs: Seq<BreakingChar>) -> Seq<char> {
    "(?="@ + breaking_alt(bcs) + ")"@
}

/// What expanding one raw pattern yields: every occurrence of the word
/// placeholder becomes the word fragment, then every occurrence of the
/// breaking-behind placeholder becomes the lookbehind, then every
/// occurrence of the breaking-ahead placeholder becomes the lookahead.
pub open spec fn spec_expand(g: GrammarGenerator, s: Seq<char>) -> Seq<char> {
    replace_all(
        replace_all(
            replace_all(s, g.word_placeholder@, word_fragment(g.breaking_chars@)),
            g.breaking_behind_placeholder@,
            behind_fragment(g.breaking_chars@),
        ),
        g.breaking_ahead_placeholder@,
        ahead_fragment(g.breaking_chars@),
    )
}

/// When none of the first `n` breaking characters is escapable, the
/// escaped alternation over them is empty.
proof fn lemma_escaped_alt_empty(bcs: Seq<BreakingChar>, n: int)
    requires
        !has_escapable_upto(bcs, n),
    ensures
        escaped_alt_upto(bcs, n) == Seq::<char>::empty(),
    decreases n,
{
    if n > 0 {
        lemma_escaped_alt_empty(bcs, n - 1);
    }
}

/// Build the plain breaking alternation.
fn build_breaking_alt(bcs: &Vec<BreakingChar>) -> (r: String)
    ensures
        r@ == breaking_alt(bcs@),
{
    let mut out = String::new();
    let mut i: usize = 0;
    while i < bcs.len()
        invariant
            i <= bcs@.len(),
            out@ == alt_upto(bcs@, i as int),
        decreases bcs@.len() - i,
    {
        if i > 0 {
            out.append("|");
        }
        out.append(bcs[i].ch.as_str());
        proof {
            assert(out@ =~= alt_upto(bcs@, i as int + 1));
        }
        i += 1;
    }
    out
}

/// Build the word fragment from the breaking set.
fn build_word_fragment(bcs: &Vec<BreakingChar>) -> (r: String)
    ensures
        r@ == word_fragment(bcs@),
{
    let mut esc = String::new();
    let mut any: bool = false;
    let mut i: usize = 0;
    while i < bcs.len()
        invariant
            i <= bcs@.len(),
            esc@ == escaped_alt_upto(bcs@, i as int),
            any == has_escapable_upto(bcs@, i as int),
        decreases bcs@.len() - i,
    {
        if bcs[i].escapable {
            if any {
                esc.append("|\\\\");
            } else {
                proof {
                    lemma_escaped_alt_empty(bcs@, i as int);
                }
                esc.append("\\\\");
            }
            esc.append(bcs[i].ch.as_str());
            any = true;
        }
        proof {
            assert(esc@ =~= escaped_alt_upto(bcs@, i as int + 1));
        }
        i += 1;
    }
    let mut out = String::from_str("(");
    out.append(esc.as_str());
    out.append("|");
    out.append("[^");
    let mut j: usize = 0;
    while j < bcs.len()
        invariant
            j <= bcs@.len(),
            out@ == "("@ + escaped_alt(bcs@) + "|"@ + "[^"@ + class_chars_upto(bcs@, j as int),
        decreases bcs@.len() - j,
    {
        out.append(bcs[j].ch.as_str());
        proof {
            assert(out@ =~= "("@ + escaped_alt(bcs@) + "|"@ + "[^"@ + class_chars_upto(
                bcs@,
                j as int + 1,
            ));
        }
        j += 1;
    }
    out.append("]");
    out.append(")++");
    proof {
        assert(out@ =~= word_fragment(bcs@));
    }
    out
}

impl GrammarGenerator {
    /// Expand every occurrence of the three placeholder tokens in one raw
    /// match pattern into the fragments derived from the breaking set.
    /// A pattern without placeholders comes back unchanged.
    pub fn expand(&self, s: &str) -> (r: String)
        ensures
            r@ == spec_expand(*self, s@),
    {
        let word = build_word_fragment(&self.breaking_chars);
        let alt = build_breaking_alt(&self.breaking_chars);
        let mut behind = String::from_str("(?<=");
        behind.append(alt.as_str());
        behind.append(")");
        let mut ahead = String::from_str("(?=");
        ahead.append(alt.as_str());
        ahead.append(")");
        proof {
            assert(behind@ =~= behind_fragment(self.breaking_chars@));
            assert(ahead@ =~= ahead_fragment(self.breaking_chars@));
        }
        let r1 = replace(s, self.word_placeholder.as_str(), word.as_str());
        let r2 = replace(r1.as_str(), self.breaking_behind_placeholder.as_str(), behind.as_str());
        let r3 = replace(r2.as_str(), self.breaking_ahead_placeholder.as_str(), ahead.as_str());
        r3
    }
}

} // verus!
