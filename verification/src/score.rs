//! The match scorer: the weighted-overlap affinity between one supported tag
//! and one user tag that already share a primary language.
//!
//! A field contributes its weight only where both tags define it and the
//! defined values are identical.  An undefined field never contributes: it is
//! neither a bonus nor a penalty, on either side.

use vstd::prelude::*;

use crate::tag::{opt_view, LanguageTag, TagView};

verus! {

/// The contribution of one field pairing: `w` where both sides define the
/// field with the same value, and `0` otherwise.
pub open spec fn field_score(a: Option<Seq<char>>, b: Option<Seq<char>>, w: int) -> int {
    if a is Some && b is Some && a == b {
        w
    } else {
        0
    }
}

/// The total affinity of candidate `c` and user tag `u`: fixed weights over
/// the optional fields in order of decreasing significance.  Range: 0 to 63.
pub open spec fn score_spec(c: TagView, u: TagView) -> int {
    field_score(c.extended, u.extended, 32) + field_score(c.script, u.script, 16) + field_score(
        c.region,
        u.region,
        8,
    ) + field_score(c.variant, u.variant, 4) + field_score(c.extension, u.extension, 2)
        + field_score(c.private, u.private, 1)
}

/// Both fields defined, with the same value.
fn both_defined_equal(a: &Option<String>, b: &Option<String>) -> (r: bool)
    ensures
        r == (opt_view(*a) is Some && opt_view(*b) is Some && opt_view(*a) == opt_view(*b)),
{
    match (a, b) {
        (Some(x), Some(y)) => x.eq(y),
        _ => false,
    }
}

/// Computes the affinity score of a candidate and a user tag.
pub fn score(candidate: &LanguageTag, user: &LanguageTag) -> (r: u32)
    ensures
        r == score_spec(candidate@, user@),
        r <= 63,
{
    let mut total: u32 = 0;
    if both_defined_equal(&candidate.extended_language, &user.extended_language) {
        total += 32;
    }
    if both_defined_equal(&candidate.script, &user.script) {
        total += 16;
    }
    if both_defined_equal(&candidate.region, &user.region) {
        total += 8;
    }
    if both_defined_equal(&candidate.variant, &user.variant) {
        total += 4;
    }
    if both_defined_equal(&candidate.extension, &user.extension) {
        total += 2;
    }
    if both_defined_equal(&candidate.private_use, &user.private_use) {
        total += 1;
    }
    total
}

/// Each single field pairing is scored the same whichever side is the
/// candidate and whichever the user.
pub proof fn lemma_field_score_symmetry(a: Option<Seq<char>>, b: Option<Seq<char>>, w: int)
    ensures
        field_score(a, b, w) == field_score(b, a, w),
{
}

/// The whole affinity score is symmetric in its two tags; only the
/// primary-language filtering that precedes it is directional.
pub proof fn lemma_score_symmetry(t1: TagView, t2: TagView)
    ensures
        score_spec(t1, t2) == score_spec(t2, t1),
{
}

/// A candidate that leaves a field undefined scores nothing on that field
/// against every user value alike: against a user tag that defines any value
/// for it, and against one that leaves it undefined too.
pub proof fn lemma_wildcard_neutrality(u1: Option<Seq<char>>, u2: Option<Seq<char>>, w: int)
    ensures
        field_score(None, u1, w) == 0,
        field_score(None, u1, w) == field_score(None, u2, w),
        field_score(u1, None, w) == 0,
{
}

} // verus!
