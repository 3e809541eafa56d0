//! Laws of the locale negotiation, proved once and for all inputs.

use vstd::prelude::*;

use crate::resolve::{avail_tags, best_in_prefix, best_index, resolve_spec, resolve_tags,
    selection_for, with_primary, yields_match};
use crate::score::score_spec;
use crate::tag::{parse_spec, TagView};

verus! {

/// Determinism: the negotiation is a pure function of its two ordered lists,
/// so two results obtained from equal lists are equal.
pub proof fn lemma_resolve_deterministic(
    available: Seq<Seq<char>>,
    user: Seq<Seq<char>>,
    r1: Option<Seq<char>>,
    r2: Option<Seq<char>>,
)
    requires
        r1 == resolve_spec(available, user),
        r2 == resolve_spec(available, user),
    ensures
        r1 == r2,
{
}

proof fn lemma_best_prefix(cands: Seq<TagView>, u: TagView, n: int, k: int)
    requires
        1 <= n <= cands.len(),
        0 <= k < n,
    ensures
        0 <= best_in_prefix(cands, u, n) < n,
        score_spec(cands[best_in_prefix(cands, u, n)], u) >= score_spec(cands[k], u),
        score_spec(cands[k], u) == score_spec(cands[best_in_prefix(cands, u, n)], u)
            ==> best_in_prefix(cands, u, n) <= k,
    decreases n,
{
    if n > 1 {
        if k < n - 1 {
            lemma_best_prefix(cands, u, n - 1, k);
        } else {
            lemma_best_prefix(cands, u, n - 1, 0);
        }
    }
}

/// Tie-break stability: the selected candidate scores at least as much as
/// every other candidate, and every candidate that ties with it stands no
/// earlier in the list.
pub proof fn lemma_tie_break_stability(cands: Seq<TagView>, u: TagView, k: int)
    requires
        cands.len() > 0,
        0 <= k < cands.len(),
    ensures
        0 <= best_index(cands, u) < cands.len(),
        score_spec(cands[best_index(cands, u)], u) >= score_spec(cands[k], u),
        score_spec(cands[k], u) == score_spec(cands[best_index(cands, u)], u) ==> best_index(
            cands,
            u,
        ) <= k,
{
    lemma_best_prefix(cands, u, cands.len() as int, k);
}

proof fn lemma_resolve_first_match(tags: Seq<TagView>, user: Seq<Seq<char>>, i: int)
    requires
        0 <= i < user.len(),
        yields_match(tags, user[i]),
        forall|j: int| 0 <= j < i ==> !yields_match(tags, #[trigger] user[j]),
    ensures
        resolve_tags(tags, user) == selection_for(tags, user[i]),
    decreases i,
{
    if i == 0 {
        assert(selection_for(tags, user[0]) is Some);
    } else {
        assert(!yields_match(tags, user[0]));
        assert(selection_for(tags, user[0]) is None);
        assert forall|j: int| 0 <= j < i - 1 implies !yields_match(
            tags,
            #[trigger] user.drop_first()[j],
        ) by {
            assert(user.drop_first()[j] == user[j + 1]);
            assert(!yields_match(tags, user[j + 1]));
        }
        assert(user.drop_first()[i - 1] == user[i]);
        lemma_resolve_first_match(tags, user.drop_first(), i - 1);
    }
}

/// Priority dominance: where user locale `i` is the first that yields any
/// candidate, the result is decided by that locale alone; the user locales
/// after it, however well they would score, are never consulted.
pub proof fn lemma_priority_dominance(available: Seq<Seq<char>>, user: Seq<Seq<char>>, i: int)
    requires
        0 <= i < user.len(),
        yields_match(avail_tags(available), user[i]),
        forall|j: int| 0 <= j < i ==> !yields_match(avail_tags(available), #[trigger] user[j]),
    ensures
        resolve_spec(available, user) == selection_for(avail_tags(available), user[i]),
{
    lemma_resolve_first_match(avail_tags(available), user, i);
}

proof fn lemma_avail_tags_insert(list: Seq<Seq<char>>, i: int, s: Seq<char>)
    requires
        0 <= i <= list.len(),
        parse_spec(s) is None,
    ensures
        avail_tags(list.insert(i, s)) == avail_tags(list),
    decreases list.len(),
{
    let l2 = list.insert(i, s);
    if i == list.len() {
        assert(l2.drop_last() =~= list);
        assert(l2.last() == s);
    } else {
        assert(l2.last() == list.last());
        assert(l2.drop_last() =~= list.drop_last().insert(i, s));
        lemma_avail_tags_insert(list.drop_last(), i, s);
    }
}

/// Inserting a malformed identifier anywhere in the available list never
/// changes the result: a string that does not parse is excluded before any
/// candidate is considered.
pub proof fn lemma_malformed_exclusion_available(
    available: Seq<Seq<char>>,
    user: Seq<Seq<char>>,
    i: int,
    s: Seq<char>,
)
    requires
        0 <= i <= available.len(),
        parse_spec(s) is None,
    ensures
        resolve_spec(available.insert(i, s), user) == resolve_spec(available, user),
{
    lemma_avail_tags_insert(available, i, s);
}

proof fn lemma_resolve_tags_insert(tags: Seq<TagView>, user: Seq<Seq<char>>, i: int, s: Seq<char>)
    requires
        0 <= i <= user.len(),
        parse_spec(s) is None,
    ensures
        resolve_tags(tags, user.insert(i, s)) == resolve_tags(tags, user),
    decreases i,
{
    let u2 = user.insert(i, s);
    if i == 0 {
        assert(u2[0] == s);
        assert(selection_for(tags, u2[0]) is None);
        assert(u2.drop_first() =~= user);
    } else {
        assert(u2[0] == user[0]);
        assert(u2.drop_first() =~= user.drop_first().insert(i - 1, s));
        lemma_resolve_tags_insert(tags, user.drop_first(), i - 1, s);
    }
}

/// Inserting a malformed identifier anywhere in the user list never changes
/// the result either: it yields no candidate at its priority level and the
/// negotiation moves on exactly as without it.
pub proof fn lemma_malformed_exclusion_user(
    available: Seq<Seq<char>>,
    user: Seq<Seq<char>>,
    i: int,
    s: Seq<char>,
)
    requires
        0 <= i <= user.len(),
        parse_spec(s) is None,
    ensures
        resolve_spec(available, user.insert(i, s)) == resolve_spec(available, user),
{
    lemma_resolve_tags_insert(avail_tags(available), user, i, s);
}

} // verus!
