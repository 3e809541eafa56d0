//! The locale resolver: candidate filtering, best-candidate selection, and
//! the negotiation over the full priority-ordered user-locale list.
//!
//! Both input lists are ordered: the available list encodes the program's own
//! preference (used to break score ties), the user list the requester's
//! preference (the first user locale with any candidate wins outright).

use vstd::prelude::*;

use crate::score::{score, score_spec};
use crate::tag::{opt_view, parse, parse_spec, tag_to_seq, LanguageTag, TagView};

verus! {

// ---------------------------------------------------------------------------
// Specification
// ---------------------------------------------------------------------------

/// The tags of the identifiers of `list` that parse, in list order; the
/// malformed ones fall out silently.
pub open spec fn avail_tags(list: Seq<Seq<char>>) -> Seq<TagView>
    decreases list.len(),
{
    if list.len() == 0 {
        Seq::empty()
    } else {
        let rest = avail_tags(list.drop_last());
        match parse_spec(list.last()) {
            Some(t) => rest.push(t),
            None => rest,
        }
    }
}

/// The tags of `tags` whose primary language is `p`, keeping their order.
pub open spec fn with_primary(tags: Seq<TagView>, p: Seq<char>) -> Seq<TagView>
    decreases tags.len(),
{
    if tags.len() == 0 {
        Seq::empty()
    } else {
        let rest = with_primary(tags.drop_last(), p);
        if tags.last().primary == p {
            rest.push(tags.last())
        } else {
            rest
        }
    }
}

/// The index of the earliest candidate with maximal score among the first `n`
/// candidates: a later candidate displaces the running best only with a
/// strictly greater score.
pub open spec fn best_in_prefix(cands: Seq<TagView>, u: TagView, n: int) -> int
    decreases n,
{
    if n <= 1 {
        0
    } else {
        let b = best_in_prefix(cands, u, n - 1);
        if score_spec(cands[n - 1], u) > score_spec(cands[b], u) {
            n - 1
        } else {
            b
        }
    }
}

/// The index of the earliest candidate with maximal score.
pub open spec fn best_index(cands: Seq<TagView>, u: TagView) -> int {
    best_in_prefix(cands, u, cands.len() as int)
}

/// Whether the identifier `s` parses and finds at least one candidate among
/// `tags` sharing its primary language.
pub open spec fn yields_match(tags: Seq<TagView>, s: Seq<char>) -> bool {
    match parse_spec(s) {
        Some(u) => with_primary(tags, u.primary).len() > 0,
        None => false,
    }
}

/// What one user identifier alone selects from `tags`: the canonical form of
/// the best-scoring candidate sharing its primary language, if any.
pub open spec fn selection_for(tags: Seq<TagView>, s: Seq<char>) -> Option<Seq<char>> {
    match parse_spec(s) {
        Some(u) => {
            let cands = with_primary(tags, u.primary);
            if cands.len() > 0 {
                Some(tag_to_seq(cands[best_index(cands, u)]))
            } else {
                None
            }
        },
        None => None,
    }
}

/// The negotiation over parsed available tags: user identifiers are tried in
/// priority order, and the first that yields any candidate decides.
pub open spec fn resolve_tags(tags: Seq<TagView>, user: Seq<Seq<char>>) -> Option<Seq<char>>
    decreases user.len(),
{
    if user.len() == 0 {
        None
    } else {
        match selection_for(tags, user[0]) {
            Some(r) => Some(r),
            None => resolve_tags(tags, user.drop_first()),
        }
    }
}

/// The exposed contract: what `resolve` returns on two raw ordered lists.
pub open spec fn resolve_spec(available: Seq<Seq<char>>, user: Seq<Seq<char>>) -> Option<
    Seq<char>,
> {
    resolve_tags(avail_tags(available), user)
}

// ---------------------------------------------------------------------------
// Executable resolver
// ---------------------------------------------------------------------------

/// Parses every available identifier, keeping list order and dropping the
/// malformed ones.
pub fn parse_available(available: &Vec<String>) -> (tags: Vec<LanguageTag>)
    ensures
        tags.deep_view() == avail_tags(available.deep_view()),
{
    let ghost adv = available.deep_view();
    let mut tags: Vec<LanguageTag> = Vec::new();
    let mut i: usize = 0;
    while i < available.len()
        invariant
            i <= available@.len(),
            adv == available.deep_view(),
            adv.len() == available@.len(),
            tags.deep_view() == avail_tags(adv.take(i as int)),
        decreases available@.len() - i,
    {
        let ghost tv0 = tags.deep_view();
        let r = parse(available[i].as_str());
        match r {
            Some(t) => {
                tags.push(t);
                proof {
                    assert(tags.deep_view() =~= tv0.push(t@));
                }
            },
            None => {},
        }
        proof {
            assert(adv.take(i + 1 as int).drop_last() =~= adv.take(i as int));
            assert(adv.take(i + 1 as int).last() == adv[i as int]);
        }
        i += 1;
    }
    proof {
        assert(adv.take(available@.len() as int) =~= adv);
    }
    tags
}

/// Narrows `tags` to the candidates whose primary language equals the user
/// tag's, preserving their relative order.
pub fn filter_candidates(tags: &Vec<LanguageTag>, user: &LanguageTag) -> (cands: Vec<LanguageTag>)
    ensures
        cands.deep_view() == with_primary(tags.deep_view(), user@.primary),
{
    let ghost tv = tags.deep_view();
    let mut cands: Vec<LanguageTag> = Vec::new();
    let mut i: usize = 0;
    while i < tags.len()
        invariant
            i <= tags@.len(),
            tv == tags.deep_view(),
            tv.len() == tags@.len(),
            cands.deep_view() == with_primary(tv.take(i as int), user@.primary),
        decreases tags@.len() - i,
    {
        let ghost cv0 = cands.deep_view();
        if tags[i].primary_language.eq(&user.primary_language) {
            cands.push(tags[i].clone());
            proof {
                assert(cands.deep_view() =~= cv0.push(tv[i as int]));
            }
        }
        proof {
            assert(tv.take(i + 1 as int).drop_last() =~= tv.take(i as int));
            assert(tv.take(i + 1 as int).last() == tv[i as int]);
        }
        i += 1;
    }
    proof {
        assert(tv.take(tags@.len() as int) =~= tv);
    }
    cands
}

/// Picks the candidate with strictly maximal score; ties go to the candidate
/// listed earliest.  An empty candidate list signals "no selection" rather
/// than an error.
pub fn select_best(cands: &Vec<LanguageTag>, user: &LanguageTag) -> (r: Option<usize>)
    ensures
        (r is None <==> cands@.len() == 0),
        r matches Some(b) ==> b < cands@.len() && b as int == best_index(
            cands.deep_view(),
            user@,
        ),
{
    if cands.len() == 0 {
        return None;
    }
    let ghost cv = cands.deep_view();
    let mut best: usize = 0;
    let mut best_score = score(&cands[0], user);
    let mut j: usize = 1;
    while j < cands.len()
        invariant
            1 <= j <= cands@.len(),
            cv == cands.deep_view(),
            cv.len() == cands@.len(),
            best < j,
            best as int == best_in_prefix(cv, user@, j as int),
            best_score == score_spec(cv[best as int], user@),
        decreases cands@.len() - j,
    {
        let s = score(&cands[j], user);
        if s > best_score {
            best = j;
            best_score = s;
        }
        j += 1;
    }
    Some(best)
}

/// Negotiates the best-matching available locale for the given user locales.
///
/// Returns the canonical string form of the chosen available tag, or nothing
/// where no user locale, after parse-filtering, has any candidate sharing its
/// primary language.  Malformed identifiers in either list are excluded
/// locally and never surface as errors.
#[verifier::rlimit(50)]
pub fn resolve(available: &Vec<String>, user: &Vec<String>) -> (r: Option<String>)
    ensures
        opt_view(r) == resolve_spec(available.deep_view(), user.deep_view()),
{
    let ghost adv = available.deep_view();
    let ghost udv = user.deep_view();
    let tags = parse_available(available);
    let ghost tv = tags.deep_view();
    let mut j: usize = 0;
    proof {
        assert(udv.skip(0) =~= udv);
    }
    while j < user.len()
        invariant
            j <= user@.len(),
            adv == available.deep_view(),
            udv == user.deep_view(),
            udv.len() == user@.len(),
            tv == tags.deep_view(),
            tv == avail_tags(adv),
            resolve_tags(tv, udv.skip(j as int)) == resolve_spec(adv, udv),
        decreases user@.len() - j,
    {
        proof {
            assert(udv.skip(j as int)[0] == udv[j as int]);
            assert(udv.skip(j as int).drop_first() =~= udv.skip(j + 1 as int));
        }
        let parsed = parse(user[j].as_str());
        match parsed {
            Some(u) => {
                let cands = filter_candidates(&tags, &u);
                if cands.len() > 0 {
                    let b = select_best(&cands, &u).unwrap();
                    let out = cands[b].to_canonical_string();
                    proof {
                        assert(cands.deep_view()[b as int] == cands@[b as int]@);
                        assert(parse_spec(udv[j as int]) == Some(u@));
                        assert(selection_for(tv, udv.skip(j as int)[0]) == Some(
                            tag_to_seq(cands.deep_view()[b as int]),
                        ));
                        assert(resolve_tags(tv, udv.skip(j as int)) == Some(out@));
                    }
                    return Some(out);
                }
            },
            None => {},
        }
        j += 1;
    }
    proof {
        assert(udv.skip(user@.len() as int) =~= Seq::<Seq<char>>::empty());
    }
    None
}

} // verus!
