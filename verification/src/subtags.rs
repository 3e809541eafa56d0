//! Splitting a locale identifier into its hyphen-delimited subtags.
//!
//! The split is specified twice: `subtags_of` cuts a character sequence at
//! every hyphen, and `join_hyphen` glues parts back together.  The two are
//! proved inverse on hyphen-free parts, which is what the executable splitter
//! appeals to.

use vstd::prelude::*;

verus! {

/// Index of the first hyphen of `s`, or `s.len()` if there is none.
pub open spec fn first_hyphen(s: Seq<char>) -> int
    decreases s.len(),
{
    if s.len() == 0 {
        0
    } else if s[0] == '-' {
        0
    } else {
        1 + first_hyphen(s.drop_first())
    }
}

/// The subtags of `s`: the pieces between hyphens, in order.  A string without
/// hyphens is a single subtag; every hyphen separates two (possibly empty)
/// subtags, so the result always holds at least one element.
pub open spec fn subtags_of(s: Seq<char>) -> Seq<Seq<char>>
    decreases s.len(),
{
    let i = first_hyphen(s);
    if !(0 <= i <= s.len()) {
        seq![s]
    } else if i == s.len() {
        seq![s]
    } else {
        seq![s.take(i)] + subtags_of(s.skip(i + 1))
    }
}

/// The parts glued back together with a hyphen between each two.
pub open spec fn join_hyphen(parts: Seq<Seq<char>>) -> Seq<char>
    decreases parts.len(),
{
    if parts.len() == 0 {
        Seq::empty()
    } else if parts.len() == 1 {
        parts[0]
    } else {
        parts[0] + seq!['-'] + join_hyphen(parts.drop_first())
    }
}

/// No part of `parts` contains a hyphen.
pub open spec fn hyphen_free(parts: Seq<Seq<char>>) -> bool {
    forall|k: int, j: int|
        0 <= k < parts.len() && 0 <= j < parts[k].len() ==> #[trigger] parts[k][j] != '-'
}

/// A hyphen-free prefix followed by a hyphen puts the first hyphen exactly at
/// the prefix's end.
proof fn lemma_first_hyphen_of_concat(p: Seq<char>, rest: Seq<char>)
    requires
        forall|j: int| 0 <= j < p.len() ==> p[j] != '-',
    ensures
        first_hyphen(p + seq!['-'] + rest) == p.len(),
    decreases p.len(),
{
    let s = p + seq!['-'] + rest;
    if p.len() == 0 {
        assert(s[0] == '-');
    } else {
        assert(s[0] == p[0]);
        lemma_first_hyphen_of_concat(p.drop_first(), rest);
        assert(s.drop_first() =~= p.drop_first() + seq!['-'] + rest);
    }
}

/// A hyphen-free sequence has no first hyphen before its end.
proof fn lemma_first_hyphen_absent(p: Seq<char>)
    requires
        forall|j: int| 0 <= j < p.len() ==> p[j] != '-',
    ensures
        first_hyphen(p) == p.len(),
    decreases p.len(),
{
    if p.len() == 0 {
    } else {
        lemma_first_hyphen_absent(p.drop_first());
    }
}

/// Splitting undoes joining, for at least one hyphen-free part.
pub proof fn lemma_subtags_of_join(parts: Seq<Seq<char>>)
    requires
        parts.len() >= 1,
        hyphen_free(parts),
    ensures
        subtags_of(join_hyphen(parts)) == parts,
    decreases parts.len(),
{
    if parts.len() == 1 {
        lemma_first_hyphen_absent(parts[0]);
        assert(subtags_of(join_hyphen(parts)) =~= parts);
    } else {
        let p = parts[0];
        let rest = join_hyphen(parts.drop_first());
        assert(join_hyphen(parts) == p + seq!['-'] + rest);
        lemma_first_hyphen_of_concat(p, rest);
        let s = p + seq!['-'] + rest;
        assert(s.take(p.len() as int) =~= p);
        assert(s.skip(p.len() as int + 1) =~= rest);
        lemma_subtags_of_join(parts.drop_first());
        assert(subtags_of(s) =~= seq![p] + parts.drop_first());
        assert(seq![p] + parts.drop_first() =~= parts);
    }
}

/// Appending a character to the last part appends it to the joined sequence.
proof fn lemma_join_push_char(parts: Seq<Seq<char>>, t: Seq<char>, c: char)
    ensures
        join_hyphen(parts.push(t.push(c))) == join_hyphen(parts.push(t)).push(c),
    decreases parts.len(),
{
    if parts.len() == 0 {
        assert(join_hyphen(parts.push(t.push(c))) =~= join_hyphen(parts.push(t)).push(c));
    } else {
        lemma_join_push_char(parts.drop_first(), t, c);
        assert(parts.push(t.push(c)).drop_first() =~= parts.drop_first().push(t.push(c)));
        assert(parts.push(t).drop_first() =~= parts.drop_first().push(t));
        assert(parts.push(t.push(c))[0] == parts[0]);
        assert(parts.push(t.push(c)).len() >= 2);
        assert(join_hyphen(parts.push(t.push(c))) == parts[0] + seq!['-'] + join_hyphen(
            parts.drop_first().push(t.push(c)),
        ));
        assert(join_hyphen(parts.push(t)) == parts[0] + seq!['-'] + join_hyphen(
            parts.drop_first().push(t),
        ));
        assert(join_hyphen(parts.push(t.push(c))) =~= join_hyphen(parts.push(t)).push(c));
    }
}

/// Opening a fresh empty part appends a hyphen to the joined sequence.
proof fn lemma_join_push_empty(parts: Seq<Seq<char>>, t: Seq<char>)
    ensures
        join_hyphen(parts.push(t).push(Seq::empty())) == join_hyphen(parts.push(t)).push('-'),
    decreases parts.len(),
{
    if parts.len() == 0 {
        let q = parts.push(t).push(Seq::<char>::empty());
        assert(q.drop_first() =~= seq![Seq::<char>::empty()]);
        assert(join_hyphen(q.drop_first()) == Seq::<char>::empty());
        assert(join_hyphen(q) == q[0] + seq!['-'] + join_hyphen(q.drop_first()));
        assert(join_hyphen(q) =~= t.push('-'));
        assert(join_hyphen(parts.push(t)) == t);
    } else {
        lemma_join_push_empty(parts.drop_first(), t);
        assert(parts.push(t).push(Seq::empty()).drop_first() =~= parts.drop_first().push(t).push(
            Seq::empty(),
        ));
        assert(parts.push(t).drop_first() =~= parts.drop_first().push(t));
        assert(join_hyphen(parts.push(t).push(Seq::empty())) =~= join_hyphen(parts.push(t)).push(
            '-',
        ));
    }
}

/// A vector of characters is its own deep view.
pub broadcast proof fn lemma_vec_char_deep_view(v: &Vec<char>)
    ensures
        #[trigger] v.deep_view() == v@,
{
    assert(v.deep_view() =~= v@);
}

/// The characters of `s`, one by one.
pub fn str_chars(s: &str) -> (v: Vec<char>)
    ensures
        v@ == s@,
{
    let n = s.unicode_len();
    let mut v: Vec<char> = Vec::new();
    let mut i: usize = 0;
    while i < n
        invariant
            n == s@.len(),
            i <= n,
            v@ == s@.take(i as int),
        decreases n - i,
    {
        let c = s.get_char(i);
        v.push(c);
        proof {
            assert(s@.take(i + 1 as int) =~= s@.take(i as int).push(s@[i as int]));
        }
        i += 1;
    }
    proof {
        assert(s@.take(n as int) =~= s@);
    }
    v
}

/// Cuts `chars` at every hyphen.
pub fn split_hyphens(chars: &Vec<char>) -> (parts: Vec<Vec<char>>)
    ensures
        parts.deep_view() == subtags_of(chars@),
        parts@.len() >= 1,
{
    let mut parts: Vec<Vec<char>> = Vec::new();
    let mut cur: Vec<char> = Vec::new();
    let mut i: usize = 0;
    while i < chars.len()
        invariant
            i <= chars@.len(),
            join_hyphen(parts.deep_view().push(cur@)) == chars@.take(i as int),
            hyphen_free(parts.deep_view().push(cur@)),
        decreases chars@.len() - i,
    {
        let c = chars[i];
        let ghost p0 = parts.deep_view();
        let ghost c0 = cur@;
        proof {
            assert(chars@.take(i + 1 as int) =~= chars@.take(i as int).push(chars@[i as int]));
        }
        if c == '-' {
            parts.push(cur);
            cur = Vec::new();
            proof {
                lemma_join_push_empty(p0, c0);
                assert(parts.deep_view() =~~= p0.push(c0));
                assert(parts.deep_view().push(cur@) =~= p0.push(c0).push(Seq::<char>::empty()));
                let q = p0.push(c0).push(Seq::<char>::empty());
                assert forall|k: int, j: int|
                    0 <= k < q.len() && 0 <= j < q[k].len() implies #[trigger] q[k][j] != '-' by {
                    if k < p0.push(c0).len() {
                        assert(q[k] == p0.push(c0)[k]);
                        assert(p0.push(c0)[k][j] != '-');
                    }
                }
            }
        } else {
            cur.push(c);
            proof {
                lemma_join_push_char(p0, c0, c);
                assert(parts.deep_view() == p0);
                assert(cur@ == c0.push(c));
                let q = p0.push(c0.push(c));
                assert forall|k: int, j: int|
                    0 <= k < q.len() && 0 <= j < q[k].len() implies #[trigger] q[k][j] != '-' by {
                    if k < p0.len() {
                        assert(q[k] == p0.push(c0)[k]);
                        assert(p0.push(c0)[k][j] != '-');
                    } else {
                        assert(q[k] == c0.push(c));
                        if j < c0.len() {
                            assert(c0.push(c)[j] == c0[j]);
                            assert(p0.push(c0)[p0.len() as int][j] != '-');
                        }
                    }
                }
            }
        }
        i += 1;
    }
    proof {
        assert(chars@.take(chars@.len() as int) =~= chars@);
    }
    let ghost p1 = parts.deep_view();
    let ghost c1 = cur@;
    parts.push(cur);
    proof {
        assert(parts.deep_view() =~~= p1.push(c1));
        lemma_subtags_of_join(parts.deep_view());
    }
    parts
}

} // verus!
