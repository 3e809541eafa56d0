//! Building strings character by character.

use vstd::prelude::*;

use crate::chars::{lower_char, lower_char_value, upper_char, upper_char_value};
use crate::tag::{lower_seq, title_seq, upper_seq};

verus! {

/// Relies on String::push: appends the given character to the end of the
/// string.
#[verifier::external_body]
pub(crate) fn push_char(s: &mut String, c: char)
    ensures
        final(s)@ == old(s)@.push(c),
{
    s.push(c);
}

/// Appends the lower-cased characters of `v` to `s`.
pub fn push_lower(s: &mut String, v: &Vec<char>)
    ensures
        final(s)@ == old(s)@ + lower_seq(v@),
{
    let mut i: usize = 0;
    while i < v.len()
        invariant
            i <= v@.len(),
            s@ == old(s)@ + lower_seq(v@).take(i as int),
        decreases v@.len() - i,
    {
        push_char(s, lower_char_value(v[i]));
        proof {
            assert(lower_seq(v@).take(i + 1 as int) =~= lower_seq(v@).take(i as int).push(
                lower_char(v@[i as int]),
            ));
            assert(old(s)@ + lower_seq(v@).take(i + 1 as int) =~= (old(s)@ + lower_seq(v@).take(
                i as int,
            )).push(lower_char(v@[i as int])));
        }
        i += 1;
    }
    proof {
        assert(lower_seq(v@).take(v@.len() as int) =~= lower_seq(v@));
    }
}

/// The lower-cased characters of `v`, as a string.
pub fn lower_string(v: &Vec<char>) -> (r: String)
    ensures
        r@ == lower_seq(v@),
{
    let mut s = String::new();
    push_lower(&mut s, v);
    proof {
        assert(Seq::<char>::empty() + lower_seq(v@) =~= lower_seq(v@));
    }
    s
}

/// The characters of `v` in title case (first upper, rest lower), as a string.
pub fn title_string(v: &Vec<char>) -> (r: String)
    ensures
        r@ == title_seq(v@),
{
    let mut s = String::new();
    let mut i: usize = 0;
    while i < v.len()
        invariant
            i <= v@.len(),
            s@ == title_seq(v@).take(i as int),
        decreases v@.len() - i,
    {
        let c = if i == 0 {
            upper_char_value(v[i])
        } else {
            lower_char_value(v[i])
        };
        push_char(&mut s, c);
        proof {
            assert(title_seq(v@).take(i + 1 as int) =~= title_seq(v@).take(i as int).push(
                title_seq(v@)[i as int],
            ));
        }
        i += 1;
    }
    proof {
        assert(title_seq(v@).take(v@.len() as int) =~= title_seq(v@));
    }
    s
}

/// The upper-cased characters of `v`, as a string.
pub fn upper_string(v: &Vec<char>) -> (r: String)
    ensures
        r@ == upper_seq(v@),
{
    let mut s = String::new();
    let mut i: usize = 0;
    while i < v.len()
        invariant
            i <= v@.len(),
            s@ == upper_seq(v@).take(i as int),
        decreases v@.len() - i,
    {
        push_char(&mut s, upper_char_value(v[i]));
        proof {
            assert(upper_seq(v@).take(i + 1 as int) =~= upper_seq(v@).take(i as int).push(
                upper_char(v@[i as int]),
            ));
        }
        i += 1;
    }
    proof {
        assert(upper_seq(v@).take(v@.len() as int) =~= upper_seq(v@));
    }
    s
}

} // verus!
