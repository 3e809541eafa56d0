//! BCP-47 language tags: the structured value, its grammar, and the parser.
//!
//! A tag is either fully valid or it does not exist as a value: `parse`
//! rejects any string that breaks the subtag grammar.  Subtag values are
//! canonicalized while parsing: lower case throughout, except that a script is
//! title-cased and a region upper-cased.

use vstd::prelude::*;

use crate::chars::{is_alpha, is_alphanum, is_digit, lower_char, upper_char};
use crate::chars::{is_alpha_value, is_alphanum_value, is_digit_value};
use crate::strutil::{lower_string, push_char, push_lower, title_string, upper_string};
use crate::subtags::{split_hyphens, str_chars, subtags_of};

verus! {

/// The mathematical shape of a parsed tag: each field a canonical character
/// sequence, optional fields absent where the identifier leaves them out.
pub ghost struct TagView {
    pub primary: Seq<char>,
    pub extended: Option<Seq<char>>,
    pub script: Option<Seq<char>>,
    pub region: Option<Seq<char>>,
    pub variant: Option<Seq<char>>,
    pub extension: Option<Seq<char>>,
    pub private: Option<Seq<char>>,
}

/// A parsed, canonicalized BCP-47 language tag.
pub struct LanguageTag {
    pub primary_language: String,
    pub extended_language: Option<String>,
    pub script: Option<String>,
    pub region: Option<String>,
    pub variant: Option<String>,
    pub extension: Option<String>,
    pub private_use: Option<String>,
}

pub open spec fn opt_view(o: Option<String>) -> Option<Seq<char>> {
    match o {
        Some(s) => Some(s@),
        None => None,
    }
}

impl View for LanguageTag {
    type V = TagView;

    open spec fn view(&self) -> TagView {
        TagView {
            primary: self.primary_language@,
            extended: opt_view(self.extended_language),
            script: opt_view(self.script),
            region: opt_view(self.region),
            variant: opt_view(self.variant),
            extension: opt_view(self.extension),
            private: opt_view(self.private_use),
        }
    }
}

impl DeepView for LanguageTag {
    type V = TagView;

    open spec fn deep_view(&self) -> TagView {
        self.view()
    }
}

/// Copies one optional field value.
fn clone_opt_string(o: &Option<String>) -> (r: Option<String>)
    ensures
        r == *o,
{
    match o {
        Some(s) => Some(s.clone()),
        None => None,
    }
}

impl Clone for LanguageTag {
    /// An exact copy: the clone equals the original, field for field.
    fn clone(&self) -> (r: Self)
        ensures
            r == *self,
    {
        LanguageTag {
            primary_language: self.primary_language.clone(),
            extended_language: clone_opt_string(&self.extended_language),
            script: clone_opt_string(&self.script),
            region: clone_opt_string(&self.region),
            variant: clone_opt_string(&self.variant),
            extension: clone_opt_string(&self.extension),
            private_use: clone_opt_string(&self.private_use),
        }
    }
}

/// The parse of an optional tag, for relating executable and spec results.
pub open spec fn parse_view(r: Option<LanguageTag>) -> Option<TagView> {
    match r {
        Some(t) => Some(t@),
        None => None,
    }
}

// ---------------------------------------------------------------------------
// Subtag grammar
// ---------------------------------------------------------------------------

pub open spec fn all_alpha(s: Seq<char>) -> bool {
    forall|j: int| 0 <= j < s.len() ==> is_alpha(#[trigger] s[j])
}

pub open spec fn all_digit(s: Seq<char>) -> bool {
    forall|j: int| 0 <= j < s.len() ==> is_digit(#[trigger] s[j])
}

pub open spec fn all_alphanum(s: Seq<char>) -> bool {
    forall|j: int| 0 <= j < s.len() ==> is_alphanum(#[trigger] s[j])
}

/// Primary language: 2-3 or 5-8 letters.
pub open spec fn is_primary_subtag(s: Seq<char>) -> bool {
    (2 <= s.len() <= 3 || 5 <= s.len() <= 8) && all_alpha(s)
}

/// Extended language: exactly 3 letters.
pub open spec fn is_extlang_subtag(s: Seq<char>) -> bool {
    s.len() == 3 && all_alpha(s)
}

/// Script: exactly 4 letters.
pub open spec fn is_script_subtag(s: Seq<char>) -> bool {
    s.len() == 4 && all_alpha(s)
}

/// Region: 2 letters or 3 digits.
pub open spec fn is_region_subtag(s: Seq<char>) -> bool {
    (s.len() == 2 && all_alpha(s)) || (s.len() == 3 && all_digit(s))
}

/// Variant: 5-8 alphanumerics, or 4 beginning with a digit.
pub open spec fn is_variant_subtag(s: Seq<char>) -> bool {
    (5 <= s.len() <= 8 && all_alphanum(s)) || (s.len() == 4 && is_digit(s[0]) && all_alphanum(s))
}

/// The private-use marker: a single `x`, in either case.
pub open spec fn is_private_marker(s: Seq<char>) -> bool {
    s.len() == 1 && (s[0] == 'x' || s[0] == 'X')
}

/// An extension singleton: one alphanumeric character other than `x`.
pub open spec fn is_ext_singleton(s: Seq<char>) -> bool {
    s.len() == 1 && is_alphanum(s[0]) && !is_private_marker(s)
}

/// An extension payload subtag: 2-8 alphanumerics.
pub open spec fn is_ext_subtag(s: Seq<char>) -> bool {
    2 <= s.len() <= 8 && all_alphanum(s)
}

/// A private-use payload subtag: 1-8 alphanumerics.
pub open spec fn is_private_subtag(s: Seq<char>) -> bool {
    1 <= s.len() <= 8 && all_alphanum(s)
}

// ---------------------------------------------------------------------------
// Canonicalization
// ---------------------------------------------------------------------------

/// Lower-cases every character.
pub open spec fn lower_seq(s: Seq<char>) -> Seq<char> {
    s.map(|j: int, c: char| lower_char(c))
}

/// Title case: first character upper, the rest lower.
pub open spec fn title_seq(s: Seq<char>) -> Seq<char> {
    s.map(|j: int, c: char| if j == 0 { upper_char(c) } else { lower_char(c) })
}

/// Upper-cases every character.
pub open spec fn upper_seq(s: Seq<char>) -> Seq<char> {
    s.map(|j: int, c: char| upper_char(c))
}

// ---------------------------------------------------------------------------
// The parse, over the subtag list
// ---------------------------------------------------------------------------

/// Steps of the positional grammar, in the order the subtags may appear.
/// Each step consumes its subtag if the next one fits, then hands over to the
/// step for the next position.
pub open spec fn parse_extlang_at(ps: Seq<Seq<char>>, i: int, t: TagView) -> Option<TagView> {
    if i < ps.len() && is_extlang_subtag(ps[i]) {
        parse_script_at(ps, i + 1, TagView { extended: Some(lower_seq(ps[i])), ..t })
    } else {
        parse_script_at(ps, i, t)
    }
}

pub open spec fn parse_script_at(ps: Seq<Seq<char>>, i: int, t: TagView) -> Option<TagView> {
    if i < ps.len() && is_script_subtag(ps[i]) {
        parse_region_at(ps, i + 1, TagView { script: Some(title_seq(ps[i])), ..t })
    } else {
        parse_region_at(ps, i, t)
    }
}

pub open spec fn parse_region_at(ps: Seq<Seq<char>>, i: int, t: TagView) -> Option<TagView> {
    if i < ps.len() && is_region_subtag(ps[i]) {
        parse_variant_at(ps, i + 1, TagView { region: Some(upper_seq(ps[i])), ..t })
    } else {
        parse_variant_at(ps, i, t)
    }
}

pub open spec fn parse_variant_at(ps: Seq<Seq<char>>, i: int, t: TagView) -> Option<TagView> {
    if i < ps.len() && is_variant_subtag(ps[i]) {
        parse_extension_at(ps, i + 1, TagView { variant: Some(lower_seq(ps[i])), ..t })
    } else {
        parse_extension_at(ps, i, t)
    }
}

/// Extensions: an opaque run of subtags opened by a singleton, compared as a
/// single value and never decomposed by singleton.
pub open spec fn parse_extension_at(ps: Seq<Seq<char>>, i: int, t: TagView) -> Option<TagView> {
    if i < ps.len() && is_ext_singleton(ps[i]) {
        parse_extension_tail(ps, i + 1, t, lower_seq(ps[i]), false)
    } else {
        parse_private_at(ps, i, t)
    }
}

/// `acc` is the canonical extension value so far; `have` records whether the
/// most recent singleton has been followed by at least one payload subtag.
pub open spec fn parse_extension_tail(
    ps: Seq<Seq<char>>,
    i: int,
    t: TagView,
    acc: Seq<char>,
    have: bool,
) -> Option<TagView>
    decreases ps.len() - i,
{
    if i < ps.len() && is_ext_subtag(ps[i]) {
        parse_extension_tail(ps, i + 1, t, acc + seq!['-'] + lower_seq(ps[i]), true)
    } else if i < ps.len() && is_ext_singleton(ps[i]) {
        if have {
            parse_extension_tail(ps, i + 1, t, acc + seq!['-'] + lower_seq(ps[i]), false)
        } else {
            None
        }
    } else if have {
        parse_private_at(ps, i, TagView { extension: Some(acc), ..t })
    } else {
        None
    }
}

/// Private use: the reserved singleton `x` and at least one payload subtag,
/// reaching to the end of the identifier.
pub open spec fn parse_private_at(ps: Seq<Seq<char>>, i: int, t: TagView) -> Option<TagView> {
    if i == ps.len() {
        Some(t)
    } else if i < ps.len() && is_private_marker(ps[i]) {
        parse_private_tail(ps, i + 1, t, seq!['x'], false)
    } else {
        None
    }
}

pub open spec fn parse_private_tail(
    ps: Seq<Seq<char>>,
    i: int,
    t: TagView,
    acc: Seq<char>,
    have: bool,
) -> Option<TagView>
    decreases ps.len() - i,
{
    if i < ps.len() && is_private_subtag(ps[i]) {
        parse_private_tail(ps, i + 1, t, acc + seq!['-'] + lower_seq(ps[i]), true)
    } else if i >= ps.len() && have {
        Some(TagView { private: Some(acc), ..t })
    } else {
        None
    }
}

/// The parse of a subtag list: a valid primary language, then the optional
/// positions in order, with nothing left over.
pub open spec fn parse_parts(ps: Seq<Seq<char>>) -> Option<TagView> {
    if ps.len() >= 1 && is_primary_subtag(ps[0]) {
        parse_extlang_at(
            ps,
            1,
            TagView {
                primary: lower_seq(ps[0]),
                extended: None,
                script: None,
                region: None,
                variant: None,
                extension: None,
                private: None,
            },
        )
    } else {
        None
    }
}

/// The parse of a raw identifier: split at hyphens, then the grammar.
pub open spec fn parse_spec(s: Seq<char>) -> Option<TagView> {
    parse_parts(subtags_of(s))
}

// ---------------------------------------------------------------------------
// Canonical serialization
// ---------------------------------------------------------------------------

/// A defined field contributes itself behind a hyphen; an absent one nothing.
pub open spec fn opt_part(o: Option<Seq<char>>) -> Seq<char> {
    match o {
        Some(v) => seq!['-'] + v,
        None => Seq::empty(),
    }
}

/// The canonical string form of a tag: its defined fields in grammar order,
/// hyphen-delimited.
pub open spec fn tag_to_seq(t: TagView) -> Seq<char> {
    t.primary + opt_part(t.extended) + opt_part(t.script) + opt_part(t.region) + opt_part(
        t.variant,
    ) + opt_part(t.extension) + opt_part(t.private)
}

/// Appends `-` and the field value where the field is defined.
fn append_opt(s: &mut String, o: &Option<String>)
    ensures
        final(s)@ == old(s)@ + opt_part(opt_view(*o)),
{
    match o {
        Some(v) => {
            let ghost s0 = s@;
            push_char(s, '-');
            s.append(v.as_str());
            proof {
                assert(s@ =~= s0 + opt_part(opt_view(*o)));
            }
        },
        None => {
            proof {
                assert(s@ =~= s@ + opt_part(opt_view(*o)));
            }
        },
    }
}

impl LanguageTag {
    /// The canonical serialization of this tag.
    pub fn to_canonical_string(&self) -> (r: String)
        ensures
            r@ == tag_to_seq(self@),
    {
        let mut s = self.primary_language.clone();
        append_opt(&mut s, &self.extended_language);
        append_opt(&mut s, &self.script);
        append_opt(&mut s, &self.region);
        append_opt(&mut s, &self.variant);
        append_opt(&mut s, &self.extension);
        append_opt(&mut s, &self.private_use);
        proof {
            assert(s@ =~= tag_to_seq(self@));
        }
        s
    }
}

// ---------------------------------------------------------------------------
// Executable grammar tests
// ---------------------------------------------------------------------------

fn all_alpha_chars(v: &Vec<char>) -> (r: bool)
    ensures
        r == all_alpha(v@),
{
    let mut i: usize = 0;
    while i < v.len()
        invariant
            i <= v@.len(),
            forall|j: int| 0 <= j < i ==> is_alpha(#[trigger] v@[j]),
        decreases v@.len() - i,
    {
        if !is_alpha_value(v[i]) {
            return false;
        }
        i += 1;
    }
    true
}

fn all_digit_chars(v: &Vec<char>) -> (r: bool)
    ensures
        r == all_digit(v@),
{
    let mut i: usize = 0;
    while i < v.len()
        invariant
            i <= v@.len(),
            forall|j: int| 0 <= j < i ==> is_digit(#[trigger] v@[j]),
        decreases v@.len() - i,
    {
        if !is_digit_value(v[i]) {
            return false;
        }
        i += 1;
    }
    true
}

fn all_alphanum_chars(v: &Vec<char>) -> (r: bool)
    ensures
        r == all_alphanum(v@),
{
    let mut i: usize = 0;
    while i < v.len()
        invariant
            i <= v@.len(),
            forall|j: int| 0 <= j < i ==> is_alphanum(#[trigger] v@[j]),
        decreases v@.len() - i,
    {
        if !is_alphanum_value(v[i]) {
            return false;
        }
        i += 1;
    }
    true
}

fn is_primary_chars(v: &Vec<char>) -> (r: bool)
    ensures
        r == is_primary_subtag(v@),
{
    (2 <= v.len() && v.len() <= 3 || 5 <= v.len() && v.len() <= 8) && all_alpha_chars(v)
}

fn is_extlang_chars(v: &Vec<char>) -> (r: bool)
    ensures
        r == is_extlang_subtag(v@),
{
    v.len() == 3 && all_alpha_chars(v)
}

fn is_script_chars(v: &Vec<char>) -> (r: bool)
    ensures
        r == is_script_subtag(v@),
{
    v.len() == 4 && all_alpha_chars(v)
}

fn is_region_chars(v: &Vec<char>) -> (r: bool)
    ensures
        r == is_region_subtag(v@),
{
    v.len() == 2 && all_alpha_chars(v) || v.len() == 3 && all_digit_chars(v)
}

fn is_variant_chars(v: &Vec<char>) -> (r: bool)
    ensures
        r == is_variant_subtag(v@),
{
    5 <= v.len() && v.len() <= 8 && all_alphanum_chars(v) || v.len() == 4 && is_digit_value(v[0])
        && all_alphanum_chars(v)
}

fn is_private_marker_chars(v: &Vec<char>) -> (r: bool)
    ensures
        r == is_private_marker(v@),
{
    v.len() == 1 && (v[0] == 'x' || v[0] == 'X')
}

fn is_ext_singleton_chars(v: &Vec<char>) -> (r: bool)
    ensures
        r == is_ext_singleton(v@),
{
    v.len() == 1 && is_alphanum_value(v[0]) && !(v[0] == 'x' || v[0] == 'X')
}

fn is_ext_subtag_chars(v: &Vec<char>) -> (r: bool)
    ensures
        r == is_ext_subtag(v@),
{
    2 <= v.len() && v.len() <= 8 && all_alphanum_chars(v)
}

fn is_private_subtag_chars(v: &Vec<char>) -> (r: bool)
    ensures
        r == is_private_subtag(v@),
{
    1 <= v.len() && v.len() <= 8 && all_alphanum_chars(v)
}

// ---------------------------------------------------------------------------
// The parser
// ---------------------------------------------------------------------------

/// Parses a raw locale identifier into a canonicalized tag, or nothing where
/// the identifier breaks the grammar.  Rejection is a filtering signal, not an
/// error: a malformed identifier simply does not denote a tag.
pub fn parse(raw: &str) -> (r: Option<LanguageTag>)
    ensures
        parse_view(r) == parse_spec(raw@),
{
    broadcast use crate::subtags::lemma_vec_char_deep_view;

    let chars = str_chars(raw);
    let parts = split_hyphens(&chars);
    let ghost ps = parts.deep_view();

    if !is_primary_chars(&parts[0]) {
        return None;
    }
    let primary = lower_string(&parts[0]);
    let mut extended: Option<String> = None;
    let mut script: Option<String> = None;
    let mut region: Option<String> = None;
    let mut variant: Option<String> = None;
    let mut i: usize = 1;

    let ghost t0 = TagView {
        primary: primary@,
        extended: None,
        script: None,
        region: None,
        variant: None,
        extension: None,
        private: None,
    };
    proof {
        assert(parse_spec(raw@) == parse_extlang_at(ps, 1, t0));
    }

    if i < parts.len() && is_extlang_chars(&parts[i]) {
        extended = Some(lower_string(&parts[i]));
        i += 1;
    }
    let ghost t1 = TagView { extended: opt_view(extended), ..t0 };
    proof {
        assert(parse_spec(raw@) == parse_script_at(ps, i as int, t1));
    }

    if i < parts.len() && is_script_chars(&parts[i]) {
        script = Some(title_string(&parts[i]));
        i += 1;
    }
    let ghost t2 = TagView { script: opt_view(script), ..t1 };
    proof {
        assert(parse_spec(raw@) == parse_region_at(ps, i as int, t2));
    }

    if i < parts.len() && is_region_chars(&parts[i]) {
        region = Some(upper_string(&parts[i]));
        i += 1;
    }
    let ghost t3 = TagView { region: opt_view(region), ..t2 };
    proof {
        assert(parse_spec(raw@) == parse_variant_at(ps, i as int, t3));
    }

    if i < parts.len() && is_variant_chars(&parts[i]) {
        variant = Some(lower_string(&parts[i]));
        i += 1;
    }
    let ghost t4 = TagView { variant: opt_view(variant), ..t3 };
    proof {
        assert(parse_spec(raw@) == parse_extension_at(ps, i as int, t4));
    }

    let mut extension: Option<String> = None;
    if i < parts.len() && is_ext_singleton_chars(&parts[i]) {
        let mut acc = lower_string(&parts[i]);
        let mut have = false;
        i += 1;
        while i < parts.len() && (is_ext_subtag_chars(&parts[i]) || is_ext_singleton_chars(
            &parts[i],
        ))
            invariant
                ps == parts.deep_view(),
                i <= parts@.len(),
                ps.len() == parts@.len(),
                parse_spec(raw@) == parse_extension_tail(ps, i as int, t4, acc@, have),
            decreases parts@.len() - i,
        {
            let ghost acc0 = acc@;
            let ghost have0 = have;
            if is_ext_subtag_chars(&parts[i]) {
                push_char(&mut acc, '-');
                push_lower(&mut acc, &parts[i]);
                have = true;
            } else {
                if !have {
                    proof {
                        assert(parse_spec(raw@) is None);
                    }
                    return None;
                }
                push_char(&mut acc, '-');
                push_lower(&mut acc, &parts[i]);
                have = false;
            }
            proof {
                assert(acc@ =~= acc0 + seq!['-'] + lower_seq(ps[i as int]));
                assert(parse_extension_tail(ps, i as int, t4, acc0, have0)
                    == parse_extension_tail(ps, i as int + 1, t4, acc@, have));
            }
            i += 1;
        }
        if !have {
            proof {
                assert(parse_spec(raw@) is None);
            }
            return None;
        }
        extension = Some(acc);
    }
    let ghost t5 = TagView { extension: opt_view(extension), ..t4 };
    proof {
        assert(parse_spec(raw@) == parse_private_at(ps, i as int, t5));
    }

    let mut private_use: Option<String> = None;
    if i == parts.len() {
        let tag = LanguageTag {
            primary_language: primary,
            extended_language: extended,
            script,
            region,
            variant,
            extension,
            private_use,
        };
        proof {
            assert(tag@ == t5);
        }
        return Some(tag);
    }
    if !is_private_marker_chars(&parts[i]) {
        proof {
            assert(parse_spec(raw@) is None);
        }
        return None;
    }
    let mut acc = String::new();
    push_char(&mut acc, 'x');
    proof {
        assert(acc@ =~= seq!['x']);
    }
    let mut have = false;
    i += 1;
    while i < parts.len() && is_private_subtag_chars(&parts[i])
        invariant
            ps == parts.deep_view(),
            i <= parts@.len(),
            ps.len() == parts@.len(),
            parse_spec(raw@) == parse_private_tail(ps, i as int, t5, acc@, have),
        decreases parts@.len() - i,
    {
        let ghost acc0 = acc@;
        let ghost have0 = have;
        push_char(&mut acc, '-');
        push_lower(&mut acc, &parts[i]);
        have = true;
        proof {
            assert(acc@ =~= acc0 + seq!['-'] + lower_seq(ps[i as int]));
            assert(parse_private_tail(ps, i as int, t5, acc0, have0) == parse_private_tail(
                ps,
                i as int + 1,
                t5,
                acc@,
                have,
            ));
        }
        i += 1;
    }
    if i < parts.len() || !have {
        proof {
            assert(parse_spec(raw@) is None);
        }
        return None;
    }
    let ghost accv = acc@;
    private_use = Some(acc);
    let tag = LanguageTag {
        primary_language: primary,
        extended_language: extended,
        script,
        region,
        variant,
        extension,
        private_use,
    };
    proof {
        assert(tag@ == TagView { private: Some(accv), ..t5 });
    }
    Some(tag)
}

} // verus!
