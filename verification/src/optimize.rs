//! The default SVG markup optimization: regex-based stripping of fill
//! attributes, comments, metadata and redundant whitespace from the text of
//! an SVG document.
//!
//! The matching and replacing itself is the regex crate's; what this module
//! owns is the fixed chain of rewrites and its conditions.

use vstd::prelude::*;

verus! {

/// Whether `pattern` is a valid regular expression, a property of the
/// pattern alone.  `regex::Regex::new` decides it.
pub uninterp spec fn regex_valid(pattern: Seq<char>) -> bool;

/// What `regex::Regex::replace_all` returns: `text` with every
/// non-overlapping match of `pattern` replaced by `rep`, a function of the
/// three texts alone.
pub uninterp spec fn replace_all_of(pattern: Seq<char>, text: Seq<char>, rep: Seq<char>) -> Seq<
    char,
>;

/// Whether `text` contains a match of `pattern`, as `regex::Regex::find`
/// reports it, a function of the two texts alone.
pub uninterp spec fn regex_matches(pattern: Seq<char>, text: Seq<char>) -> bool;

/// What `str::trim` returns: `text` without leading and trailing whitespace,
/// a function of the characters alone.
pub uninterp spec fn trim_of(text: Seq<char>) -> Seq<char>;

/// Relies on regex::Regex::new and regex::Regex::replace_all: compiles
/// `pattern` and replaces every non-overlapping match in `text` with `rep`
/// (capture-group references in `rep` included); nothing where the pattern is
/// not a valid regular expression.
#[verifier::external_body]
fn regex_replace_all(pattern: &str, text: &str, rep: &str) -> (r: Option<String>)
    ensures
        r is Some <==> regex_valid(pattern@),
        r matches Some(out) ==> out@ == replace_all_of(pattern@, text@, rep@),
{
    match regex::Regex::new(pattern) {
        Ok(re) => Some(re.replace_all(text, rep).into_owned()),
        Err(_) => None,
    }
}

/// Relies on regex::Regex::new and regex::Regex::find: reports whether `text`
/// holds any match of `pattern`; nothing where the pattern is invalid.
#[verifier::external_body]
fn regex_found(pattern: &str, text: &str) -> (r: Option<bool>)
    ensures
        r is Some <==> regex_valid(pattern@),
        r matches Some(b) ==> b == regex_matches(pattern@, text@),
{
    match regex::Regex::new(pattern) {
        Ok(re) => Some(re.find(text).is_some()),
        Err(_) => None,
    }
}

/// Relies on str::trim: removes leading and trailing Unicode whitespace.
#[verifier::external_body]
fn trim_str(text: &str) -> (r: String)
    ensures
        r@ == trim_of(text@),
{
    text.trim().to_string()
}

pub const FILL_PATTERN: &'static str = "fill=\"[^\"]*\"";

pub const XLINK_HREF_PATTERN: &'static str = "xlink:href";

pub const XMLNS_XLINK_PATTERN: &'static str = "\\s+xmlns:xlink=\"[^\"]*\\\"";

pub const COMMENT_PATTERN: &'static str = "<!--.*?-->";

pub const XML_TAG_PATTERN: &'static str = "<\\?xml.*?>";

pub const DOCTYPE_PATTERN: &'static str = "<!DOCTYPE svg[^>]*>";

pub const WHITESPACE_PATTERN: &'static str = "\\s+";

pub const TAG_WHITESPACE_PATTERN: &'static str = "\\s*([<>])\\s*";

pub const BETWEEN_TAGS_PATTERN: &'static str = ">[^<]+<";

pub const XML_SPACE_PATTERN: &'static str = "\\s+xml:space=\"[^\"]+\"";

/// All the patterns of the optimization chain compile.
pub open spec fn patterns_valid() -> bool {
    regex_valid(FILL_PATTERN@) && regex_valid(XLINK_HREF_PATTERN@) && regex_valid(
        XMLNS_XLINK_PATTERN@,
    ) && regex_valid(COMMENT_PATTERN@) && regex_valid(XML_TAG_PATTERN@) && regex_valid(
        DOCTYPE_PATTERN@,
    ) && regex_valid(WHITESPACE_PATTERN@) && regex_valid(TAG_WHITESPACE_PATTERN@) && regex_valid(
        BETWEEN_TAGS_PATTERN@,
    ) && regex_valid(XML_SPACE_PATTERN@)
}

/// The optimized text: trimmed, then rewritten by the fixed chain.  The fill
/// attributes go only on request; the xlink namespace declaration goes only
/// where no xlink:href remains; xml:space goes only where no text stands
/// between tags.
pub open spec fn optimize_spec(content: Seq<char>, remove_fill: bool) -> Seq<char> {
    let c0 = trim_of(content);
    let c1 = if remove_fill {
        replace_all_of(FILL_PATTERN@, c0, ""@)
    } else {
        c0
    };
    let c2 = if !regex_matches(XLINK_HREF_PATTERN@, c1) {
        replace_all_of(XMLNS_XLINK_PATTERN@, c1, ""@)
    } else {
        c1
    };
    let c3 = replace_all_of(COMMENT_PATTERN@, c2, ""@);
    let c4 = replace_all_of(XML_TAG_PATTERN@, c3, ""@);
    let c5 = replace_all_of(DOCTYPE_PATTERN@, c4, ""@);
    let c6 = replace_all_of(WHITESPACE_PATTERN@, c5, " "@);
    let c7 = replace_all_of(TAG_WHITESPACE_PATTERN@, c6, "$1"@);
    if !regex_matches(BETWEEN_TAGS_PATTERN@, c7) {
        replace_all_of(XML_SPACE_PATTERN@, c7, ""@)
    } else {
        c7
    }
}

/// Optimizes the text of an SVG document.  Succeeds whenever the fixed
/// patterns compile (they do; the alternative exists only because nothing is
/// taken on trust about the regex crate's parser), and then returns exactly
/// the chain of rewrites that `optimize_spec` lays down.
pub fn default_optimize_content(content: &str, remove_fill: bool) -> (r: Option<String>)
    ensures
        patterns_valid() ==> r is Some,
        r matches Some(out) ==> out@ == optimize_spec(content@, remove_fill),
{
    let c0 = trim_str(content);
    let c1 = if remove_fill {
        match regex_replace_all(FILL_PATTERN, c0.as_str(), "") {
            Some(t) => t,
            None => {
                return None;
            },
        }
    } else {
        c0
    };
    let found_xlink = match regex_found(XLINK_HREF_PATTERN, c1.as_str()) {
        Some(b) => b,
        None => {
            return None;
        },
    };
    let c2 = if !found_xlink {
        match regex_replace_all(XMLNS_XLINK_PATTERN, c1.as_str(), "") {
            Some(t) => t,
            None => {
                return None;
            },
        }
    } else {
        c1
    };
    let c3 = match regex_replace_all(COMMENT_PATTERN, c2.as_str(), "") {
        Some(t) => t,
        None => {
            return None;
        },
    };
    let c4 = match regex_replace_all(XML_TAG_PATTERN, c3.as_str(), "") {
        Some(t) => t,
        None => {
            return None;
        },
    };
    let c5 = match regex_replace_all(DOCTYPE_PATTERN, c4.as_str(), "") {
        Some(t) => t,
        None => {
            return None;
        },
    };
    let c6 = match regex_replace_all(WHITESPACE_PATTERN, c5.as_str(), " ") {
        Some(t) => t,
        None => {
            return None;
        },
    };
    let c7 = match regex_replace_all(TAG_WHITESPACE_PATTERN, c6.as_str(), "$1") {
        Some(t) => t,
        None => {
            return None;
        },
    };
    let found_between = match regex_found(BETWEEN_TAGS_PATTERN, c7.as_str()) {
        Some(b) => b,
        None => {
            return None;
        },
    };
    let c8 = if !found_between {
        match regex_replace_all(XML_SPACE_PATTERN, c7.as_str(), "") {
            Some(t) => t,
            None => {
                return None;
            },
        }
    } else {
        c7
    };
    Some(c8)
}

} // verus!
