//! The narrow capability layer over the outside crates: HTML selector
//! matching, relative-URL resolution, URL filename extraction,
//! percent-decoding and filename sanitization.
//!
//! Each outside call sits in one wrapper whose contract pins its result to
//! an abstract name: every call is a pure function of its arguments, so the
//! rest of the library can be proved against those names exactly.

use vstd::prelude::*;

use crate::pipeline::MatchedElement;

verus! {

/// What selecting `selector` against the HTML document `body` yields, per
/// matched element in document order: the value of the queried attribute
/// (absent where the element does not carry it) and the element's
/// concatenated text content. `None` means the selector text is invalid.
pub uninterp spec fn matches_of(body: Seq<char>, selector: Seq<char>, attr: Seq<char>) -> Option<
    Seq<(Option<Seq<char>>, Seq<char>)>,
>;

/// What resolving the relative reference `rel` against the absolute URL
/// `base` yields, serialized; `None` where `base` does not parse as an
/// absolute URL or the resolution fails.
pub uninterp spec fn join_of(base: Seq<char>, rel: Seq<char>) -> Option<Seq<char>>;

/// The final `/`-separated path segment of the URL `u`, still
/// percent-encoded; `None` where `u` does not parse or cannot be a base.
pub uninterp spec fn last_segment_of(u: Seq<char>) -> Option<Seq<char>>;

/// The percent-decoding of `s`; `None` where the decoded bytes are not
/// valid UTF-8.
pub uninterp spec fn decode_of(s: Seq<char>) -> Option<Seq<char>>;

/// The filesystem-safe form of the candidate name `s`.
pub uninterp spec fn sanitize_of(s: Seq<char>) -> Seq<char>;

/// Holds of every character that `sanitize_of` may leave in its result:
/// path separators are always replaced and control characters are always
/// filtered out, per the sanitizer's own documentation.
pub open spec fn safe_segment_char(c: char) -> bool {
    &&& c != '/'
    &&& c != '\\'
    &&& (c as u32) >= 32
    &&& (c as u32) != 127
}

/// Relies on scraper::Selector::parse, scraper::Html::parse_document and
/// scraper::Html::select: parsing and selection are pure, and the matched
/// elements come back in document order with their attribute and text.
#[verifier::external_body]
pub(crate) fn select_matches(body: &str, selector: &str, attr: &str) -> (r: Option<
    Vec<MatchedElement>,
>)
    ensures
        match r {
            Some(v) => matches_of(body@, selector@, attr@) == Some(crate::pipeline::elems_view(v@)),
            None => matches_of(body@, selector@, attr@) is None,
        },
{
    let sel = match scraper::Selector::parse(selector) {
        Ok(s) => s,
        Err(_) => return None,
    };
    let html = scraper::Html::parse_document(body);
    let mut out = Vec::new();
    for el in html.select(&sel) {
        let target = el.value().attr(attr).map(|a| a.to_string());
        let text = el.text().collect::<String>();
        out.push(MatchedElement { target, text });
    }
    Some(out)
}

/// Relies on url::Url::parse and url::Url::join: resolving a relative
/// reference against a base URL is a pure function of the two strings.
#[verifier::external_body]
pub(crate) fn resolve_url(base: &str, rel: &str) -> (r: Option<String>)
    ensures
        match r {
            Some(u) => join_of(base@, rel@) == Some(u@),
            None => join_of(base@, rel@) is None,
        },
{
    let b = url::Url::parse(base).ok()?;
    let joined = b.join(rel).ok()?;
    Some(String::from(joined))
}

/// Relies on url::Url::parse and url::Url::path_segments: a parsed URL that
/// can be a base always has at least one (possibly empty) path segment, and
/// the segments are pure functions of the URL text.
#[verifier::external_body]
pub(crate) fn url_filename(u: &str) -> (r: Option<String>)
    ensures
        match r {
            Some(seg) => last_segment_of(u@) == Some(seg@),
            None => last_segment_of(u@) is None,
        },
{
    let parsed = url::Url::parse(u).ok()?;
    let segments = parsed.path_segments()?;
    segments.last().map(|s| s.to_string())
}

/// Relies on urlencoding::decode: percent-decoding is a pure function of
/// the input and fails exactly where the decoded bytes are not UTF-8.
#[verifier::external_body]
pub(crate) fn percent_decode(s: &str) -> (r: Option<String>)
    ensures
        match r {
            Some(d) => decode_of(s@) == Some(d@),
            None => decode_of(s@) is None,
        },
{
    match urlencoding::decode(s) {
        Ok(cow) => Some(cow.into_owned()),
        Err(_) => None,
    }
}

/// Relies on sanitize_filename_reader_friendly::sanitize: the result is a
/// pure function of the input, never longer than it, and its documentation
/// guarantees that path separators are always replaced and control
/// characters always filtered, so neither can appear in the output.
#[verifier::external_body]
pub(crate) fn sanitize_raw(s: &str) -> (r: String)
    ensures
        r@ == sanitize_of(s@),
        r@.len() <= s@.len(),
        forall|i: int| 0 <= i < r@.len() ==> safe_segment_char(#[trigger] r@[i]),
{
    sanitize_filename_reader_friendly::sanitize(s)
}

} // verus!
