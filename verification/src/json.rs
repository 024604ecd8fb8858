//! JSON as text.
use crate::containers;
use vstd::prelude::*;

verus! {

broadcast use vstd::string::group_string_axioms;

/// The JSON document that some bytes hold, written out again.
pub uninterp spec fn json_of_bytes(b: Seq<u8>) -> Option<Seq<char>>;

/// `serde_json::from_slice` and `to_string` of the value: the JSON document that the bytes hold,
/// written out again; nothing where they hold none. A function of the bytes alone.
#[verifier::external_body]
pub(crate) fn json_from_bytes(b: &Vec<u8>) -> (r: Option<String>)
    ensures
        r.deep_view() == json_of_bytes(b@),
{
    serde_json::from_slice::<serde_json::Value>(b).ok().map(|v| v.to_string())
}

/// The JSON document that a text holds, written out again.
pub uninterp spec fn json_of_text(s: Seq<char>) -> Option<Seq<char>>;

/// `serde_json::from_str` and `to_string` of the value: the JSON document that the text holds,
/// written out again; nothing where it holds none. A function of the text alone.
#[verifier::external_body]
pub(crate) fn json_from_text(s: &str) -> (r: Option<String>)
    ensures
        r.deep_view() == json_of_text(s@),
{
    serde_json::from_str::<serde_json::Value>(s).ok().map(|v| v.to_string())
}

/// Whether JSON writes a text as it is: it holds no quote, backslash or control character.
pub open spec fn needs_no_escape(s: Seq<char>) -> bool {
    forall|i: int|
        0 <= i < s.len() ==> (#[trigger] s[i]) as u32 >= 32 && s[i] != '"' && s[i] != '\\'
}

/// A text as a JSON string with its quotes and escapes.
pub uninterp spec fn escaped_json(s: Seq<char>) -> Seq<char>;

/// A text as a JSON string, quotes included.
pub open spec fn json_string(s: Seq<char>) -> Seq<char> {
    if needs_no_escape(s) {
        "\""@ + s + "\""@
    } else {
        escaped_json(s)
    }
}

/// `serde_json::to_string` of a text: the text between quotes, and where it holds a quote, a
/// backslash or a control character, with escapes. A function of the text alone.
#[verifier::external_body]
pub(crate) fn to_json_string(s: &str) -> (r: String)
    ensures
        r@ == if needs_no_escape(s@) { "\""@ + s@ + "\""@ } else { escaped_json(s@) },
{
    serde_json::to_string(s).unwrap_or_default()
}

/// The list of strings that a JSON text holds, if it is one.
pub uninterp spec fn list_of_json(s: Seq<char>) -> Option<Seq<Seq<char>>>;

/// `serde_json::from_str` into a list of strings: the strings in their order, or nothing where the
/// text is no JSON array of strings. A function of the text alone.
#[verifier::external_body]
pub(crate) fn list_from_json(s: &str) -> (r: Option<Vec<String>>)
    ensures
        r.deep_view() == list_of_json(s@),
{
    serde_json::from_str::<Vec<String>>(s).ok()
}

/// `serde_json::to_string` of a list of strings: a text that reads back as the same list.
#[verifier::external_body]
pub(crate) fn list_to_json(v: &Vec<String>) -> (r: String)
    ensures
        list_of_json(r@) == Some(v.deep_view()),
{
    serde_json::to_string(v).unwrap_or_default()
}

/// The names and values of a JSON object of strings, if the text is one, in the order of the names.
pub uninterp spec fn pairs_of_json(s: Seq<char>) -> Option<Seq<(Seq<char>, Seq<char>)>>;

/// `serde_json::from_str` into a sorted map of strings: its names and values, each name once, or
/// nothing where the text is no JSON object of strings. A function of the text alone.
#[verifier::external_body]
pub(crate) fn pairs_from_json(s: &str) -> (r: Option<Vec<(String, String)>>)
    ensures
        r.deep_view() == pairs_of_json(s@),
        r is Some ==> containers::map_distinct(r->0.deep_view()),
{
    let map = serde_json::from_str::<std::collections::BTreeMap<String, String>>(s).ok()?;
    Some(map.into_iter().collect())
}

/// `serde_json::to_string` of a map of strings: a text that reads back as a map with the same
/// values under the same names, each name once.
#[verifier::external_body]
pub(crate) fn pairs_to_json(v: &Vec<(String, String)>) -> (r: String)
    requires
        containers::map_distinct(v.deep_view()),
    ensures
        pairs_of_json(r@) is Some,
        containers::map_distinct(pairs_of_json(r@)->0),
        forall|k: Seq<char>| containers::map_get(pairs_of_json(r@)->0, k) == containers::map_get(v.deep_view(), k),
{
    let map: std::collections::BTreeMap<&String, &String> = v.iter().map(|p| (&p.0, &p.1)).collect();
    serde_json::to_string(&map).unwrap_or_default()
}

} // verus!
