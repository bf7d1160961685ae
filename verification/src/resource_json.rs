//! Permission resources are stored as the JSON text of an array of strings.
use vstd::prelude::*;

verus! {

/// The JSON text `serde_json::to_string` writes for a list of strings.
pub uninterp spec fn json_string_list_text(items: Seq<Seq<char>>) -> Seq<char>;

/// The list of strings `serde_json::from_str` reads from `text` (`None` when
/// `text` is not a JSON array of strings).
pub uninterp spec fn json_string_list_parse(text: Seq<char>) -> Option<Seq<Seq<char>>>;

/// `serde_json::to_string` on a list of strings, with its error mapped to `None`.
///
/// Trusted: writing a list of strings into memory cannot fail, the text is
/// serde_json's JSON for the list, and serde_json reads that text back as the
/// same list.
#[verifier::external_body]
pub(crate) fn encode_string_list(items: &Vec<String>) -> (text: Option<String>)
    ensures
        text is Some,
        text.unwrap()@ == json_string_list_text(items.deep_view()),
        json_string_list_parse(text.unwrap()@) == Some(items.deep_view()),
{
    serde_json::to_string(items).ok()
}

/// `serde_json::from_str::<Vec<String>>`, with its error mapped to `None`.
///
/// Trusted: the result is serde_json's reading of `text`.
#[verifier::external_body]
pub(crate) fn decode_string_list(text: &str) -> (items: Option<Vec<String>>)
    ensures
        match items {
            Some(v) => json_string_list_parse(text@) == Some(v.deep_view()),
            None => json_string_list_parse(text@) is None,
        },
{
    serde_json::from_str::<Vec<String>>(text).ok()
}

/// The resources stored as `resource_json`: the parsed list, or none when the
/// column is empty or does not parse.
pub open spec fn spec_resources_of(resource_json: Option<Seq<char>>) -> Seq<Seq<char>> {
    match resource_json {
        Some(s) => match json_string_list_parse(s) {
            Some(v) => v,
            None => Seq::empty(),
        },
        None => Seq::empty(),
    }
}

/// The `resource_json` column for a list of resources: absent for none.
pub open spec fn spec_resource_json_of(resources: Seq<Seq<char>>) -> Option<Seq<char>> {
    if resources.len() == 0 {
        None
    } else {
        Some(json_string_list_text(resources))
    }
}

/// Reads the resources out of a `resource_json` column.
pub fn resources_of(resource_json: &Option<String>) -> (r: Vec<String>)
    ensures
        r.deep_view() == spec_resources_of(crate::text::opt_str(*resource_json)),
{
    match resource_json {
        Some(s) => match decode_string_list(s.as_str()) {
            Some(v) => v,
            None => {
                let v: Vec<String> = Vec::new();
                proof {
                    assert(v.deep_view() =~= Seq::<Seq<char>>::empty());
                }
                v
            },
        },
        None => {
            let v: Vec<String> = Vec::new();
            proof {
                assert(v.deep_view() =~= Seq::<Seq<char>>::empty());
            }
            v
        },
    }
}

/// Writes resources into a `resource_json` column.
pub fn resource_json_of(resources: &Vec<String>) -> (r: Option<String>)
    ensures
        crate::text::opt_str(r) == spec_resource_json_of(resources.deep_view()),
        spec_resources_of(crate::text::opt_str(r)) == resources.deep_view(),
{
    if resources.len() == 0 {
        None
    } else {
        encode_string_list(resources)
    }
}

} // verus!
