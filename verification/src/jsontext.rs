use vstd::prelude::*;

use crate::error::ErrorView;

verus! {

/// What serde_json parses a JSON array of strings into — `None` when the
/// text is not such an array. The result depends on the input text alone.
pub uninterp spec fn parsed_name_list(s: Seq<char>) -> Option<Seq<Seq<char>>>;

/// What serde_json prints a list of names as. The result depends on the
/// list alone.
pub uninterp spec fn name_list_json(names: Seq<Seq<char>>) -> Seq<char>;

/// Relies on `serde_json::from_str::<Vec<String>>`: parses a JSON array of
/// strings, failing exactly on text that is not one; a failure is carried
/// as its diagnostic text.
#[verifier::external_body]
fn parse_name_list(s: &str) -> (r: Result<Vec<String>, String>)
    ensures
        r is Ok <==> parsed_name_list(s@) is Some,
        r matches Ok(v) ==> Some(v.deep_view()) == parsed_name_list(s@),
{
    serde_json::from_str::<Vec<String>>(s).map_err(|e| e.to_string())
}

/// Relies on `serde_json::to_string_pretty::<Vec<String>>`: prints the list
/// as a pretty JSON array. Serialising strings cannot fail — serde_json
/// errors only on a failing `Serialize` impl or a map with non-string keys —
/// so the unwrap cannot panic.
#[verifier::external_body]
pub(crate) fn name_list_to_json(names: &Vec<String>) -> (r: String)
    ensures
        r@ == name_list_json(names.deep_view()),
{
    serde_json::to_string_pretty(names).unwrap()
}

/// Parses the persisted name index — a JSON array of profile name strings —
/// into the list of names it holds.
pub fn parse_name_index(s: &str) -> (r: Result<Vec<String>, crate::error::Error>)
    ensures
        r is Ok <==> parsed_name_list(s@) is Some,
        r matches Ok(v) ==> Some(v.deep_view()) == parsed_name_list(s@),
        r is Err ==> (r matches Err(e) && e@ matches ErrorView::JsonError(_)),
{
    match parse_name_list(s) {
        Ok(v) => Ok(v),
        Err(text) => Err(crate::error::Error::JsonError(text)),
    }
}

} // verus!
