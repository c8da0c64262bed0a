//! The few calls into serde_json that loading needs.
use vstd::prelude::*;

verus! {

#[verifier::external_type_specification]
#[verifier::external_body]
pub struct ExJsonError(serde_json::Error);

/// The `(token, id)` pairs of a JSON object mapping strings to `u32`, in
/// ascending key order, or `None` where the text is no such object.
pub uninterp spec fn vocab_json(text: Seq<char>) -> Option<Seq<(Seq<char>, u32)>>;

/// The view of a list of `(token, id)` pairs.
pub open spec fn entries_view(v: Seq<(String, u32)>) -> Seq<(Seq<char>, u32)> {
    v.map_values(|p: (String, u32)| (p.0@, p.1))
}

/// Relies on `serde_json::from_str` into a `BTreeMap<String, u32>`, whose
/// pairs are then listed in key order; a map holds each key once.
#[verifier::external_body]
pub(crate) fn parse_vocab_json(text: &str) -> (r: Result<Vec<(String, u32)>, serde_json::Error>)
    ensures
        match r {
            Ok(v) => {
                &&& vocab_json(text@) == Some(entries_view(v@))
                &&& forall|i: int, j: int|
                    0 <= i < v@.len() && 0 <= j < v@.len() && v@[i].0@ == v@[j].0@ ==> i == j
            },
            Err(_) => vocab_json(text@) is None,
        },
{
    serde_json::from_str::<std::collections::BTreeMap<String, u32>>(text).map(
        |m| m.into_iter().collect(),
    )
}

/// Whether the text is one JSON document.
pub uninterp spec fn json_is_valid(text: Seq<char>) -> bool;

/// For a JSON document, the items of the array that a JSON pointer reaches,
/// each as an `i64` where it is an integer in that range; `None` where the
/// pointer reaches nothing or a value that is no array.
pub uninterp spec fn json_integers_at(text: Seq<char>, pointer: Seq<char>) -> Option<
    Seq<Option<i64>>,
>;

/// Relies on `serde_json::from_str` into a `serde_json::Value`, then
/// `Value::pointer`, `Value::as_array` and `Value::as_i64` on what it reaches.
#[verifier::external_body]
pub(crate) fn parse_integers_at(text: &str, pointer: &str) -> (r: Result<
    Option<Vec<Option<i64>>>,
    serde_json::Error,
>)
    ensures
        r is Ok == json_is_valid(text@),
        match r {
            Ok(Some(items)) => json_integers_at(text@, pointer@) == Some(items@),
            Ok(None) => json_integers_at(text@, pointer@) is None,
            Err(_) => true,
        },
{
    let doc = serde_json::from_str::<serde_json::Value>(text)?;
    Ok(doc.pointer(pointer).and_then(|a| a.as_array()).map(|a| a.iter().map(|x| x.as_i64()).collect()))
}

} // verus!
