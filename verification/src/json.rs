//! Fields of JSON texts, read with `serde_json`.
use vstd::prelude::*;

verus! {

/// The bits of the number that a JSON object has under a key, as double precision.
pub uninterp spec fn number_field(json: Seq<char>, key: Seq<char>) -> Option<u64>;

/// The unsigned integer that a JSON object has under a key.
pub uninterp spec fn unsigned_field(json: Seq<char>, key: Seq<char>) -> Option<u64>;

/// The entries of a JSON object in the order of its map: each name, with the array
/// that the entry has under a key where it has one, element by element as unsigned
/// integers.
pub uninterp spec fn array_entries(json: Seq<char>, key: Seq<char>) -> Option<
    Seq<(Seq<char>, Option<Seq<Option<u64>>>)>,
>;

/// `serde_json::from_str` to a `Value`, then its field under a key as a number: a
/// function of the text and the key. It is nothing where the text is no JSON
/// object, has no such key, or the field is no number.
#[verifier::external_body]
pub(crate) fn read_number(json: &str, key: &str) -> (r: Option<u64>)
    ensures
        r == number_field(json@, key@),
{
    let value: serde_json::Value = serde_json::from_str(json).ok()?;
    value.get(key)?.as_f64().map(|x| x.to_bits())
}

/// `serde_json::from_str` to a `Value`, then its field under a key as an unsigned
/// integer: a function of the text and the key. It is nothing where the text is no
/// JSON object, has no such key, or the field is no unsigned integer.
#[verifier::external_body]
pub(crate) fn read_unsigned(json: &str, key: &str) -> (r: Option<u64>)
    ensures
        r == unsigned_field(json@, key@),
{
    let value: serde_json::Value = serde_json::from_str(json).ok()?;
    value.get(key)?.as_u64()
}

/// An entry of a JSON object with an array of its own.
#[derive(Debug)]
pub struct ArrayEntry {
    pub name: String,
    pub array: Option<Vec<Option<u64>>>,
}

impl View for ArrayEntry {
    type V = (Seq<char>, Option<Seq<Option<u64>>>);

    open spec fn view(&self) -> (Seq<char>, Option<Seq<Option<u64>>>) {
        (
            self.name@,
            match self.array {
                Some(s) => Some(s@),
                None => None,
            },
        )
    }
}

/// What a list of entries holds.
pub open spec fn entries_view(v: Option<Vec<ArrayEntry>>) -> Option<
    Seq<(Seq<char>, Option<Seq<Option<u64>>>)>,
> {
    match v {
        Some(v) => Some(v@.map_values(|e: ArrayEntry| e@)),
        None => None,
    }
}

/// `serde_json::from_str` to a `Value`, then its entries as an object, each with its
/// array under a key: a function of the text and the key. It is nothing where the
/// text is no JSON object.
#[verifier::external_body]
pub(crate) fn read_arrays(json: &str, key: &str) -> (r: Option<Vec<ArrayEntry>>)
    ensures
        entries_view(r) == array_entries(json@, key@),
{
    let value: serde_json::Value = serde_json::from_str(json).ok()?;
    let entry = |(n, e): (&String, &serde_json::Value)| ArrayEntry {
        name: n.clone(),
        array: e.get(key).and_then(|s| s.as_array()).map(
            |a| a.iter().map(|n| n.as_u64()).collect(),
        ),
    };
    Some(value.as_object()?.iter().map(entry).collect())
}

} // verus!
