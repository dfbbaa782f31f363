//! Looking up values in JSON texts.

use vstd::prelude::*;

verus! {

/// Error of a JSON text that cannot be read.
#[verifier::external_type_specification]
#[verifier::external_body]
pub struct ExJsonError(serde_json::Error);

/// What stands at a place of a JSON text, as far as it is read here.
#[derive(Debug)]
pub struct JsonLeaf {
    /// There is a value at the place.
    pub present: bool,
    /// The value is an object.
    pub is_object: bool,
    /// The value, where it is a string.
    pub text: Option<String>,
    /// The value, where it is a 64-bit integer.
    pub int: Option<i64>,
}

/// What a `JsonLeaf` says.
pub struct LeafModel {
    pub present: bool,
    pub is_object: bool,
    pub text: Option<Seq<char>>,
    pub int: Option<i64>,
}

impl View for JsonLeaf {
    type V = LeafModel;

    open spec fn view(&self) -> LeafModel {
        LeafModel {
            present: self.present,
            is_object: self.is_object,
            text: crate::decode::opt_view(self.text),
            int: self.int,
        }
    }
}

/// The text is valid JSON.
pub uninterp spec fn json_valid(text: Seq<char>) -> bool;

/// There is a value at a place, given as a JSON pointer, of a JSON text.
pub uninterp spec fn json_present(text: Seq<char>, path: Seq<char>) -> bool;

/// The value at a place of a JSON text is an object.
pub uninterp spec fn json_object(text: Seq<char>, path: Seq<char>) -> bool;

/// The string at a place of a JSON text.
pub uninterp spec fn json_string(text: Seq<char>, path: Seq<char>) -> Option<Seq<char>>;

/// The 64-bit integer at a place of a JSON text.
pub uninterp spec fn json_integer(text: Seq<char>, path: Seq<char>) -> Option<i64>;

/// What stands at a place of a JSON text.
pub open spec fn json_leaf(text: Seq<char>, path: Seq<char>) -> LeafModel {
    LeafModel {
        present: json_present(text, path),
        is_object: json_object(text, path),
        text: json_string(text, path),
        int: json_integer(text, path),
    }
}

/// `serde_json::from_str` into a `serde_json::Value`, then for each path
/// `Value::pointer` and, on what is found, `is_object`, `as_str` and `as_i64`.
/// Whether the text is valid depends on the text alone, what is found at a
/// path on the text and the path.
#[verifier::external_body]
pub(crate) fn leaves_at(text: &str, paths: &Vec<&str>) -> (r: Result<
    Vec<JsonLeaf>,
    serde_json::Error,
>)
    ensures
        r is Ok == json_valid(text@),
        r is Ok ==> r->Ok_0@.len() == paths@.len(),
        r is Ok ==> forall|i: int|
            0 <= i < paths@.len() ==> {
                let leaf = #[trigger] r->Ok_0@[i];
                &&& leaf.present == json_present(text@, paths@[i]@)
                &&& leaf.is_object == json_object(text@, paths@[i]@)
                &&& crate::decode::opt_view(leaf.text) == json_string(text@, paths@[i]@)
                &&& leaf.int == json_integer(text@, paths@[i]@)
            },
{
    let value: serde_json::Value = serde_json::from_str(text)?;
    let found = paths.iter().map(|path| value.pointer(path));
    Ok(found.map(|v| JsonLeaf {
        present: v.is_some(),
        is_object: v.is_some_and(|v| v.is_object()),
        text: v.and_then(|v| v.as_str()).map(|s| s.to_string()),
        int: v.and_then(|v| v.as_i64()),
    }).collect())
}

} // verus!
