use vstd::prelude::*;

verus! {

/// The text that `serde_json` writes for the JSON object with one member,
/// named `field`, whose value is the array of the numbers in `bytes`: what
/// `Display` for `serde_json::Value` gives for that value, in its compact
/// form.
pub uninterp spec fn json_object_text(field: Seq<char>, bytes: Seq<u8>) -> Seq<char>;

/// Builds the `serde_json::Value` of the object with the one member `field`
/// whose value is the array of the numbers in `bytes`, and has it written out
/// by `serde_json`'s `Display` for `Value` (through `to_string`). The
/// contract claims no more than that the text is a function of the field's
/// name and the bytes; nothing was proved of the text itself.
#[verifier::external_body]
pub(crate) fn json_object_of_bytes(field: &str, bytes: &Vec<u8>) -> (text: String)
    ensures
        text@ == json_object_text(field@, bytes@),
{
    let mut object = serde_json::Map::new();
    object.insert(field.to_owned(), serde_json::Value::from(bytes.clone()));
    serde_json::Value::Object(object).to_string()
}

} // verus!
