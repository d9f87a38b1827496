use vstd::prelude::*;

verus! {

#[verifier::external_type_specification]
#[verifier::external_body]
pub struct ExValue(serde_json::Value);

#[verifier::external_type_specification]
#[verifier::external_body]
pub struct ExNumber(serde_json::Number);

/// One layer of a parsed document: the value's variant with its direct
/// contents, numbers still in the parser's own form.
pub enum Node {
    Null,
    Bool(bool),
    Num(serde_json::Number),
    Str(String),
    Arr(Vec<serde_json::Value>),
    Obj(Vec<(String, serde_json::Value)>),
}

/// The document a byte string parses to, as the library's tree — or
/// nothing, when the bytes are no document the library can hold. Parsing
/// is a function of the bytes alone, so the result can bear a name; what
/// the name is on given bytes no contract says.
pub uninterp spec fn spec_parse(bytes: Seq<u8>) -> Option<crate::json::JsonV>;

/// Relies on serde_json::from_slice::<serde_json::Value>: parses one JSON
/// document from bytes, deterministically; the parsed document, taken
/// into the library's tree by the verified conversion, is what
/// `spec_parse` names. `None` when the bytes are not valid JSON or the
/// document is not one the library can hold.
#[verifier::external_body]
pub fn parse_document(bytes: &[u8]) -> (r: Option<crate::json::Json>)
    ensures
        match r {
            Some(j) => spec_parse(bytes@) == Some(j@),
            None => spec_parse(bytes@) is None,
        },
{
    serde_json::from_slice::<serde_json::Value>(bytes).ok().and_then(
        |v| crate::framer::json_of_value(v, crate::framer::MAX_DEPTH),
    )
}

/// Relies on the variants of serde_json::Value: hands each variant's
/// contents over one for one, object members in the order the parser
/// keeps them.
#[verifier::external_body]
pub fn value_node(v: serde_json::Value) -> (r: Node) {
    match v {
        serde_json::Value::Null => Node::Null,
        serde_json::Value::Bool(b) => Node::Bool(b),
        serde_json::Value::Number(n) => Node::Num(n),
        serde_json::Value::String(s) => Node::Str(s),
        serde_json::Value::Array(a) => Node::Arr(a),
        serde_json::Value::Object(m) => Node::Obj(m.into_iter().collect()),
    }
}

/// Relies on serde_json::Number::as_i64: the number as a 64-bit integer
/// when it is one, `None` for anything else.
#[verifier::external_body]
pub fn number_as_i64(n: &serde_json::Number) -> (r: Option<i64>) {
    n.as_i64()
}

/// Relies on the Display of serde_json::Number: the number's wire text,
/// printed from digits, sign, decimal point and exponent marker alone.
#[verifier::external_body]
pub fn number_text(n: &serde_json::Number) -> (r: String)
    ensures
        crate::json::num_text_wf(r@),
{
    n.to_string()
}

} // verus!
