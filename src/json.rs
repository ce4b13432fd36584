use vstd::prelude::*;

verus! {

#[verifier::external_type_specification]
#[verifier::external_body]
pub struct ExValue(serde_json::Value);

/// The `tool` string of the JSON text `s` when `s` parses as an object that
/// holds a string field `tool` and a field `params`; `None` otherwise.
pub uninterp spec fn tool_call_fields(s: Seq<char>) -> Option<Seq<char>>;

/// The `params` value of the JSON text `s`, when `s` parses as a tool-call
/// object.
pub uninterp spec fn tool_call_params(s: Seq<char>) -> serde_json::Value;

/// The JSON object `{"error": msg}`.
pub uninterp spec fn error_object(msg: Seq<char>) -> serde_json::Value;

/// Relies on serde_json::from_str, Value::get and Value::as_str: parses `s`
/// and picks out its `tool` string and its `params` value.
#[verifier::external_body]
pub(crate) fn parse_tool_call(s: &str) -> (r: Option<(String, serde_json::Value)>)
    ensures
        r is Some <==> tool_call_fields(s@) is Some,
        r is Some ==> (r->0).0@ == tool_call_fields(s@)->0,
        r is Some ==> (r->0).1 == tool_call_params(s@),
{
    let value: serde_json::Value = serde_json::from_str(s).ok()?;
    let tool = value.get("tool")?.as_str()?;
    let params = value.get("params")?;
    Some((tool.to_string(), params.clone()))
}

/// Relies on serde_json::Map::insert and Value::Object: builds the object
/// `{"error": msg}`.
#[verifier::external_body]
pub(crate) fn error_value(msg: String) -> (r: serde_json::Value)
    ensures
        r == error_object(msg@),
{
    let mut map = serde_json::Map::new();
    map.insert("error".to_string(), serde_json::Value::String(msg));
    serde_json::Value::Object(map)
}

/// The compact JSON text of `v`.
pub uninterp spec fn json_text_of(v: serde_json::Value) -> Seq<char>;

/// The indented JSON text of `v`.
pub uninterp spec fn json_pretty_text_of(v: serde_json::Value) -> Seq<char>;

/// Relies on `Display` for serde_json::Value (serde_json::to_string): the
/// compact JSON text of `v`.
#[verifier::external_body]
pub(crate) fn json_text(v: &serde_json::Value) -> (r: String)
    ensures
        r@ == json_text_of(*v),
{
    v.to_string()
}

/// Relies on serde_json::to_string_pretty: the indented JSON text of `v`.
/// Writing a `Value` to a `String` does not fail; an error would give an
/// empty text.
#[verifier::external_body]
pub(crate) fn json_pretty_text(v: &serde_json::Value) -> (r: String)
    ensures
        r@ == json_pretty_text_of(*v),
{
    serde_json::to_string_pretty(v).unwrap_or_default()
}

/// Relies on std's `FromIterator<char>` for `String`: the chars of `v`, in order.
#[verifier::external_body]
pub(crate) fn string_from_chars(v: &Vec<char>) -> (r: String)
    ensures
        r@ == v@,
{
    v.iter().collect()
}

} // verus!
