use vstd::prelude::*;

verus! {

/// What a member of a JSON object holds, as far as the event protocol reads it.
#[derive(Debug, PartialEq, Eq)]
pub enum JsonScalar {
    Null,
    /// A number, with its value where it is an integer that fits in `u64`.
    Number(Option<u64>),
    Text(String),
    /// A boolean, an array or an object.
    Other,
}

/// The mathematical value of a [`JsonScalar`].
pub ghost enum Scalar {
    Null,
    Number(Option<u64>),
    Text(Seq<char>),
    Other,
}

impl View for JsonScalar {
    type V = Scalar;

    open spec fn view(&self) -> Scalar {
        match self {
            JsonScalar::Null => Scalar::Null,
            JsonScalar::Number(n) => Scalar::Number(*n),
            JsonScalar::Text(s) => Scalar::Text(s@),
            JsonScalar::Other => Scalar::Other,
        }
    }
}

pub open spec fn members_view(ms: Seq<(String, JsonScalar)>) -> Seq<(Seq<char>, Scalar)> {
    ms.map_values(|m: (String, JsonScalar)| (m.0@, m.1@))
}

/// The members of the JSON object written in the bytes `line`, or `None` where `line`
/// is not one JSON object in UTF-8.
pub uninterp spec fn json_members(line: Seq<u8>) -> Option<Seq<(Seq<char>, Scalar)>>;

/// Relies on serde_json::from_slice, read into a `serde_json::Map`: it parses `line` as
/// one JSON object and fails on any other input; and on serde_json::Number::as_u64 for
/// the value of a number.
#[verifier::external_body]
pub(crate) fn parse_object(line: &[u8]) -> (r: Option<Vec<(String, JsonScalar)>>)
    ensures
        r is Some <==> json_members(line@) is Some,
        r is Some ==> members_view(r->0@) == json_members(line@)->0,
{
    match serde_json::from_slice::<serde_json::Map<String, serde_json::Value>>(line) {
        Ok(m) => Some(m.into_iter().map(|(k, v)| (k, match v {
            serde_json::Value::Null => JsonScalar::Null,
            serde_json::Value::Number(n) => JsonScalar::Number(n.as_u64()),
            serde_json::Value::String(s) => JsonScalar::Text(s),
            serde_json::Value::Bool(_) => JsonScalar::Other,
            serde_json::Value::Array(_) => JsonScalar::Other,
            serde_json::Value::Object(_) => JsonScalar::Other,
        })).collect()),
        Err(_) => None,
    }
}

} // verus!
