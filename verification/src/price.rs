//! Reading a price out of the answer of a price feed: a status code and a
//! body of JSON text that holds the price as a string, at `data.amount`.

use vstd::prelude::*;

verus! {

/// A JSON document, or a part of one.
#[verifier::external_type_specification]
#[verifier::external_body]
pub struct ExJsonValue(serde_json::Value);

/// Why an answer gives no price.
#[derive(Clone, Copy, Debug, PartialEq, Eq, Structural)]
pub enum PriceError {
    /// The status is not 200, or the body holds no string at `data.amount`.
    Request,
    /// The body is not JSON text.
    Json,
}

/// The document that `serde_json::from_slice` reads from these bytes, if it
/// reads one.
pub uninterp spec fn json_parsed(body: Seq<u8>) -> Option<serde_json::Value>;

/// The member that `serde_json::Value::get` finds in a value under a key.
pub uninterp spec fn json_member(value: serde_json::Value, key: Seq<char>) -> Option<
    serde_json::Value,
>;

/// The text that `serde_json::Value::as_str` finds in a value.
pub uninterp spec fn json_text(value: serde_json::Value) -> Option<Seq<char>>;

/// Calls `serde_json::from_slice` for a `Value` and keeps the document, not
/// the reason where there is none. The outcome depends on the bytes alone;
/// nothing else is claimed of it.
#[verifier::external_body]
fn parse_json(body: &[u8]) -> (r: Option<serde_json::Value>)
    ensures
        r == json_parsed(body@),
{
    serde_json::from_slice::<serde_json::Value>(body).ok()
}

/// Calls `serde_json::Value::get` with a string key. The outcome depends on
/// the value and the key alone; nothing else is claimed of it.
#[verifier::external_body]
fn member<'a>(value: &'a serde_json::Value, key: &str) -> (r: Option<&'a serde_json::Value>)
    ensures
        match r {
            Some(found) => json_member(*value, key@) == Some(*found),
            None => json_member(*value, key@).is_none(),
        },
{
    value.get(key)
}

/// Calls `serde_json::Value::as_str` and copies the text. The outcome depends
/// on the value alone; nothing else is claimed of it.
#[verifier::external_body]
fn text_of(value: &serde_json::Value) -> (r: Option<String>)
    ensures
        match r {
            Some(text) => json_text(*value) == Some(text@),
            None => json_text(*value).is_none(),
        },
{
    value.as_str().map(|text| text.to_string())
}

/// The text at `data.amount` of a document, where there is one.
pub open spec fn amount_in(document: serde_json::Value) -> Option<Seq<char>> {
    match json_member(document, "data"@) {
        Some(data) => match json_member(data, "amount"@) {
            Some(amount) => json_text(amount),
            None => None,
        },
        None => None,
    }
}

/// What was read from a body: nothing where it is not JSON text, else the
/// text at `data.amount`, if there is one.
pub open spec fn reading(body: Seq<u8>) -> Option<Option<Seq<char>>> {
    match json_parsed(body) {
        Some(document) => Some(amount_in(document)),
        None => None,
    }
}

/// The price that an answer gives, from its status and what was read from
/// its body.
pub open spec fn quoted(code: u16, read: Option<Option<Seq<char>>>) -> Result<
    Seq<char>,
    PriceError,
> {
    if code != 200 {
        Err(PriceError::Request)
    } else {
        match read {
            None => Err(PriceError::Json),
            Some(None) => Err(PriceError::Request),
            Some(Some(text)) => Ok(text),
        }
    }
}

/// Looks up the text at `data.amount`.
fn find_amount(document: &serde_json::Value) -> (r: Option<String>)
    ensures
        match r {
            Some(text) => amount_in(*document) == Some(text@),
            None => amount_in(*document).is_none(),
        },
{
    match member(document, "data") {
        Some(data) => match member(data, "amount") {
            Some(amount) => text_of(amount),
            None => None,
        },
        None => None,
    }
}

/// Reads a body: `None` where it is not JSON text, else what stands at
/// `data.amount`.
pub fn read_body(body: &[u8]) -> (r: Option<Option<String>>)
    ensures
        match r {
            None => reading(body@).is_none(),
            Some(None) => reading(body@) == Some(None::<Seq<char>>),
            Some(Some(text)) => reading(body@) == Some(Some(text@)),
        },
{
    match parse_json(body) {
        Some(document) => Some(find_amount(&document)),
        None => None,
    }
}

/// Decides what an answer gives. Any status but 200 is a `Request` error,
/// whatever was read; a body that is no JSON text is a `Json` error; a body
/// without a string at `data.amount` is a `Request` error; else the price is
/// that string, unchanged.
pub fn quote(code: u16, read: Option<Option<String>>) -> (r: Result<String, PriceError>)
    ensures
        match r {
            Ok(text) => code == 200 && read == Some(Some(text)),
            Err(PriceError::Request) => code != 200 || read == Some(None::<String>),
            Err(PriceError::Json) => code == 200 && read.is_none(),
        },
{
    if code != 200 {
        return Err(PriceError::Request);
    }
    match read {
        None => Err(PriceError::Json),
        Some(None) => Err(PriceError::Request),
        Some(Some(text)) => Ok(text),
    }
}

/// The price that an answer with this status and body gives, as text. The
/// body is read only where the status is 200.
pub fn price_text(code: u16, body: &[u8]) -> (r: Result<String, PriceError>)
    ensures
        match r {
            Ok(text) => quoted(code, reading(body@)) == Ok::<Seq<char>, PriceError>(text@),
            Err(e) => quoted(code, reading(body@)) == Err::<Seq<char>, PriceError>(e),
        },
{
    if code != 200 {
        return Err(PriceError::Request);
    }
    quote(code, read_body(body))
}

} // verus!
