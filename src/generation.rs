//! The one-shot generation request: what is sent to the local server and
//! how its reply is read.
use vstd::prelude::*;
use vstd::string::StringExecFns;
use crate::error::ToolError;

verus! {

/// The body of a generation request. `stream` is always false: the reply
/// is awaited whole.
#[derive(Debug)]
pub struct GenerateRequest {
    pub model: String,
    pub prompt: String,
    pub system: String,
    pub stream: bool,
}

/// The system prompt used when the caller gives none.
pub open spec fn default_system_prompt() -> Seq<char> {
    "You are GitHub Dotfiles AI, a helpful, harmless, and honest AI assistant powered by Ollama. Always provide accurate and useful responses."@
}

/// The caller's system prompt, or the default one when none was given.
pub fn resolve_system_prompt(system: Option<String>) -> (r: String)
    ensures
        r@ == match system {
            Some(s) => s@,
            None => default_system_prompt(),
        },
{
    match system {
        Some(s) => s,
        None => String::from_str(
            "You are GitHub Dotfiles AI, a helpful, harmless, and honest AI assistant powered by Ollama. Always provide accurate and useful responses.",
        ),
    }
}

/// The request for `model` to answer `prompt` under the given system prompt
/// (the default one when none is given), not streamed.
pub fn generate_request(model: &str, prompt: &str, system: Option<String>) -> (r: GenerateRequest)
    ensures
        r.model@ == model@,
        r.prompt@ == prompt@,
        r.system@ == match system {
            Some(s) => s@,
            None => default_system_prompt(),
        },
        !r.stream,
{
    GenerateRequest {
        model: model.to_owned(),
        prompt: prompt.to_owned(),
        system: resolve_system_prompt(system),
        stream: false,
    }
}

/// The text held under `key` in the JSON object `body`, when `body` is a
/// JSON object with a string there.
pub uninterp spec fn json_text_field_of(body: Seq<char>, key: Seq<char>) -> Option<Seq<char>>;

/// Relies on `serde_json::from_str` into a `serde_json::Value`, then
/// `Value::get` and `Value::as_str`: the string under `key` when `body`
/// parses as a JSON object holding one there, and nothing otherwise.
#[verifier::external_body]
fn json_text_field(body: &str, key: &str) -> (r: Option<String>)
    ensures
        r.deep_view() == json_text_field_of(body@, key@),
{
    let value: Option<serde_json::Value> = serde_json::from_str(body).ok();
    value.and_then(|v| v.get(key).and_then(|f| f.as_str()).map(|t| t.to_string()))
}

/// The generated text, given the `response` field read from the reply (if
/// there was one): that text, or a `Deserialization` error.
pub fn response_from_field(field: Option<String>) -> (r: Result<String, ToolError>)
    ensures
        match field {
            Some(t) => r matches Ok(u) && u@ == t@,
            None => r matches Err(ToolError::Deserialization),
        },
{
    match field {
        Some(t) => Ok(t),
        None => Err(ToolError::Deserialization),
    }
}

/// The generated text in a reply body: its `response` field, or a
/// `Deserialization` error when the body is not a JSON object with a string
/// there.
pub fn decode_generation(body: &str) -> (r: Result<String, ToolError>)
    ensures
        match json_text_field_of(body@, "response"@) {
            Some(t) => r matches Ok(u) && u@ == t,
            None => r matches Err(ToolError::Deserialization),
        },
{
    let field = json_text_field(body, "response");
    response_from_field(field)
}

} // verus!
