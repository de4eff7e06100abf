use ollama::error::ToolError;
use ollama::generation::{decode_generation, generate_request, resolve_system_prompt, response_from_field};

#[test]
fn test_option_handling() {
    // Test option handling
    let value = Some("test".to_string());
    assert_eq!(value, Some("test".to_string()));
}

#[test]
fn test_custom_system_prompt() {
    // Test that custom prompt is used
    let prompt = resolve_system_prompt(Some("custom".to_string()));
    assert_eq!(prompt, "custom");
}

#[test]
fn default_system_prompt_when_absent() {
    let prompt = resolve_system_prompt(None);
    assert!(prompt.starts_with("You are GitHub Dotfiles AI"));
    assert_ne!(prompt, "default");
}

#[test]
fn request_is_built_unstreamed() {
    let r = generate_request("llama2", "hello", Some(String::new()));
    assert_eq!(r.model, "llama2");
    assert_eq!(r.prompt, "hello");
    assert_eq!(r.system, "");
    assert!(!r.stream);
}

#[test]
fn reply_text_is_returned() {
    let r = decode_generation("{\"response\": \"hi there\"}");
    assert_eq!(r.unwrap(), "hi there");
}

#[test]
fn reply_with_other_fields_is_read() {
    let r = decode_generation("{\"model\":\"llama2\",\"response\":\"ok\",\"done\":true}");
    assert_eq!(r.unwrap(), "ok");
}

#[test]
fn reply_without_response_is_deserialization_error() {
    assert!(matches!(decode_generation("{\"done\": true}"), Err(ToolError::Deserialization)));
}

#[test]
fn malformed_reply_is_deserialization_error() {
    assert!(matches!(decode_generation("{\"response\": "), Err(ToolError::Deserialization)));
    assert!(matches!(decode_generation("{\"response\": 3}"), Err(ToolError::Deserialization)));
    assert!(matches!(decode_generation("[\"response\"]"), Err(ToolError::Deserialization)));
}

#[test]
fn field_to_result() {
    assert_eq!(response_from_field(Some("x".to_string())).unwrap(), "x");
    assert!(matches!(response_from_field(None), Err(ToolError::Deserialization)));
}
