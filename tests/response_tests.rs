use base64::Engine;
use bitnet_zkml::chat::{
    default_max_tokens, estimate_token_count, extract_prompt_from_messages, transcript_prompt,
    word_count,
    ChatCompletionResponse, ChatMessage, HealthResponse, ModelsResponse, PromptError, Usage,
};
use bitnet_zkml::cleanup::clean_llama_output;
use bitnet_zkml::host::BitNetHostSystem;
use bitnet_zkml::response::{
    attestation_proof, fallback_response, placeholder_proof, respond_to_inference, ProofKind,
};
use bitnet_zkml::session::{ProofError, ProofEvent, ProofSession};
use bitnet_zkml::text::{decimal_string, hex_string};
use bitnet_zkml::tokenizer::TokenizerConfig;
use bitnet_zkml::weights::{BitNetWeights, LayerWeights};

fn decode_json(proof: &str) -> serde_json::Value {
    let bytes = base64::engine::general_purpose::STANDARD.decode(proof).unwrap();
    serde_json::from_slice(&bytes).unwrap()
}

fn small_system() -> BitNetHostSystem {
    let weights = BitNetWeights {
        token_embeddings: vec![0],
        layer_weights: vec![LayerWeights::identity(1)],
        output_weights: vec![0],
        vocab_size: 1,
        hidden_size: 1,
        num_layers: 1,
    };
    let vocab = TokenizerConfig {
        vocab: vec![("hello".to_string(), 10), ("world".to_string(), 11)],
    };
    BitNetHostSystem::new(weights, vocab).unwrap()
}

#[test]
fn fallback_for_missing_engine_quotes_the_prompt() {
    let r = respond_to_inference("test", None, 1700000000);
    assert!(r.text.contains("test"));
    assert_eq!(r.kind, ProofKind::Placeholder);
    assert!(!r.kind.is_authoritative());
    let doc = decode_json(&r.proof);
    assert_eq!(doc["proof_type"], "fallback");
    assert_eq!(doc["timestamp"], 1700000000u64);
}

#[test]
fn failed_proving_falls_back() {
    let sys = small_system();
    for e in [
        ProofError::InputConstruction,
        ProofError::EngineExecution,
        ProofError::OutputDecode,
        ProofError::Verification,
        ProofError::Encoding,
    ] {
        let r = sys.respond("", Err(e), 5);
        assert!(!r.text.is_empty());
        assert_eq!(r.kind, ProofKind::Placeholder);
        assert_eq!(decode_json(&r.proof)["proof_type"], "fallback");
    }
}

#[test]
fn verified_generation_is_returned() {
    let sys = small_system();
    let mut session = ProofSession::new(8);
    session.step(ProofEvent::InputWritten);
    session.step(ProofEvent::Executed);
    session.step(ProofEvent::Decoded(vec![11, 42, 10]));
    session.step(ProofEvent::Verified);
    session.step(ProofEvent::Encoded(vec![0, 1, 2]));
    let r = sys.respond("prompt", session.outcome(), 5);
    assert_eq!(r.text, "world hello");
    assert_eq!(r.proof, "AAEC");
    assert_eq!(r.kind, ProofKind::Receipt);
    assert!(r.kind.is_authoritative());
}

#[test]
fn placeholder_document_is_exact() {
    let p = placeholder_proof(42);
    let bytes = base64::engine::general_purpose::STANDARD.decode(&p).unwrap();
    assert_eq!(
        String::from_utf8(bytes).unwrap(),
        r#"{"proof_type":"fallback","status":"mock_proof","timestamp":42}"#
    );
}

#[test]
fn fallback_text_is_exact() {
    let r = fallback_response("hi there", 0);
    assert_eq!(
        r.text,
        "I'm a BitNet zkML assistant. I received your message: 'hi there'. However, I'm currently experiencing technical difficulties with the zkVM inference. This is a fallback response without a verified proof."
    );
}

#[test]
fn attestation_carries_digests() {
    let p = attestation_proof("hello", "world", 7);
    let bytes = base64::engine::general_purpose::STANDARD.decode(&p).unwrap();
    assert_eq!(
        String::from_utf8(bytes).unwrap(),
        r#"{"model":"BitNet-b1.58-2B-4T","prompt_hash":"5d41402abc4b2a76b9719d911017c592","proof_type":"bitnet_inference","response_hash":"7d793037a0760186574b0282f2f435e7","timestamp":7,"verification":"pending","zkvm":"risc0"}"#
    );
}

#[test]
fn inference_output_is_cleaned_and_attested() {
    let out = "llama_model_loader: loaded\n\nThe answer is 4.\nmain: done\n";
    let r = respond_to_inference("2+2?", Some(out), 9);
    assert_eq!(r.text, "The answer is 4.");
    assert_eq!(r.kind, ProofKind::Attestation);
    let doc = decode_json(&r.proof);
    assert_eq!(doc["proof_type"], "bitnet_inference");
    assert_eq!(doc["response_hash"], format!("{:x}", md5::compute("The answer is 4.")));
}

#[test]
fn cleaning_drops_log_and_blank_lines() {
    let raw = "main: build = 1\r\n\n  \n  first line  \r\nsampling: temp\n\nsecond\nllama_perf: x";
    // the whole text is trimmed, not each line
    assert_eq!(clean_llama_output(raw), "first line  \nsecond");
    assert_eq!(clean_llama_output(""), "Response generated by BitNet zkML system.");
    assert_eq!(
        clean_llama_output("llama_x\nmain: y\n \t\n"),
        "Response generated by BitNet zkML system."
    );
    assert_eq!(clean_llama_output("only"), "only");
}

#[test]
fn token_estimates() {
    assert_eq!(estimate_token_count(""), 0);
    assert_eq!(estimate_token_count("abcd"), 1);
    assert_eq!(estimate_token_count("abcde"), 2);
    // bytes, not characters
    assert_eq!(estimate_token_count("\u{e9}\u{e9}\u{e9}"), 2);
}

#[test]
fn word_counts_and_usage() {
    assert_eq!(word_count(""), 0);
    assert_eq!(word_count("  a  bb\tccc\n"), 3);
    let u = Usage::from_texts("one two", "three");
    assert_eq!(u.prompt_tokens, 2);
    assert_eq!(u.completion_tokens, 1);
    assert_eq!(u.total_tokens, 3);
}

#[test]
fn prompt_is_last_user_message() {
    let msgs = vec![
        ChatMessage { role: "system".to_string(), content: "be brief".to_string() },
        ChatMessage { role: "user".to_string(), content: "first".to_string() },
        ChatMessage { role: "assistant".to_string(), content: "ok".to_string() },
        ChatMessage { role: "user".to_string(), content: "second".to_string() },
        ChatMessage { role: "assistant".to_string(), content: "ok".to_string() },
    ];
    assert_eq!(extract_prompt_from_messages(&msgs).unwrap(), "second");
    assert_eq!(
        extract_prompt_from_messages(&msgs[..1]).unwrap_err(),
        PromptError::MissingUserMessage
    );
    assert_eq!(extract_prompt_from_messages(&[]).unwrap_err(), PromptError::MissingUserMessage);
}

#[test]
fn default_budget() {
    assert_eq!(default_max_tokens(), Some(150));
}

#[test]
fn completion_object() {
    let reply = fallback_response("hello there", 3);
    let text = reply.text.clone();
    let proof = reply.proof.clone();
    let c = ChatCompletionResponse::new("chatcmpl-1".to_string(), 3, "m".to_string(), "hello there", reply);
    assert_eq!(c.object, "chat.completion");
    assert_eq!(c.choices.len(), 1);
    assert_eq!(c.choices[0].message.role, "assistant");
    assert_eq!(c.choices[0].message.content, text);
    assert_eq!(c.choices[0].finish_reason, "stop");
    assert_eq!(c.usage.prompt_tokens, 2);
    assert_eq!(c.usage.completion_tokens as usize, text.split_whitespace().count());
    assert_eq!(c.zkml_proof, Some(proof));
}

#[test]
fn model_catalog_and_health() {
    let m = ModelsResponse::catalog();
    assert_eq!(m.object, "list");
    assert_eq!(m.data[0].id, "bitnet-b1.58-2b");
    assert_eq!(m.data[0].created, 1699401600);
    assert_eq!(HealthResponse::new(true, true, 1).status, "healthy");
    assert_eq!(HealthResponse::new(true, false, 1).status, "unhealthy");
    assert_eq!(HealthResponse::new(false, true, 1).status, "unhealthy");
}

#[test]
fn number_renderings() {
    assert_eq!(decimal_string(0), "0");
    assert_eq!(decimal_string(1699401600), "1699401600");
    assert_eq!(decimal_string(u64::MAX), "18446744073709551615");
    assert_eq!(hex_string(&[0x00, 0x0f, 0xa5, 0xff]), "000fa5ff");
}

#[test]
fn transcript_of_a_conversation() {
    let msgs = vec![
        ChatMessage { role: "system".to_string(), content: "be brief".to_string() },
        ChatMessage { role: "user".to_string(), content: "hi".to_string() },
    ];
    assert_eq!(transcript_prompt(&msgs), "system: be brief\nuser: hi");
    assert_eq!(transcript_prompt(&msgs[..1]), "system: be brief");
    assert_eq!(transcript_prompt(&[]), "");
}
