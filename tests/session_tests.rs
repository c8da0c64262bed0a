use base64::Engine;
use bitnet_zkml::host::BitNetHostSystem;
use bitnet_zkml::session::{ProofError, ProofEvent, ProofPhase, ProofSession};
use bitnet_zkml::tokenizer::TokenizerConfig;
use bitnet_zkml::weights::{BitNetWeights, LayerWeights};

fn small_system() -> BitNetHostSystem {
    let weights = BitNetWeights {
        token_embeddings: vec![0; 6],
        layer_weights: vec![LayerWeights::identity(2)],
        output_weights: vec![0; 6],
        vocab_size: 3,
        hidden_size: 2,
        num_layers: 1,
    };
    let vocab = TokenizerConfig {
        vocab: vec![("hello".to_string(), 10), ("world".to_string(), 11)],
    };
    BitNetHostSystem::new(weights, vocab).unwrap()
}

#[test]
fn input_for_a_prompt() {
    let sys = small_system();
    let input = sys.build_input("hello world", 5);
    assert_eq!(input.prompt_tokens, vec![2, 10, 11]);
    assert_eq!(input.max_new_tokens, 5);
    assert_eq!(input.vocab_size, 3);
}

#[test]
fn successful_session() {
    let mut s = ProofSession::new(4);
    assert_eq!(s.phase(), ProofPhase::BuildInput);
    s.step(ProofEvent::InputWritten);
    assert_eq!(s.phase(), ProofPhase::Execute);
    s.step(ProofEvent::Executed);
    assert_eq!(s.phase(), ProofPhase::DecodeOutput);
    s.step(ProofEvent::Decoded(vec![10, 11]));
    assert_eq!(s.phase(), ProofPhase::Verify);
    s.step(ProofEvent::Verified);
    assert_eq!(s.phase(), ProofPhase::Encode);
    s.step(ProofEvent::Encoded(vec![1, 2, 3, 4, 5]));
    assert_eq!(s.phase(), ProofPhase::Done);
    let g = s.outcome().unwrap();
    assert_eq!(g.generated_tokens(), &vec![10, 11]);
    assert_eq!(g.encoded_receipt(), "AQIDBAU=");
    let bytes = base64::engine::general_purpose::STANDARD.decode(g.encoded_receipt()).unwrap();
    assert_eq!(bytes, vec![1, 2, 3, 4, 5]);
}

#[test]
fn too_many_tokens_fail_decoding() {
    let mut s = ProofSession::new(1);
    s.step(ProofEvent::InputWritten);
    s.step(ProofEvent::Executed);
    s.step(ProofEvent::Decoded(vec![10, 11]));
    assert_eq!(s.phase(), ProofPhase::Failed);
    assert_eq!(s.outcome().unwrap_err(), ProofError::OutputDecode);
}

#[test]
fn verification_failure_discards_output() {
    let mut s = ProofSession::new(4);
    s.step(ProofEvent::InputWritten);
    s.step(ProofEvent::Executed);
    s.step(ProofEvent::Decoded(vec![10]));
    s.step(ProofEvent::VerificationFailed);
    assert_eq!(s.phase(), ProofPhase::Failed);
    // nothing after a failure changes the outcome
    s.step(ProofEvent::Verified);
    s.step(ProofEvent::Encoded(vec![1]));
    assert_eq!(s.phase(), ProofPhase::Failed);
    assert_eq!(s.outcome().unwrap_err(), ProofError::Verification);
}

#[test]
fn each_stage_has_its_error() {
    let mut a = ProofSession::new(4);
    a.step(ProofEvent::InputRejected);
    assert_eq!(a.outcome().unwrap_err(), ProofError::InputConstruction);

    let mut b = ProofSession::new(4);
    b.step(ProofEvent::InputWritten);
    b.step(ProofEvent::ExecutionFailed);
    assert_eq!(b.outcome().unwrap_err(), ProofError::EngineExecution);

    let mut c = ProofSession::new(4);
    c.step(ProofEvent::InputWritten);
    c.step(ProofEvent::Executed);
    c.step(ProofEvent::DecodeFailed);
    assert_eq!(c.outcome().unwrap_err(), ProofError::OutputDecode);

    let mut d = ProofSession::new(4);
    d.step(ProofEvent::InputWritten);
    d.step(ProofEvent::Executed);
    d.step(ProofEvent::Decoded(vec![]));
    d.step(ProofEvent::Verified);
    d.step(ProofEvent::EncodingFailed);
    assert_eq!(d.outcome().unwrap_err(), ProofError::Encoding);
}

#[test]
fn events_out_of_turn_are_ignored() {
    let mut s = ProofSession::new(4);
    s.step(ProofEvent::Verified);
    s.step(ProofEvent::Decoded(vec![1]));
    assert_eq!(s.phase(), ProofPhase::BuildInput);
    assert!(!s.verified());
    assert!(s.generated_tokens().is_empty());
}

#[test]
fn unfinished_session_has_no_result() {
    let mut s = ProofSession::new(4);
    s.step(ProofEvent::InputWritten);
    s.step(ProofEvent::Executed);
    s.step(ProofEvent::Decoded(vec![7]));
    assert_eq!(s.outcome().unwrap_err(), ProofError::EngineExecution);
}
