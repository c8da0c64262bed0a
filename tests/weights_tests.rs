use bitnet_zkml::tokenizer::ConfigurationError;
use bitnet_zkml::weights::{
    is_packed_weights_path, BitNetWeights, LoadedWeights, WeightOrigin, REDUCED_HIDDEN_SIZE,
    REDUCED_NUM_LAYERS, REDUCED_VOCAB_SIZE,
};

fn assert_shape(w: &BitNetWeights) {
    let h = w.hidden_size;
    assert_eq!(w.token_embeddings.len(), w.vocab_size * h);
    assert_eq!(w.output_weights.len(), h * w.vocab_size);
    assert_eq!(w.layer_weights.len(), w.num_layers);
    for l in &w.layer_weights {
        assert_eq!(l.attention_q.len(), h * h);
        assert_eq!(l.attention_k.len(), h * h);
        assert_eq!(l.attention_v.len(), h * h);
        assert_eq!(l.attention_output.len(), h * h);
        assert_eq!(l.ffn_gate.len(), h * h * 4);
        assert_eq!(l.ffn_up.len(), h * h * 4);
        assert_eq!(l.ffn_down.len(), h * h * 4);
        assert_eq!(l.attention_norm.len(), h);
        assert_eq!(l.ffn_norm.len(), h);
    }
}

#[test]
fn synthetic_weights_keep_the_shape() {
    let w = BitNetWeights::load_weights_from_json_fallback();
    assert_eq!(w.vocab_size, 10000);
    assert_eq!(w.hidden_size, 512);
    assert_eq!(w.num_layers, 8);
    assert_shape(&w);
    assert!(w.check_shape());
    assert!(w.token_embeddings.iter().all(|&x| x == 0));
    assert!(w.output_weights.iter().all(|&x| x == 0));
    for l in &w.layer_weights {
        assert!(l.attention_q.iter().all(|&x| x == 0));
        assert!(l.ffn_down.iter().all(|&x| x == 0));
        assert!(l.attention_norm.iter().all(|&x| x == 1));
        assert!(l.ffn_norm.iter().all(|&x| x == 1));
    }
}

#[test]
fn embeddings_of_the_right_length_are_kept() {
    let n = REDUCED_VOCAB_SIZE * REDUCED_HIDDEN_SIZE;
    let emb: Vec<i8> = (0..n).map(|i| (i % 7) as i8).collect();
    let w = BitNetWeights::with_token_embeddings(emb.clone()).unwrap();
    assert_eq!(w.token_embeddings, emb);
    assert_eq!(w.num_layers, REDUCED_NUM_LAYERS);
    assert_shape(&w);
}

#[test]
fn no_embeddings_give_zeros() {
    let w = BitNetWeights::with_token_embeddings(Vec::new()).unwrap();
    assert_eq!(w.token_embeddings.len(), REDUCED_VOCAB_SIZE * REDUCED_HIDDEN_SIZE);
    assert!(w.token_embeddings.iter().all(|&x| x == 0));
}

#[test]
fn embeddings_of_another_length_are_rejected() {
    assert_eq!(
        BitNetWeights::with_token_embeddings(vec![1, 2, 3]).unwrap_err(),
        ConfigurationError::MalformedWeights
    );
}

#[test]
fn structured_document_without_tensor() {
    let w = BitNetWeights::load_weights_from_json(r#"{"weights": {}}"#).unwrap();
    assert_shape(&w);
    assert!(w.token_embeddings.iter().all(|&x| x == 0));
}

#[test]
fn structured_document_with_short_tensor_is_rejected() {
    let doc = r#"{"weights": {"token_embd.weight": {"weights": [1, -2, "x", 3.5, 300]}}}"#;
    assert_eq!(
        BitNetWeights::load_weights_from_json(doc).unwrap_err(),
        ConfigurationError::MalformedWeights
    );
}

#[test]
fn structured_document_with_full_tensor() {
    let n = REDUCED_VOCAB_SIZE * REDUCED_HIDDEN_SIZE;
    let mut doc = String::from(r#"{"weights": {"token_embd.weight": {"weights": [300, "skip""#);
    for _ in 1..n {
        doc.push_str(",-1");
    }
    doc.push_str("]}}}");
    let w = BitNetWeights::load_weights_from_json(&doc).unwrap();
    assert_shape(&w);
    // 300 keeps its low eight bits; the string item is skipped
    assert_eq!(w.token_embeddings[0], 44);
    assert_eq!(w.token_embeddings[1], -1);
}

#[test]
fn invalid_document_is_rejected() {
    assert_eq!(
        BitNetWeights::load_weights_from_json("not json").unwrap_err(),
        ConfigurationError::MalformedWeights
    );
}

#[test]
fn loading_stages_are_tagged() {
    let s = LoadedWeights::from_structured(r#"{"weights": {}}"#).unwrap();
    assert_eq!(s.origin, WeightOrigin::Structured);
    let c = LoadedWeights::after_conversion(Some(r#"{"weights": {}}"#)).unwrap();
    assert_eq!(c.origin, WeightOrigin::Converted);
    let f = LoadedWeights::after_conversion(None).unwrap();
    assert_eq!(f.origin, WeightOrigin::Synthetic);
    assert_shape(&f.weights);
    assert!(LoadedWeights::after_conversion(Some("{")).is_err());
}

#[test]
fn packed_paths() {
    assert!(is_packed_weights_path("../models/ggml-model-i2_s.gguf"));
    assert!(is_packed_weights_path(".gguf"));
    assert!(!is_packed_weights_path("weights.json"));
    assert!(!is_packed_weights_path("gguf"));
    assert!(!is_packed_weights_path("model.GGUF"));
}

#[test]
fn broken_shape_is_detected() {
    let mut w = BitNetWeights::load_weights_from_json_fallback();
    w.layer_weights[3].ffn_norm.pop();
    assert!(!w.check_shape());
}

#[test]
fn tensor_that_is_no_array_gives_zeros() {
    let doc = r#"{"weights": {"token_embd.weight": {"weights": 7}}}"#;
    let w = BitNetWeights::load_weights_from_json(doc).unwrap();
    assert!(w.token_embeddings.iter().all(|&x| x == 0));
    let w = BitNetWeights::load_weights_from_json("[1, 2]").unwrap();
    assert_eq!(w.token_embeddings.len(), REDUCED_VOCAB_SIZE * REDUCED_HIDDEN_SIZE);
}

#[test]
fn converted_stage_follows_the_structured_load() {
    let doc = r#"{"weights": {"token_embd.weight": {"weights": [1, 2]}}}"#;
    assert_eq!(
        LoadedWeights::after_conversion(Some(doc)).unwrap_err(),
        ConfigurationError::MalformedWeights
    );
    let s = LoadedWeights::after_conversion(None).unwrap();
    assert_eq!(s.weights.vocab_size, REDUCED_VOCAB_SIZE);
    assert_eq!(s.weights.hidden_size, REDUCED_HIDDEN_SIZE);
    assert_eq!(s.weights.num_layers, REDUCED_NUM_LAYERS);
}
