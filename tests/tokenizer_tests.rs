use bitnet_zkml::host::BitNetHostSystem;
use bitnet_zkml::tokenizer::{ConfigurationError, TokenizerConfig, BOS_TOKEN_ID, UNK_TOKEN_ID};
use bitnet_zkml::weights::{BitNetWeights, LayerWeights};

fn tiny_weights() -> BitNetWeights {
    BitNetWeights {
        token_embeddings: vec![0],
        layer_weights: vec![LayerWeights::identity(1)],
        output_weights: vec![0],
        vocab_size: 1,
        hidden_size: 1,
        num_layers: 1,
    }
}

fn table(entries: &[(&str, u32)]) -> TokenizerConfig {
    TokenizerConfig { vocab: entries.iter().map(|(t, id)| (t.to_string(), *id)).collect() }
}

fn greeting_system() -> BitNetHostSystem {
    let vocab = table(&[("hello", 10), ("world", 11), ("<unk>", 1), ("<bos>", 2)]);
    BitNetHostSystem::new(tiny_weights(), vocab).unwrap()
}

#[test]
fn hello_world_scenario() {
    let sys = greeting_system();
    assert_eq!(sys.tokenize("hello world"), vec![2, 10, 11]);
    // the vocabulary names id 2, so the begin-of-sequence token is kept
    assert_eq!(sys.detokenize(&[2, 10, 11]), "<bos> hello world");
    assert_eq!(sys.detokenize(&[10, 11]), "hello world");
}

#[test]
fn vocabulary_from_json_text() {
    let t = TokenizerConfig::from_vocab_json(r#"{"hello":10,"world":11,"<unk>":1,"<bos>":2}"#)
        .unwrap();
    let sys = BitNetHostSystem::new(tiny_weights(), t).unwrap();
    assert_eq!(sys.tokenize("hello world"), vec![2, 10, 11]);
    assert_eq!(sys.detokenize(&[2, 10, 11]), "<bos> hello world");
}

#[test]
fn malformed_vocabulary_is_rejected() {
    assert_eq!(
        TokenizerConfig::from_vocab_json("[1, 2]").unwrap_err(),
        ConfigurationError::MalformedVocabulary
    );
    assert_eq!(
        TokenizerConfig::from_vocab_json(r#"{"a": -1}"#).unwrap_err(),
        ConfigurationError::MalformedVocabulary
    );
    assert_eq!(
        TokenizerConfig::from_vocab_json("{").unwrap_err(),
        ConfigurationError::MalformedVocabulary
    );
}

#[test]
fn duplicate_ids_are_rejected() {
    let t = table(&[("a", 5), ("b", 6), ("c", 5)]);
    match BitNetHostSystem::new(tiny_weights(), t) {
        Err(ConfigurationError::DuplicateTokenId(id)) => assert_eq!(id, 5),
        _ => panic!("expected a duplicate id"),
    }
}

#[test]
fn malformed_weights_are_rejected() {
    let mut w = tiny_weights();
    w.token_embeddings.push(1);
    assert!(matches!(
        BitNetHostSystem::new(w, table(&[("a", 5)])),
        Err(ConfigurationError::MalformedWeights)
    ));
}

#[test]
fn unknown_word_falls_back_to_characters() {
    let sys = BitNetHostSystem::new(tiny_weights(), table(&[("h", 5), ("i", 6), ("hi", 7)]))
        .unwrap();
    assert_eq!(sys.tokenize("hi"), vec![BOS_TOKEN_ID, 7]);
    assert_eq!(sys.tokenize("ih x"), vec![BOS_TOKEN_ID, 6, 5, UNK_TOKEN_ID]);
}

#[test]
fn whitespace_only_separates_words() {
    let sys = greeting_system();
    assert_eq!(sys.tokenize("  hello\t\nworld \u{3000}"), vec![2, 10, 11]);
    assert_eq!(sys.tokenize(""), vec![2]);
    assert_eq!(sys.tokenize("   "), vec![2]);
}

#[test]
fn no_case_or_punctuation_normalization() {
    let sys = greeting_system();
    // "Hello" is not "hello"; neither it nor its letters are known
    assert_eq!(sys.tokenize("Hello"), vec![2, 1, 1, 1, 1, 1]);
    assert_eq!(sys.tokenize("world!"), vec![2, 1, 1, 1, 1, 1, 1]);
}

#[test]
fn tokenize_is_deterministic() {
    let sys = greeting_system();
    let a = sys.tokenize("hello there world");
    let b = sys.tokenize("hello there world");
    assert_eq!(a, b);
}

#[test]
fn round_trip_of_known_words() {
    let sys = greeting_system();
    let ids = sys.tokenize("  world   hello world ");
    assert_eq!(ids, vec![2, 11, 10, 11]);
    assert_eq!(sys.detokenize(&ids[1..]), "world hello world");
    assert_eq!(sys.detokenize(&ids), "<bos> world hello world");
}

#[test]
fn detokenize_drops_unknown_ids() {
    let sys = greeting_system();
    assert_eq!(sys.detokenize(&[10, 99, 11, 3]), "hello world");
    assert_eq!(sys.detokenize(&[99]), "");
    assert_eq!(sys.detokenize(&[]), "");
}

#[test]
fn lookup_finds_ids() {
    let t = table(&[("x", 4), ("y", 9)]);
    assert_eq!(t.lookup(&"y".to_string()), Some(9));
    assert_eq!(t.lookup(&"z".to_string()), None);
}

#[test]
fn vocabulary_json_with_repeated_id_is_rejected() {
    assert_eq!(
        TokenizerConfig::from_vocab_json(r#"{"a": 4, "b": 5, "c": 4}"#).unwrap_err(),
        ConfigurationError::DuplicateTokenId(4)
    );
}
