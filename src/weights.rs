//! Quantized weight sets, their shape invariants, and the loading stages:
//! a structured document, a converted intermediate, or a synthetic set.
use vstd::prelude::*;

use crate::json::{json_integers_at, json_is_valid, parse_integers_at};
use crate::tokenizer::ConfigurationError;

verus! {

/// Vocabulary size of the reduced model the prover runs.
pub const REDUCED_VOCAB_SIZE: usize = 10000;

/// Hidden size of the reduced model the prover runs.
pub const REDUCED_HIDDEN_SIZE: usize = 512;

/// Layer count of the reduced model the prover runs.
pub const REDUCED_NUM_LAYERS: usize = 8;

/// The tensors of one transformer layer, all int8.
#[derive(Debug, Clone)]
pub struct LayerWeights {
    pub attention_q: Vec<i8>,
    pub attention_k: Vec<i8>,
    pub attention_v: Vec<i8>,
    pub attention_output: Vec<i8>,
    pub ffn_gate: Vec<i8>,
    pub ffn_up: Vec<i8>,
    pub ffn_down: Vec<i8>,
    pub attention_norm: Vec<i8>,
    pub ffn_norm: Vec<i8>,
}

/// A whole weight set, as handed to the prover.
#[derive(Debug, Clone)]
pub struct BitNetWeights {
    pub token_embeddings: Vec<i8>,
    pub layer_weights: Vec<LayerWeights>,
    pub output_weights: Vec<i8>,
    pub vocab_size: usize,
    pub hidden_size: usize,
    pub num_layers: usize,
}

/// Which loading stage produced a weight set.
#[derive(Debug, Clone, Copy, PartialEq, Eq, Structural)]
pub enum WeightOrigin {
    /// Read from a structured document given as the source.
    Structured,
    /// Read from the structured intermediate the converter wrote.
    Converted,
    /// Built at reduced dimensions, without any model data.
    Synthetic,
}

/// A weight set with the stage it came from.
#[derive(Debug, Clone)]
pub struct LoadedWeights {
    pub weights: BitNetWeights,
    pub origin: WeightOrigin,
}

pub open spec fn all_equal(v: Seq<i8>, x: i8) -> bool {
    forall|k: int| 0 <= k < v.len() ==> v[k] == x
}

impl LayerWeights {
    /// The tensor lengths for hidden size `h`.
    pub open spec fn wf(&self, h: nat) -> bool {
        &&& self.attention_q@.len() == h * h
        &&& self.attention_k@.len() == h * h
        &&& self.attention_v@.len() == h * h
        &&& self.attention_output@.len() == h * h
        &&& self.ffn_gate@.len() == h * h * 4
        &&& self.ffn_up@.len() == h * h * 4
        &&& self.ffn_down@.len() == h * h * 4
        &&& self.attention_norm@.len() == h
        &&& self.ffn_norm@.len() == h
    }

    /// Zero everywhere but the two norm vectors, which hold ones.
    pub open spec fn is_identity_fill(&self) -> bool {
        &&& all_equal(self.attention_q@, 0)
        &&& all_equal(self.attention_k@, 0)
        &&& all_equal(self.attention_v@, 0)
        &&& all_equal(self.attention_output@, 0)
        &&& all_equal(self.ffn_gate@, 0)
        &&& all_equal(self.ffn_up@, 0)
        &&& all_equal(self.ffn_down@, 0)
        &&& all_equal(self.attention_norm@, 1)
        &&& all_equal(self.ffn_norm@, 1)
    }

    /// A layer of hidden size `h` that passes its input through the norms unscaled.
    pub fn identity(h: usize) -> (r: LayerWeights)
        requires
            h * h * 4 <= usize::MAX,
        ensures
            r.wf(h as nat),
            r.is_identity_fill(),
    {
        let hh = h * h;
        LayerWeights {
            attention_q: vec![0i8; hh],
            attention_k: vec![0i8; hh],
            attention_v: vec![0i8; hh],
            attention_output: vec![0i8; hh],
            ffn_gate: vec![0i8; hh * 4],
            ffn_up: vec![0i8; hh * 4],
            ffn_down: vec![0i8; hh * 4],
            attention_norm: vec![1i8; h],
            ffn_norm: vec![1i8; h],
        }
    }
    /// Whether the tensor lengths fit hidden size `h`.
    pub fn check_shape(&self, h: usize) -> (r: bool)
        ensures
            r == self.wf(h as nat),
    {
        if h as u128 >= 0x1_0000_0000u128 {
            proof {
                let hi = h as int;
                assert(hi * hi >= 0x1_0000_0000 * 0x1_0000_0000) by (nonlinear_arith)
                    requires
                        hi >= 0x1_0000_0000,
                ;
                let l = self.attention_q.len();
                assert(l == self.attention_q@.len());
            }
            return false;
        }
        proof {
            let hi = h as int;
            assert(hi * hi < 0x1_0000_0000 * 0x1_0000_0000) by (nonlinear_arith)
                requires
                    0 <= hi < 0x1_0000_0000,
            ;
        }
        let hh: u128 = (h as u128) * (h as u128);
        let hh4: u128 = hh * 4;
        self.attention_q.len() as u128 == hh && self.attention_k.len() as u128 == hh
            && self.attention_v.len() as u128 == hh && self.attention_output.len() as u128 == hh
            && self.ffn_gate.len() as u128 == hh4 && self.ffn_up.len() as u128 == hh4
            && self.ffn_down.len() as u128 == hh4 && self.attention_norm.len() == h
            && self.ffn_norm.len() == h
    }
}


impl BitNetWeights {
    /// Whether the shape invariants hold.
    pub fn check_shape(&self) -> (r: bool)
        ensures
            r == self.wf(),
    {
        proof {
            let v = self.vocab_size as int;
            let h = self.hidden_size as int;
            assert(v * h <= 0xffff_ffff_ffff_ffff * 0xffff_ffff_ffff_ffff) by (nonlinear_arith)
                requires
                    0 <= v <= 0xffff_ffff_ffff_ffff,
                    0 <= h <= 0xffff_ffff_ffff_ffff,
            ;
        }
        let embedded: u128 = (self.vocab_size as u128) * (self.hidden_size as u128);
        if self.token_embeddings.len() as u128 != embedded || self.output_weights.len() as u128
            != embedded || self.layer_weights.len() != self.num_layers {
            return false;
        }
        let mut i: usize = 0;
        while i < self.layer_weights.len()
            invariant
                i <= self.layer_weights@.len(),
                forall|k: int|
                    0 <= k < i ==> #[trigger] self.layer_weights@[k].wf(self.hidden_size as nat),
            decreases self.layer_weights@.len() - i,
        {
            if !self.layer_weights[i].check_shape(self.hidden_size) {
                return false;
            }
            i = i + 1;
        }
        true
    }

    /// The shape invariants every loaded weight set keeps.
    pub open spec fn wf(&self) -> bool {
        &&& self.token_embeddings@.len() == self.vocab_size * self.hidden_size
        &&& self.output_weights@.len() == self.hidden_size * self.vocab_size
        &&& self.layer_weights@.len() == self.num_layers
        &&& forall|i: int|
            0 <= i < self.layer_weights@.len() ==> #[trigger] self.layer_weights@[i].wf(
                self.hidden_size as nat,
            )
    }

    /// The reduced dimensions the prover runs at.
    pub open spec fn has_reduced_dims(&self) -> bool {
        &&& self.vocab_size == REDUCED_VOCAB_SIZE
        &&& self.hidden_size == REDUCED_HIDDEN_SIZE
        &&& self.num_layers == REDUCED_NUM_LAYERS
    }

    /// Every layer and the output head hold the identity fill.
    pub open spec fn has_identity_layers(&self) -> bool {
        &&& all_equal(self.output_weights@, 0)
        &&& forall|i: int|
            0 <= i < self.layer_weights@.len() ==> #[trigger] self.layer_weights@[i].is_identity_fill()
    }

    /// A weight set at the reduced dimensions with the given token embeddings.
    fn reduced_with_embeddings(token_embeddings: Vec<i8>) -> (r: BitNetWeights)
        requires
            token_embeddings@.len() == REDUCED_VOCAB_SIZE * REDUCED_HIDDEN_SIZE,
        ensures
            r.wf(),
            r.has_reduced_dims(),
            r.has_identity_layers(),
            r.token_embeddings@ == token_embeddings@,
    {
        let mut layer_weights: Vec<LayerWeights> = Vec::new();
        let mut i: usize = 0;
        while i < REDUCED_NUM_LAYERS
            invariant
                i <= REDUCED_NUM_LAYERS,
                layer_weights@.len() == i,
                forall|k: int|
                    0 <= k < i ==> #[trigger] layer_weights@[k].wf(REDUCED_HIDDEN_SIZE as nat),
                forall|k: int| 0 <= k < i ==> #[trigger] layer_weights@[k].is_identity_fill(),
            decreases REDUCED_NUM_LAYERS - i,
        {
            let layer = LayerWeights::identity(REDUCED_HIDDEN_SIZE);
            layer_weights.push(layer);
            i = i + 1;
        }
        let output_weights = vec![0i8; REDUCED_HIDDEN_SIZE * REDUCED_VOCAB_SIZE];
        assert(all_equal(output_weights@, 0));
        BitNetWeights {
            token_embeddings,
            layer_weights,
            output_weights,
            vocab_size: REDUCED_VOCAB_SIZE,
            hidden_size: REDUCED_HIDDEN_SIZE,
            num_layers: REDUCED_NUM_LAYERS,
        }
    }

    /// The synthetic stage: reduced dimensions, all zero but the norm
    /// vectors, which hold ones. It never fails.
    pub fn load_weights_from_json_fallback() -> (r: BitNetWeights)
        ensures
            r.wf(),
            r.has_reduced_dims(),
            r.has_identity_layers(),
            all_equal(r.token_embeddings@, 0),
    {
        Self::reduced_with_embeddings(vec![0i8; REDUCED_VOCAB_SIZE * REDUCED_HIDDEN_SIZE])
    }

    /// The weight set built around token embeddings read from a document:
    /// none read gives zero embeddings; otherwise there must be exactly
    /// one row of the hidden size per vocabulary entry.
    pub fn with_token_embeddings(token_embeddings: Vec<i8>) -> (r: Result<
        BitNetWeights,
        ConfigurationError,
    >)
        ensures
            match r {
                Ok(w) => {
                    &&& w.wf()
                    &&& w.has_reduced_dims()
                    &&& w.has_identity_layers()
                    &&& if token_embeddings@.len() == 0 {
                        all_equal(w.token_embeddings@, 0)
                    } else {
                        w.token_embeddings@ == token_embeddings@
                    }
                },
                Err(e) => {
                    &&& e == ConfigurationError::MalformedWeights
                    &&& token_embeddings@.len() != 0
                    &&& token_embeddings@.len() != REDUCED_VOCAB_SIZE * REDUCED_HIDDEN_SIZE
                },
            },
    {
        if token_embeddings.len() == 0 {
            Ok(Self::load_weights_from_json_fallback())
        } else if token_embeddings.len() == REDUCED_VOCAB_SIZE * REDUCED_HIDDEN_SIZE {
            Ok(Self::reduced_with_embeddings(token_embeddings))
        } else {
            Err(ConfigurationError::MalformedWeights)
        }
    }

    /// The structured stage: a document shaped
    /// `{"weights": {"token_embd.weight": {"weights": [..]}}}`, whose integer
    /// items (each kept as its low eight bits) are the token embeddings; a
    /// document without them gives zero embeddings.
    pub fn load_weights_from_json(text: &str) -> (r: Result<BitNetWeights, ConfigurationError>)
        ensures
            r is Ok == structured_load_succeeds(text@),
            match r {
                Ok(w) => loaded_from(w, text@),
                Err(e) => e == ConfigurationError::MalformedWeights,
            },
    {
        let found = match parse_integers_at(text, "/weights/token_embd.weight/weights") {
            Ok(found) => found,
            Err(_) => {
                return Err(ConfigurationError::MalformedWeights);
            },
        };
        let mut token_embeddings: Vec<i8> = Vec::new();
        match found {
            Some(items) => {
                let mut k: usize = 0;
                proof {
                    assert(items@.subrange(0, 0) =~= Seq::<Option<i64>>::empty());
                }
                while k < items.len()
                    invariant
                        k <= items@.len(),
                        token_embeddings@ == low_bytes(items@.subrange(0, k as int)),
                    decreases items@.len() - k,
                {
                    proof {
                        let p = items@.subrange(0, k as int + 1);
                        assert(p.drop_last() =~= items@.subrange(0, k as int));
                        assert(p.last() == items@[k as int]);
                    }
                    if let Some(x) = items[k] {
                        token_embeddings.push(#[verifier::truncate] (x as i8));
                    }
                    k = k + 1;
                }
                proof {
                    assert(items@.subrange(0, items@.len() as int) =~= items@);
                }
            },
            None => {},
        }
        Self::with_token_embeddings(token_embeddings)
    }
}

/// Where the token embeddings stand in a structured document.
pub open spec fn embedding_pointer() -> Seq<char> {
    "/weights/token_embd.weight/weights"@
}

/// The low eight bits of each integer item; other items are skipped.
pub open spec fn low_bytes(items: Seq<Option<i64>>) -> Seq<i8>
    decreases items.len(),
{
    if items.len() == 0 {
        seq![]
    } else {
        match items.last() {
            Some(x) => low_bytes(items.drop_last()).push(x as i8),
            None => low_bytes(items.drop_last()),
        }
    }
}

/// The token embeddings a structured document holds; none where the
/// tensor is missing or no array.
pub open spec fn document_embeddings(text: Seq<char>) -> Seq<i8> {
    match json_integers_at(text, embedding_pointer()) {
        Some(items) => low_bytes(items),
        None => seq![],
    }
}

/// A structured document loads when it is JSON and its embeddings are
/// absent or fill the reduced vocabulary exactly.
pub open spec fn structured_load_succeeds(text: Seq<char>) -> bool {
    &&& json_is_valid(text)
    &&& (document_embeddings(text).len() == 0 || document_embeddings(text).len()
        == REDUCED_VOCAB_SIZE * REDUCED_HIDDEN_SIZE)
}

/// `w` is the weight set of the structured document `text`.
pub open spec fn loaded_from(w: BitNetWeights, text: Seq<char>) -> bool {
    &&& w.wf()
    &&& w.has_reduced_dims()
    &&& w.has_identity_layers()
    &&& if document_embeddings(text).len() == 0 {
        all_equal(w.token_embeddings@, 0)
    } else {
        w.token_embeddings@ == document_embeddings(text)
    }
}

impl LoadedWeights {
    /// A structured document given as the weights source.
    pub fn from_structured(text: &str) -> (r: Result<LoadedWeights, ConfigurationError>)
        ensures
            r is Ok == structured_load_succeeds(text@),
            match r {
                Ok(l) => loaded_from(l.weights, text@) && l.origin == WeightOrigin::Structured,
                Err(e) => e == ConfigurationError::MalformedWeights,
            },
    {
        match BitNetWeights::load_weights_from_json(text) {
            Ok(weights) => Ok(LoadedWeights { weights, origin: WeightOrigin::Structured }),
            Err(e) => Err(e),
        }
    }

    /// After the converter ran on a packed source: the structured load of
    /// its intermediate document where it produced one, else the synthetic
    /// set, which always succeeds.
    pub fn after_conversion(intermediate: Option<&str>) -> (r: Result<
        LoadedWeights,
        ConfigurationError,
    >)
        ensures
            match intermediate {
                Some(text) => {
                    &&& r is Ok == structured_load_succeeds(text@)
                    &&& match r {
                        Ok(l) => loaded_from(l.weights, text@) && l.origin == WeightOrigin::Converted,
                        Err(e) => e == ConfigurationError::MalformedWeights,
                    }
                },
                None => match r {
                    Ok(l) => {
                        &&& l.origin == WeightOrigin::Synthetic
                        &&& l.weights.wf()
                        &&& l.weights.has_reduced_dims()
                        &&& l.weights.has_identity_layers()
                        &&& all_equal(l.weights.token_embeddings@, 0)
                    },
                    Err(_) => false,
                },
            },
    {
        match intermediate {
            Some(text) => match BitNetWeights::load_weights_from_json(text) {
                Ok(weights) => Ok(LoadedWeights { weights, origin: WeightOrigin::Converted }),
                Err(e) => Err(e),
            },
            None => Ok(
                LoadedWeights {
                    weights: BitNetWeights::load_weights_from_json_fallback(),
                    origin: WeightOrigin::Synthetic,
                },
            ),
        }
    }
}

/// The suffix that marks a packed model file.
pub open spec fn packed_suffix() -> Seq<char> {
    seq!['.', 'g', 'g', 'u', 'f']
}

pub open spec fn has_packed_suffix(path: Seq<char>) -> bool {
    path.len() >= 5 && path.subrange(path.len() - 5, path.len() as int) == packed_suffix()
}

/// Whether a weights source is a packed model file, which goes through the
/// converter, rather than a structured document.
pub fn is_packed_weights_path(path: &str) -> (r: bool)
    ensures
        r == has_packed_suffix(path@),
{
    let cs = crate::text::chars_of(path);
    let n = cs.len();
    if n < 5 {
        return false;
    }
    let ok = cs[n - 5] == '.' && cs[n - 4] == 'g' && cs[n - 3] == 'g' && cs[n - 2] == 'u' && cs[n
        - 1] == 'f';
    proof {
        let tail = path@.subrange(n - 5, n as int);
        if ok {
            assert(tail =~= packed_suffix());
        } else {
            if tail == packed_suffix() {
                assert(tail[0] == '.' && tail[1] == 'g' && tail[2] == 'g' && tail[3] == 'u'
                    && tail[4] == 'f');
            }
        }
    }
    ok
}

} // verus!
