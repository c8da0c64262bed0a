//! The loaded system: weights, vocabulary and its reverse table, with
//! tokenize / detokenize and their round-trip law.
use std::collections::HashMap;
use vstd::prelude::*;

use crate::text::{join_space, words};
use crate::tokenizer::{
    ids_distinct, lemma_lookup_found, lookup, tokenize_spec, ids_of_words, word_ids,
    ConfigurationError, TokenizerConfig, BOS_TOKEN_ID,
};
use crate::weights::BitNetWeights;

verus! {

broadcast use vstd::std_specs::hash::group_hash_axioms;

/// `rev` maps exactly the ids of the entries, each to its token.
pub open spec fn reverse_matches(rev: Map<u32, Seq<char>>, e: Seq<(Seq<char>, u32)>) -> bool {
    &&& forall|id: u32| #[trigger]
        rev.contains_key(id) <==> exists|j: int| 0 <= j < e.len() && e[j].1 == id
    &&& forall|j: int|
        0 <= j < e.len() ==> #[trigger] rev.contains_key(e[j].1) && rev[e[j].1] == e[j].0
}

/// The tokens of the ids that `rev` knows, in order; the others are dropped.
pub open spec fn kept_words(rev: Map<u32, Seq<char>>, ids: Seq<u32>) -> Seq<Seq<char>>
    decreases ids.len(),
{
    if ids.len() == 0 {
        seq![]
    } else if rev.contains_key(ids.last()) {
        kept_words(rev, ids.drop_last()).push(rev[ids.last()])
    } else {
        kept_words(rev, ids.drop_last())
    }
}

/// The text of a list of ids: the known tokens joined by single spaces.
pub open spec fn detokenize_spec(rev: Map<u32, Seq<char>>, ids: Seq<u32>) -> Seq<char> {
    join_space(kept_words(rev, ids))
}

/// The weights and the vocabulary that every request reads.
pub struct BitNetHostSystem {
    pub weights: BitNetWeights,
    pub tokenizer: TokenizerConfig,
    pub reverse_vocab: HashMap<u32, String>,
}

impl BitNetHostSystem {
    pub open spec fn reverse_view(&self) -> Map<u32, Seq<char>> {
        self.reverse_vocab@.map_values(|s: String| s@)
    }

    pub open spec fn wf(&self) -> bool {
        &&& self.weights.wf()
        &&& ids_distinct(self.tokenizer.entries())
        &&& reverse_matches(self.reverse_view(), self.tokenizer.entries())
    }

    /// The system of a weight set and a vocabulary: the weights must keep
    /// their shape invariants and no two tokens may share an id.
    pub fn new(weights: BitNetWeights, tokenizer: TokenizerConfig) -> (r: Result<
        BitNetHostSystem,
        ConfigurationError,
    >)
        ensures
            match r {
                Ok(s) => s.wf() && s.weights == weights && s.tokenizer == tokenizer,
                Err(e) => match e {
                    ConfigurationError::MalformedWeights => !weights.wf(),
                    ConfigurationError::DuplicateTokenId(id) => {
                        &&& weights.wf()
                        &&& !ids_distinct(tokenizer.entries())
                        &&& exists|i: int, j: int|
                            0 <= i < j < tokenizer.vocab@.len() && tokenizer.vocab@[i].1 == id
                                && tokenizer.vocab@[j].1 == id
                    },
                    ConfigurationError::MalformedVocabulary => false,
                },
            },
    {
        if !weights.check_shape() {
            return Err(ConfigurationError::MalformedWeights);
        }
        let ghost e = tokenizer.entries();
        let mut rev: HashMap<u32, String> = HashMap::new();
        let n = tokenizer.vocab.len();
        let mut i: usize = 0;
        while i < n
            invariant
                weights.wf(),
                n == tokenizer.vocab@.len(),
                e == tokenizer.entries(),
                i <= n,
                ids_distinct(e.subrange(0, i as int)),
                reverse_matches(rev@.map_values(|s: String| s@), e.subrange(0, i as int)),
            decreases n - i,
        {
            let id = tokenizer.vocab[i].1;
            let ghost rv = rev@.map_values(|s: String| s@);
            let ghost pre = e.subrange(0, i as int);
            if rev.contains_key(&id) {
                proof {
                    assert(rv.contains_key(id));
                    let j = choose|j: int| 0 <= j < pre.len() && pre[j].1 == id;
                    assert(tokenizer.vocab@[j].1 == id);
                    assert(pre[j] == e[j]);
                    assert(e[j].1 == e[i as int].1);
                    assert(0 <= j < i < n && tokenizer.vocab@[j].1 == id
                        && tokenizer.vocab@[i as int].1 == id);
                    assert(!ids_distinct(e));
                    assert(exists|a: int, b: int|
                        0 <= a < b < tokenizer.vocab@.len() && tokenizer.vocab@[a].1 == id
                            && tokenizer.vocab@[b].1 == id);
                }
                return Err(ConfigurationError::DuplicateTokenId(id));
            }
            let token = tokenizer.vocab[i].0.clone();
            rev.insert(id, token);
            proof {
                let nrv = rev@.map_values(|s: String| s@);
                let post = e.subrange(0, i as int + 1);
                assert(nrv =~= rv.insert(id, e[i as int].0));
                assert(!rv.contains_key(id));
                assert forall|a: int, b: int|
                    0 <= a < post.len() && 0 <= b < post.len() && post[a].1 == post[b].1 implies a
                    == b by {
                    if a < i && b == i {
                        assert(rv.contains_key(pre[a].1));
                    }
                    if b < i && a == i {
                        assert(rv.contains_key(pre[b].1));
                    }
                    if a < i && b < i {
                        assert(pre[a] == post[a] && pre[b] == post[b]);
                    }
                }
                assert forall|x: u32| #[trigger]
                    nrv.contains_key(x) <==> exists|j: int| 0 <= j < post.len() && post[j].1 == x by {
                    if nrv.contains_key(x) && x != id {
                        assert(rv.contains_key(x));
                        let j = choose|j: int| 0 <= j < pre.len() && pre[j].1 == x;
                        assert(post[j] == pre[j]);
                    }
                    if x == id {
                        assert(post[i as int].1 == x);
                    }
                    if exists|j: int| 0 <= j < post.len() && post[j].1 == x {
                        let j = choose|j: int| 0 <= j < post.len() && post[j].1 == x;
                        if j < i {
                            assert(pre[j] == post[j]);
                            assert(rv.contains_key(pre[j].1));
                        }
                    }
                }
                assert forall|j: int| 0 <= j < post.len() implies #[trigger] nrv.contains_key(
                    post[j].1,
                ) && nrv[post[j].1] == post[j].0 by {
                    if j < i {
                        assert(pre[j] == post[j]);
                        assert(rv.contains_key(pre[j].1));
                    }
                }
            }
            i = i + 1;
        }
        proof {
            assert(e.subrange(0, n as int) =~= e);
        }
        Ok(BitNetHostSystem { weights, tokenizer, reverse_vocab: rev })
    }

    /// The token ids of a prompt, as `TokenizerConfig::tokenize` gives them.
    pub fn tokenize(&self, text: &str) -> (r: Vec<u32>)
        ensures
            r@ == tokenize_spec(self.tokenizer.entries(), text@),
    {
        self.tokenizer.tokenize(text)
    }

    /// The text of a list of ids: each id with a token gives that token, the
    /// others are dropped, and the tokens are joined by single spaces.
    pub fn detokenize(&self, tokens: &[u32]) -> (r: String)
        ensures
            r@ == detokenize_spec(self.reverse_view(), tokens@),
    {
        let ghost rev = self.reverse_view();
        let mut out = String::new();
        let mut first = true;
        let mut i: usize = 0;
        proof {
            reveal_strlit(" ");
            assert(tokens@.subrange(0, 0) =~= seq![]);
        }
        while i < tokens.len()
            invariant
                rev == self.reverse_view(),
                i <= tokens@.len(),
                out@ == join_space(kept_words(rev, tokens@.subrange(0, i as int))),
                first == (kept_words(rev, tokens@.subrange(0, i as int)).len() == 0),
                " "@ == seq![' '],
            decreases tokens@.len() - i,
        {
            let id = tokens[i];
            let ghost k = kept_words(rev, tokens@.subrange(0, i as int));
            proof {
                let p = tokens@.subrange(0, i as int + 1);
                assert(p.drop_last() =~= tokens@.subrange(0, i as int));
                assert(p.last() == id);
            }
            match self.reverse_vocab.get(&id) {
                Some(w) => {
                    proof {
                        assert(rev.contains_key(id));
                        assert(k.push(w@).drop_last() =~= k);
                    }
                    if !first {
                        out.append(" ");
                    }
                    out.append(w.as_str());
                    first = false;
                },
                None => {},
            }
            i = i + 1;
        }
        proof {
            assert(tokens@.subrange(0, tokens@.len() as int) =~= tokens@);
        }
        out
    }
}

/// The ids of a prompt depend on the text and the vocabulary alone: two
/// tables with the same entries give the same ids for the same text.
pub proof fn lemma_tokenize_deterministic(a: TokenizerConfig, b: TokenizerConfig, s: Seq<char>, t: Seq<char>)
    requires
        a.entries() == b.entries(),
        s == t,
    ensures
        tokenize_spec(a.entries(), s) == tokenize_spec(b.entries(), t),
{
}

/// Every system's weights keep the shape invariants: one embedding row of
/// the hidden size per vocabulary entry; in each layer, square attention
/// matrices, feed-forward matrices four times that size, and norm vectors
/// of the hidden size.
pub proof fn lemma_system_weight_shapes(sys: BitNetHostSystem)
    requires
        sys.wf(),
    ensures
        sys.weights.token_embeddings@.len() == sys.weights.vocab_size * sys.weights.hidden_size,
        forall|i: int|
            0 <= i < sys.weights.layer_weights@.len() ==> {
                let l = #[trigger] sys.weights.layer_weights@[i];
                let h = sys.weights.hidden_size as int;
                &&& l.attention_q@.len() == h * h
                &&& l.attention_k@.len() == h * h
                &&& l.attention_v@.len() == h * h
                &&& l.attention_output@.len() == h * h
                &&& l.ffn_gate@.len() == h * h * 4
                &&& l.ffn_up@.len() == h * h * 4
                &&& l.ffn_down@.len() == h * h * 4
                &&& l.attention_norm@.len() == h
                &&& l.ffn_norm@.len() == h
            },
{
    assert forall|i: int| 0 <= i < sys.weights.layer_weights@.len() implies {
        let l = #[trigger] sys.weights.layer_weights@[i];
        let h = sys.weights.hidden_size as int;
        &&& l.attention_q@.len() == h * h
        &&& l.attention_k@.len() == h * h
        &&& l.attention_v@.len() == h * h
        &&& l.attention_output@.len() == h * h
        &&& l.ffn_gate@.len() == h * h * 4
        &&& l.ffn_up@.len() == h * h * 4
        &&& l.ffn_down@.len() == h * h * 4
        &&& l.attention_norm@.len() == h
        &&& l.ffn_norm@.len() == h
    } by {
        assert(sys.weights.layer_weights@[i].wf(sys.weights.hidden_size as nat));
    }
}

proof fn lemma_kept_concat(rev: Map<u32, Seq<char>>, a: Seq<u32>, b: Seq<u32>)
    ensures
        kept_words(rev, a + b) == kept_words(rev, a) + kept_words(rev, b),
    decreases b.len(),
{
    if b.len() == 0 {
        assert(a + b =~= a);
        assert(kept_words(rev, a) + seq![] =~= kept_words(rev, a));
    } else {
        assert((a + b).drop_last() =~= a + b.drop_last());
        assert((a + b).last() == b.last());
        lemma_kept_concat(rev, a, b.drop_last());
        if rev.contains_key(b.last()) {
            assert(kept_words(rev, a) + kept_words(rev, b.drop_last()).push(rev[b.last()])
                =~= (kept_words(rev, a) + kept_words(rev, b.drop_last())).push(rev[b.last()]));
        }
    }
}

proof fn lemma_known_words(
    e: Seq<(Seq<char>, u32)>,
    rev: Map<u32, Seq<char>>,
    ws: Seq<Seq<char>>,
)
    requires
        reverse_matches(rev, e),
        ids_distinct(e),
        forall|k: int| 0 <= k < ws.len() ==> #[trigger] lookup(e, ws[k]) is Some,
    ensures
        ids_of_words(e, ws) == ws.map_values(|w: Seq<char>| lookup(e, w)->0),
        kept_words(rev, ids_of_words(e, ws)) == ws,
    decreases ws.len(),
{
    if ws.len() > 0 {
        let w = ws.last();
        let init = ws.drop_last();
        assert forall|k: int| 0 <= k < init.len() implies #[trigger] lookup(e, init[k]) is Some by {
            assert(init[k] == ws[k]);
        }
        lemma_known_words(e, rev, init);
        assert(lookup(e, ws[ws.len() - 1]) is Some);
        let id = lookup(e, w)->0;
        lemma_lookup_found(e, w);
        let j = choose|j: int| 0 <= j < e.len() && e[j].0 == w && e[j].1 == id;
        assert(rev.contains_key(e[j].1));
        assert(word_ids(e, w) == seq![id]);
        lemma_kept_concat(rev, ids_of_words(e, init), seq![id]);
        assert(seq![id].drop_last() =~= Seq::<u32>::empty());
        assert(rev[id] == w);
        assert(seq![id].last() == id);
        assert(kept_words(rev, seq![id].drop_last()) =~= Seq::<Seq<char>>::empty());
        assert(kept_words(rev, seq![id]) =~= seq![w]);
        assert(init + seq![w] =~= ws);
        assert(ws.map_values(|w: Seq<char>| lookup(e, w)->0) =~= init.map_values(
            |w: Seq<char>| lookup(e, w)->0,
        ) + seq![id]);
    } else {
        assert(ws.map_values(|w: Seq<char>| lookup(e, w)->0) =~= Seq::<u32>::empty());
    }
}

/// Round trip: where every word of `text` has its own vocabulary id, the
/// ids are the begin-of-sequence id and those word ids, with no unknown
/// substitution, and detokenizing them gives back the words joined by
/// single spaces, after the begin-of-sequence token where the vocabulary
/// names that id.
pub proof fn lemma_detokenize_tokenize(sys: BitNetHostSystem, text: Seq<char>)
    requires
        sys.wf(),
        forall|k: int|
            0 <= k < words(text).len() ==> #[trigger] lookup(sys.tokenizer.entries(), words(text)[k])
                is Some,
    ensures
        tokenize_spec(sys.tokenizer.entries(), text) == seq![BOS_TOKEN_ID] + words(
            text,
        ).map_values(|w: Seq<char>| lookup(sys.tokenizer.entries(), w)->0),
        detokenize_spec(sys.reverse_view(), tokenize_spec(sys.tokenizer.entries(), text).drop_first())
            == join_space(words(text)),
        detokenize_spec(sys.reverse_view(), tokenize_spec(sys.tokenizer.entries(), text))
            == join_space(kept_words(sys.reverse_view(), seq![BOS_TOKEN_ID]) + words(text)),
{
    let e = sys.tokenizer.entries();
    let rev = sys.reverse_view();
    let ids = ids_of_words(e, words(text));
    lemma_known_words(e, rev, words(text));
    assert(tokenize_spec(e, text).drop_first() =~= ids);
    lemma_kept_concat(rev, seq![BOS_TOKEN_ID], ids);
}

} // verus!
