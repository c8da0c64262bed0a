//! The vocabulary table and the word-level tokenizer model.
use std::collections::HashSet;
use vstd::prelude::*;

use crate::json::{entries_view, parse_vocab_json, vocab_json};
use crate::text::{words, words_from};

verus! {

broadcast use vstd::std_specs::hash::group_hash_axioms;

pub const PAD_TOKEN_ID: u32 = 0;

pub const UNK_TOKEN_ID: u32 = 1;

pub const BOS_TOKEN_ID: u32 = 2;

pub const EOS_TOKEN_ID: u32 = 3;

/// Why the vocabulary or the weights could not be taken at startup.
#[derive(Debug, Clone, PartialEq, Eq, Structural)]
pub enum ConfigurationError {
    /// The vocabulary is not a JSON object of string keys and `u32` ids.
    MalformedVocabulary,
    /// Two vocabulary entries share this id.
    DuplicateTokenId(u32),
    /// The weight set breaks the shape invariants.
    MalformedWeights,
}

/// The vocabulary: each entry maps a token string to its id. The four
/// special ids are the constants of this module.
#[derive(Debug, Clone)]
pub struct TokenizerConfig {
    pub vocab: Vec<(String, u32)>,
}

/// The id of the first entry whose token is `w`.
pub open spec fn lookup(e: Seq<(Seq<char>, u32)>, w: Seq<char>) -> Option<u32>
    decreases e.len(),
{
    if e.len() == 0 {
        None
    } else if e[0].0 == w {
        Some(e[0].1)
    } else {
        lookup(e.drop_first(), w)
    }
}

/// The id of a single character, `UNK_TOKEN_ID` where it has none.
pub open spec fn char_id(e: Seq<(Seq<char>, u32)>, c: char) -> u32 {
    match lookup(e, seq![c]) {
        Some(id) => id,
        None => UNK_TOKEN_ID,
    }
}

/// A word's ids: its own id where the vocabulary has it, else one id per character.
pub open spec fn word_ids(e: Seq<(Seq<char>, u32)>, w: Seq<char>) -> Seq<u32> {
    match lookup(e, w) {
        Some(id) => seq![id],
        None => w.map_values(|c: char| char_id(e, c)),
    }
}

pub open spec fn ids_of_words(e: Seq<(Seq<char>, u32)>, ws: Seq<Seq<char>>) -> Seq<u32>
    decreases ws.len(),
{
    if ws.len() == 0 {
        seq![]
    } else {
        ids_of_words(e, ws.drop_last()) + word_ids(e, ws.last())
    }
}

/// The token ids of `s`: the begin-of-sequence id, then the ids of each word.
pub open spec fn tokenize_spec(e: Seq<(Seq<char>, u32)>, s: Seq<char>) -> Seq<u32> {
    seq![BOS_TOKEN_ID] + ids_of_words(e, words(s))
}

/// No two entries share a token.
pub open spec fn tokens_distinct(e: Seq<(Seq<char>, u32)>) -> bool {
    forall|i: int, j: int| 0 <= i < e.len() && 0 <= j < e.len() && e[i].0 == e[j].0 ==> i == j
}

/// No two entries share an id.
pub open spec fn ids_distinct(e: Seq<(Seq<char>, u32)>) -> bool {
    forall|i: int, j: int| 0 <= i < e.len() && 0 <= j < e.len() && e[i].1 == e[j].1 ==> i == j
}

pub proof fn lemma_lookup_found(e: Seq<(Seq<char>, u32)>, w: Seq<char>)
    requires
        lookup(e, w) is Some,
    ensures
        exists|j: int| 0 <= j < e.len() && e[j].0 == w && e[j].1 == lookup(e, w)->0,
    decreases e.len(),
{
    if e[0].0 != w {
        lemma_lookup_found(e.drop_first(), w);
        let j = choose|j: int|
            0 <= j < e.drop_first().len() && e.drop_first()[j].0 == w && e.drop_first()[j].1
                == lookup(e.drop_first(), w)->0;
        assert(e[j + 1] == e.drop_first()[j]);
    }
}

impl TokenizerConfig {
    pub open spec fn entries(&self) -> Seq<(Seq<char>, u32)> {
        entries_view(self.vocab@)
    }

    /// The table of a JSON object mapping token strings to ids; its tokens
    /// are distinct, and two tokens with one id are rejected.
    pub fn from_vocab_json(text: &str) -> (r: Result<TokenizerConfig, ConfigurationError>)
        ensures
            match r {
                Ok(t) => {
                    &&& vocab_json(text@) == Some(t.entries())
                    &&& ids_distinct(t.entries())
                    &&& tokens_distinct(t.entries())
                },
                Err(ConfigurationError::DuplicateTokenId(id)) => match vocab_json(text@) {
                    Some(e) => {
                        &&& !ids_distinct(e)
                        &&& exists|i: int, j: int|
                            0 <= i < j < e.len() && e[i].1 == id && e[j].1 == id
                    },
                    None => false,
                },
                Err(e) => vocab_json(text@) is None && e == ConfigurationError::MalformedVocabulary,
            },
    {
        match parse_vocab_json(text) {
            Ok(vocab) => {
                let t = TokenizerConfig { vocab };
                match t.repeated_id() {
                    Some(id) => Err(ConfigurationError::DuplicateTokenId(id)),
                    None => Ok(t),
                }
            },
            Err(_) => Err(ConfigurationError::MalformedVocabulary),
        }
    }

    /// An id that two entries share, if any.
    pub fn repeated_id(&self) -> (r: Option<u32>)
        ensures
            r is None == ids_distinct(self.entries()),
            r matches Some(id) ==> exists|i: int, j: int|
                0 <= i < j < self.entries().len() && self.entries()[i].1 == id
                    && self.entries()[j].1 == id,
    {
        let ghost e = self.entries();
        let mut seen: HashSet<u32> = HashSet::new();
        let n = self.vocab.len();
        let mut i: usize = 0;
        while i < n
            invariant
                n == self.vocab@.len(),
                e == self.entries(),
                i <= n,
                ids_distinct(e.subrange(0, i as int)),
                forall|id: u32| #[trigger]
                    seen@.contains(id) <==> exists|j: int| 0 <= j < i && e[j].1 == id,
            decreases n - i,
        {
            let id = self.vocab[i].1;
            let ghost pre = e.subrange(0, i as int);
            if !seen.insert(id) {
                proof {
                    let j = choose|j: int| 0 <= j < i && e[j].1 == id;
                    assert(e[i as int].1 == id);
                    assert(!ids_distinct(e));
                }
                return Some(id);
            }
            proof {
                let post = e.subrange(0, i as int + 1);
                assert forall|a: int, b: int|
                    0 <= a < post.len() && 0 <= b < post.len() && post[a].1 == post[b].1 implies a
                    == b by {
                    if a < i && b < i {
                        assert(pre[a] == post[a] && pre[b] == post[b]);
                    }
                }
                assert forall|x: u32| #[trigger]
                    seen@.contains(x) <==> exists|j: int| 0 <= j < i + 1 && e[j].1 == x by {
                    if x == id {
                        assert(e[i as int].1 == x);
                    }
                }
            }
            i = i + 1;
        }
        proof {
            assert(e.subrange(0, n as int) =~= e);
        }
        None
    }

    /// The id of `w` in the vocabulary.
    pub fn lookup(&self, w: &String) -> (r: Option<u32>)
        ensures
            r == lookup(self.entries(), w@),
    {
        let ghost e = self.entries();
        let n = self.vocab.len();
        let mut i: usize = 0;
        proof {
            assert(e.subrange(0, n as int) =~= e);
        }
        while i < n
            invariant
                n == self.vocab@.len(),
                e == self.entries(),
                i <= n,
                lookup(e, w@) == lookup(e.subrange(i as int, n as int), w@),
            decreases n - i,
        {
            proof {
                let rest = e.subrange(i as int, n as int);
                assert(rest[0] == e[i as int]);
                assert(rest.drop_first() =~= e.subrange(i as int + 1, n as int));
            }
            if self.vocab[i].0 == *w {
                return Some(self.vocab[i].1);
            }
            i = i + 1;
        }
        None
    }

    /// Appends the ids of one word.
    fn push_word_ids(&self, word: &Vec<char>, out: &mut Vec<u32>)
        ensures
            final(out)@ == old(out)@ + word_ids(self.entries(), word@),
    {
        let w = crate::text::string_of_chars(word.as_slice());
        match self.lookup(&w) {
            Some(id) => {
                out.push(id);
                proof {
                    assert(final(out)@ =~= old(out)@ + word_ids(self.entries(), word@));
                }
            },
            None => {
                let ghost start = out@;
                let ghost mapped = word@.map_values(|c: char| char_id(self.entries(), c));
                let mut k: usize = 0;
                while k < word.len()
                    invariant
                        k <= word@.len(),
                        mapped == word@.map_values(|c: char| char_id(self.entries(), c)),
                        out@ == start + mapped.subrange(0, k as int),
                    decreases word@.len() - k,
                {
                    let cs = crate::text::string_of_char(word[k]);
                    let id = match self.lookup(&cs) {
                        Some(id) => id,
                        None => UNK_TOKEN_ID,
                    };
                    out.push(id);
                    proof {
                        assert(mapped.subrange(0, k as int + 1) =~= mapped.subrange(0, k as int).push(
                            id,
                        ));
                    }
                    k = k + 1;
                }
                proof {
                    assert(mapped.subrange(0, word@.len() as int) =~= mapped);
                }
            },
        }
    }

    /// The token ids of `text`: the begin-of-sequence id, then for each
    /// whitespace-separated word its own id, or where the vocabulary lacks
    /// it, the id of each character (`UNK_TOKEN_ID` for an unknown one).
    pub fn tokenize(&self, text: &str) -> (r: Vec<u32>)
        ensures
            r@ == tokenize_spec(self.entries(), text@),
    {
        let cs = crate::text::chars_of(text);
        let ghost s = text@;
        let ghost e = self.entries();
        let mut out: Vec<u32> = Vec::new();
        out.push(BOS_TOKEN_ID);
        let mut cur: Vec<char> = Vec::new();
        let ghost mut done: Seq<Seq<char>> = seq![];
        let mut i: usize = 0;
        proof {
            assert(s.subrange(0, s.len() as int) =~= s);
            assert(cur@ =~= seq![]);
            assert(done + words_from(s, seq![]) =~= words_from(s, seq![]));
            assert(ids_of_words(e, done) =~= seq![]);
            assert(out@ =~= seq![BOS_TOKEN_ID] + ids_of_words(e, done));
        }
        while i < cs.len()
            invariant
                cs@ == s,
                e == self.entries(),
                i <= s.len(),
                words(s) == done + words_from(s.subrange(i as int, s.len() as int), cur@),
                out@ == seq![BOS_TOKEN_ID] + ids_of_words(e, done),
            decreases s.len() - i,
        {
            let c = cs[i];
            let ghost rest = s.subrange(i as int, s.len() as int);
            proof {
                assert(rest[0] == c);
                assert(rest.drop_first() =~= s.subrange(i as int + 1, s.len() as int));
            }
            if crate::text::is_space(c) {
                if cur.len() > 0 {
                    self.push_word_ids(&cur, &mut out);
                    proof {
                        let nd = done.push(cur@);
                        assert(nd.drop_last() =~= done);
                        assert(out@ =~= seq![BOS_TOKEN_ID] + ids_of_words(e, nd));
                        assert(done + (seq![cur@] + words_from(
                            s.subrange(i as int + 1, s.len() as int),
                            seq![],
                        )) =~= nd + words_from(s.subrange(i as int + 1, s.len() as int), seq![]));
                        done = nd;
                    }
                    cur = Vec::new();
                } else {
                    proof {
                        assert(cur@ =~= seq![]);
                        assert(crate::text::flush(cur@) =~= seq![]);
                        assert(seq![] + words_from(s.subrange(i as int + 1, s.len() as int), seq![])
                            =~= words_from(s.subrange(i as int + 1, s.len() as int), seq![]));
                    }
                }
            } else {
                cur.push(c);
            }
            i = i + 1;
        }
        proof {
            assert(s.subrange(s.len() as int, s.len() as int) =~= seq![]);
        }
        if cur.len() > 0 {
            self.push_word_ids(&cur, &mut out);
            proof {
                let nd = done.push(cur@);
                assert(nd.drop_last() =~= done);
                assert(out@ =~= seq![BOS_TOKEN_ID] + ids_of_words(e, nd));
                assert(done + seq![cur@] =~= nd);
            }
        } else {
            proof {
                assert(done + seq![] =~= done);
            }
        }
        out
    }
}

} // verus!
