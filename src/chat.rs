//! The chat-completion request and response values, and the rules that
//! fill them: prompt extraction, token estimates, usage, health.
use vstd::prelude::*;
use vstd::string::{StringExecFns, StringSliceAdditionalSpecFns};

use crate::response::GeneratedResponse;
use crate::text::{chars_of, is_space, words, words_from};

verus! {

/// One message of a conversation.
#[derive(Debug, Clone)]
pub struct ChatMessage {
    pub role: String,
    pub content: String,
}

#[derive(Debug, Clone)]
pub struct ChatChoice {
    pub index: u32,
    pub message: ChatMessage,
    pub finish_reason: String,
}

#[derive(Debug, Clone, Copy, PartialEq, Eq, Structural)]
pub struct Usage {
    pub prompt_tokens: u32,
    pub completion_tokens: u32,
    pub total_tokens: u32,
}

#[derive(Debug, Clone)]
pub struct ChatCompletionResponse {
    pub id: String,
    pub object: String,
    pub created: u64,
    pub model: String,
    pub choices: Vec<ChatChoice>,
    pub usage: Usage,
    pub zkml_proof: Option<String>,
}

#[derive(Debug, Clone)]
pub struct ModelInfo {
    pub id: String,
    pub object: String,
    pub created: u64,
    pub owned_by: String,
}

#[derive(Debug, Clone)]
pub struct ModelsResponse {
    pub object: String,
    pub data: Vec<ModelInfo>,
}

#[derive(Debug, Clone)]
pub struct HealthResponse {
    pub status: String,
    pub model_loaded: bool,
    pub zkml_ready: bool,
    pub timestamp: u64,
}

/// Why no prompt could be taken from a conversation.
#[derive(Debug, Clone, Copy, PartialEq, Eq, Structural)]
pub enum PromptError {
    /// No message has the role `user`.
    MissingUserMessage,
}

/// The token budget of a request that names none.
pub fn default_max_tokens() -> (r: Option<u32>)
    ensures
        r == Some(150u32),
{
    Some(150)
}

/// `n` where it fits a `u32`, else `u32::MAX`.
pub open spec fn clamp_u32(n: int) -> u32 {
    if n <= u32::MAX {
        n as u32
    } else {
        u32::MAX
    }
}

/// A token estimate of about four bytes per token: the byte length
/// divided by four, rounded up.
pub fn estimate_token_count(text: &str) -> (r: u32)
    ensures
        r == clamp_u32((text.spec_bytes().len() as int + 3) / 4),
{
    let n = text.as_bytes().len();
    let q = n / 4 + if n % 4 == 0 {
        0
    } else {
        1
    };
    proof {
        assert(n == text.spec_bytes().len());
        assert(q as int == (n as int + 3) / 4);
    }
    if q > u32::MAX as usize {
        u32::MAX
    } else {
        q as u32
    }
}

/// The number of whitespace-separated words of `text`.
pub fn word_count(text: &str) -> (r: usize)
    ensures
        r == words(text@).len(),
{
    let cs = chars_of(text);
    let ghost s = text@;
    let mut count: usize = 0;
    let mut in_word = false;
    let ghost mut cur: Seq<char> = seq![];
    let mut i: usize = 0;
    proof {
        assert(s.subrange(0, s.len() as int) =~= s);
    }
    while i < cs.len()
        invariant
            cs@ == s,
            i <= s.len(),
            count + (if in_word { 1int } else { 0int }) <= i,
            in_word == (cur.len() > 0),
            words(s).len() == count + words_from(s.subrange(i as int, s.len() as int), cur).len(),
        decreases s.len() - i,
    {
        let c = cs[i];
        proof {
            let rest = s.subrange(i as int, s.len() as int);
            assert(rest[0] == c);
            assert(rest.drop_first() =~= s.subrange(i as int + 1, s.len() as int));
        }
        if is_space(c) {
            if in_word {
                count = count + 1;
            }
            in_word = false;
            proof {
                cur = seq![];
            }
        } else {
            in_word = true;
            proof {
                cur = cur.push(c);
            }
        }
        i = i + 1;
    }
    if in_word {
        count + 1
    } else {
        count
    }
}

/// The content of the last message whose role is `user`.
pub open spec fn last_user_content(ms: Seq<ChatMessage>) -> Option<Seq<char>>
    decreases ms.len(),
{
    if ms.len() == 0 {
        None
    } else if ms.last().role@ == "user"@ {
        Some(ms.last().content@)
    } else {
        last_user_content(ms.drop_last())
    }
}

/// The prompt of a conversation: the content of its last `user` message.
pub fn extract_prompt_from_messages(messages: &[ChatMessage]) -> (r: Result<String, PromptError>)
    ensures
        match last_user_content(messages@) {
            Some(c) => r matches Ok(p) && p@ == c,
            None => r == Err::<String, PromptError>(PromptError::MissingUserMessage),
        },
{
    let user = String::from_str("user");
    let mut i: usize = messages.len();
    proof {
        assert(messages@.subrange(0, i as int) =~= messages@);
    }
    while i > 0
        invariant
            i <= messages@.len(),
            user@ == "user"@,
            last_user_content(messages@) == last_user_content(messages@.subrange(0, i as int)),
        decreases i,
    {
        proof {
            let p = messages@.subrange(0, i as int);
            assert(p.drop_last() =~= messages@.subrange(0, i as int - 1));
            assert(p.last() == messages@[i as int - 1]);
        }
        if messages[i - 1].role == user {
            return Ok(messages[i - 1].content.clone());
        }
        i = i - 1;
    }
    Err(PromptError::MissingUserMessage)
}

/// One message as a transcript line: `role: content`.
pub open spec fn transcript_line(m: ChatMessage) -> Seq<char> {
    m.role@ + ": "@ + m.content@
}

/// The transcript of a conversation: its lines joined by line feeds.
pub open spec fn transcript(ms: Seq<ChatMessage>) -> Seq<char>
    decreases ms.len(),
{
    if ms.len() == 0 {
        seq![]
    } else if ms.len() == 1 {
        transcript_line(ms[0])
    } else {
        transcript(ms.drop_last()) + "\n"@ + transcript_line(ms.last())
    }
}

/// The prompt of a conversation as a whole transcript, one `role: content`
/// line per message.
pub fn transcript_prompt(messages: &[ChatMessage]) -> (r: String)
    ensures
        r@ == transcript(messages@),
{
    let mut out = String::new();
    let mut i: usize = 0;
    proof {
        assert(messages@.subrange(0, 0) =~= Seq::<ChatMessage>::empty());
    }
    while i < messages.len()
        invariant
            i <= messages@.len(),
            out@ == transcript(messages@.subrange(0, i as int)),
        decreases messages@.len() - i,
    {
        proof {
            let p = messages@.subrange(0, i as int + 1);
            assert(p.drop_last() =~= messages@.subrange(0, i as int));
            assert(p.last() == messages@[i as int]);
            assert(p[0] == messages@[0]);
        }
        if i > 0 {
            out.append("\n");
        }
        out.append(messages[i].role.as_str());
        out.append(": ");
        out.append(messages[i].content.as_str());
        proof {
            if i == 0 {
                assert(out@ =~= transcript_line(messages@[0]));
            } else {
                assert(out@ =~= transcript(messages@.subrange(0, i as int)) + "\n"@
                    + transcript_line(messages@[i as int]));
            }
        }
        i = i + 1;
    }
    proof {
        assert(messages@.subrange(0, messages@.len() as int) =~= messages@);
    }
    out
}

impl Usage {
    /// Word counts of the prompt and the completion, each clamped to `u32`.
    pub fn from_texts(prompt: &str, completion: &str) -> (r: Usage)
        ensures
            r.prompt_tokens == clamp_u32(words(prompt@).len() as int),
            r.completion_tokens == clamp_u32(words(completion@).len() as int),
            r.total_tokens == clamp_u32(words(prompt@).len() + words(completion@).len() as int),
    {
        let p = word_count(prompt);
        let c = word_count(completion);
        let pt: u32 = if p > u32::MAX as usize {
            u32::MAX
        } else {
            p as u32
        };
        let ct: u32 = if c > u32::MAX as usize {
            u32::MAX
        } else {
            c as u32
        };
        let total: u32 = if p > u32::MAX as usize || c > u32::MAX as usize {
            u32::MAX
        } else {
            let t: u64 = p as u64 + c as u64;
            if t > u32::MAX as u64 {
                u32::MAX
            } else {
                t as u32
            }
        };
        Usage { prompt_tokens: pt, completion_tokens: ct, total_tokens: total }
    }
}

impl ChatCompletionResponse {
    /// The completion object for a reply: one assistant choice with the
    /// reply text, word-count usage, and the reply's proof value.
    pub fn new(id: String, created: u64, model: String, prompt: &str, reply: GeneratedResponse) -> (r:
        ChatCompletionResponse)
        ensures
            r.id == id,
            r.object@ == "chat.completion"@,
            r.created == created,
            r.model == model,
            r.choices@.len() == 1,
            r.choices@[0].index == 0,
            r.choices@[0].message.role@ == "assistant"@,
            r.choices@[0].message.content@ == reply.text@,
            r.choices@[0].finish_reason@ == "stop"@,
            r.usage.prompt_tokens == clamp_u32(words(prompt@).len() as int),
            r.usage.completion_tokens == clamp_u32(words(reply.text@).len() as int),
            r.usage.total_tokens == clamp_u32(words(prompt@).len() + words(reply.text@).len() as int),
            r.zkml_proof == Some(reply.proof),
    {
        let usage = Usage::from_texts(prompt, reply.text.as_str());
        let choice = ChatChoice {
            index: 0,
            message: ChatMessage { role: String::from_str("assistant"), content: reply.text },
            finish_reason: String::from_str("stop"),
        };
        let mut choices: Vec<ChatChoice> = Vec::new();
        choices.push(choice);
        ChatCompletionResponse {
            id,
            object: String::from_str("chat.completion"),
            created,
            model,
            choices,
            usage,
            zkml_proof: Some(reply.proof),
        }
    }
}

impl ModelsResponse {
    /// The one model served.
    pub fn catalog() -> (r: ModelsResponse)
        ensures
            r.object@ == "list"@,
            r.data@.len() == 1,
            r.data@[0].id@ == "bitnet-b1.58-2b"@,
            r.data@[0].object@ == "model"@,
            r.data@[0].created == 1699401600,
            r.data@[0].owned_by@ == "bitnet-zkml"@,
    {
        let mut data: Vec<ModelInfo> = Vec::new();
        data.push(
            ModelInfo {
                id: String::from_str("bitnet-b1.58-2b"),
                object: String::from_str("model"),
                created: 1699401600,
                owned_by: String::from_str("bitnet-zkml"),
            },
        );
        ModelsResponse { object: String::from_str("list"), data }
    }
}

impl HealthResponse {
    /// Healthy exactly when both the model file and the inference binary are there.
    pub fn new(model_loaded: bool, zkml_ready: bool, timestamp: u64) -> (r: HealthResponse)
        ensures
            r.status@ == (if model_loaded && zkml_ready {
                "healthy"@
            } else {
                "unhealthy"@
            }),
            r.model_loaded == model_loaded,
            r.zkml_ready == zkml_ready,
            r.timestamp == timestamp,
    {
        let status = if model_loaded && zkml_ready {
            String::from_str("healthy")
        } else {
            String::from_str("unhealthy")
        };
        HealthResponse { status, model_loaded, zkml_ready, timestamp }
    }
}

} // verus!
