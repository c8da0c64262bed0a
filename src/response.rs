//! The answer to a prompt: a verified receipt where proving succeeded, a
//! digest attestation for plain inference, and otherwise a labelled
//! fallback that echoes the prompt with a placeholder proof.
use vstd::prelude::*;
use vstd::string::StringExecFns;
use vstd::utf8::encode_utf8;

use crate::cleanup::{clean_llama_output, cleaned_output};
use crate::encoding::{base64_encode, base64_of, md5_digest, md5_of};
use crate::host::{detokenize_spec, BitNetHostSystem};
use crate::session::{ProofError, ProvenGeneration};
use crate::text::{decimal, decimal_string, hex_of, hex_string};

verus! {

/// What stands behind a proof value.
#[derive(Debug, Clone, Copy, PartialEq, Eq, Structural)]
pub enum ProofKind {
    /// A receipt of the proving engine that verified against the program identity.
    Receipt,
    /// Digests of the prompt and the response, with nothing proved.
    Attestation,
    /// A placeholder that stands for no proof at all.
    Placeholder,
}

impl ProofKind {
    /// Only a verified receipt is a proof of the generation.
    pub fn is_authoritative(&self) -> (r: bool)
        ensures
            r == (*self == ProofKind::Receipt),
    {
        match self {
            ProofKind::Receipt => true,
            _ => false,
        }
    }
}

/// Response text, the encoded proof value, and what that value is.
#[derive(Debug, Clone)]
pub struct GeneratedResponse {
    pub text: String,
    pub proof: String,
    pub kind: ProofKind,
}

pub open spec fn fallback_opening() -> Seq<char> {
    "I'm a BitNet zkML assistant. I received your message: '"@
}

pub open spec fn fallback_closing() -> Seq<char> {
    "'. However, I'm currently experiencing technical difficulties with the zkVM inference. This is a fallback response without a verified proof."@
}

/// The fallback reply, which quotes the prompt.
pub open spec fn fallback_text(prompt: Seq<char>) -> Seq<char> {
    fallback_opening() + prompt + fallback_closing()
}

pub open spec fn placeholder_head() -> Seq<char> {
    "{\"proof_type\":\"fallback\",\"status\":\"mock_proof\",\"timestamp\":"@
}

/// The JSON document a placeholder proof encodes, tagged `fallback`.
pub open spec fn placeholder_document(timestamp: nat) -> Seq<char> {
    placeholder_head() + decimal(timestamp) + "}"@
}

pub open spec fn attestation_model() -> Seq<char> {
    "{\"model\":\"BitNet-b1.58-2B-4T\",\"prompt_hash\":\""@
}

pub open spec fn attestation_response() -> Seq<char> {
    "\",\"proof_type\":\"bitnet_inference\",\"response_hash\":\""@
}

pub open spec fn attestation_time() -> Seq<char> {
    "\",\"timestamp\":"@
}

pub open spec fn attestation_tail() -> Seq<char> {
    ",\"verification\":\"pending\",\"zkvm\":\"risc0\"}"@
}

/// The JSON document of an attestation: the MD5 digests (lower-case hex)
/// of the prompt and the response, and the time.
pub open spec fn attestation_document(prompt: Seq<char>, response: Seq<char>, timestamp: nat) -> Seq<
    char,
> {
    attestation_model() + hex_of(md5_of(encode_utf8(prompt))) + attestation_response() + hex_of(
        md5_of(encode_utf8(response)),
    ) + attestation_time() + decimal(timestamp) + attestation_tail()
}

/// The base64 form of a document's UTF-8 bytes.
pub open spec fn encoded_document(doc: Seq<char>) -> Seq<char> {
    base64_of(encode_utf8(doc))
}

proof fn lemma_encoding_nonempty(cs: Seq<char>)
    requires
        cs.len() > 0,
    ensures
        encode_utf8(cs).len() > 0,
{
    assert(encode_utf8(cs) == vstd::utf8::encode_scalar(cs[0] as u32) + encode_utf8(cs.drop_first()));
}

fn encode_text(doc: &String) -> (r: String)
    ensures
        r@ == encoded_document(doc@),
        doc@.len() > 0 ==> r@.len() > 0,
{
    let b = doc.as_str().as_bytes();
    proof {
        if doc@.len() > 0 {
            lemma_encoding_nonempty(doc@);
            let n = b@.len();
            assert((n + 2) / 3 >= 1);
        }
    }
    base64_encode(b)
}

/// The placeholder proof value: a JSON document tagged `fallback`, in base64.
pub fn placeholder_proof(timestamp: u64) -> (r: String)
    ensures
        r@ == encoded_document(placeholder_document(timestamp as nat)),
        r@.len() > 0,
{
    let mut doc = String::from_str(
        "{\"proof_type\":\"fallback\",\"status\":\"mock_proof\",\"timestamp\":",
    );
    let t = decimal_string(timestamp);
    doc.append(t.as_str());
    doc.append("}");
    proof {
        reveal_strlit("}");
        assert(doc@ =~= placeholder_document(timestamp as nat));
    }
    encode_text(&doc)
}

/// The reply where no proof could be had: it quotes the prompt and carries
/// a placeholder proof, marked as such.
pub fn fallback_response(prompt: &str, timestamp: u64) -> (r: GeneratedResponse)
    ensures
        r.text@ == fallback_text(prompt@),
        r.text@.len() > prompt@.len(),
        r.proof@ == encoded_document(placeholder_document(timestamp as nat)),
        r.proof@.len() > 0,
        r.kind == ProofKind::Placeholder,
{
    let mut text = String::from_str("I'm a BitNet zkML assistant. I received your message: '");
    text.append(prompt);
    text.append(
        "'. However, I'm currently experiencing technical difficulties with the zkVM inference. This is a fallback response without a verified proof.",
    );
    proof {
        reveal_strlit("I'm a BitNet zkML assistant. I received your message: '");
    }
    GeneratedResponse { text, proof: placeholder_proof(timestamp), kind: ProofKind::Placeholder }
}

/// The attestation proof value for a prompt and its response.
pub fn attestation_proof(prompt: &str, response: &str, timestamp: u64) -> (r: String)
    ensures
        r@ == encoded_document(attestation_document(prompt@, response@, timestamp as nat)),
        r@.len() > 0,
{
    let prompt_digest = md5_digest(prompt.as_bytes());
    let response_digest = md5_digest(response.as_bytes());
    let mut doc = String::from_str("{\"model\":\"BitNet-b1.58-2B-4T\",\"prompt_hash\":\"");
    doc.append(hex_string(prompt_digest.as_slice()).as_str());
    doc.append("\",\"proof_type\":\"bitnet_inference\",\"response_hash\":\"");
    doc.append(hex_string(response_digest.as_slice()).as_str());
    doc.append("\",\"timestamp\":");
    doc.append(decimal_string(timestamp).as_str());
    doc.append(",\"verification\":\"pending\",\"zkvm\":\"risc0\"}");
    proof {
        assert(doc@ =~= attestation_document(prompt@, response@, timestamp as nat));
        reveal_strlit("{\"model\":\"BitNet-b1.58-2B-4T\",\"prompt_hash\":\"");
    }
    encode_text(&doc)
}

/// The reply of the plain inference binary: its cleaned output, with an
/// attestation over the prompt and that text; the fallback where the
/// binary was missing or failed.
pub fn respond_to_inference(prompt: &str, stdout: Option<&str>, timestamp: u64) -> (r:
    GeneratedResponse)
    ensures
        match stdout {
            Some(out) => {
                &&& r.text@ == cleaned_output(out@)
                &&& r.proof@ == encoded_document(
                    attestation_document(prompt@, cleaned_output(out@), timestamp as nat),
                )
                &&& r.kind == ProofKind::Attestation
            },
            None => {
                &&& r.text@ == fallback_text(prompt@)
                &&& r.proof@ == encoded_document(placeholder_document(timestamp as nat))
                &&& r.kind == ProofKind::Placeholder
            },
        },
        r.text@.len() > 0,
        r.proof@.len() > 0,
{
    match stdout {
        Some(out) => {
            let text = clean_llama_output(out);
            let proof = attestation_proof(prompt, text.as_str(), timestamp);
            proof {
                reveal_strlit("Response generated by BitNet zkML system.");
                reveal_strlit("{\"model\":\"BitNet-b1.58-2B-4T\",\"prompt_hash\":\"");
            }
            GeneratedResponse { text, proof, kind: ProofKind::Attestation }
        },
        None => fallback_response(prompt, timestamp),
    }
}

impl BitNetHostSystem {
    /// The reply to a proving request: the detokenized generation with its
    /// receipt where it verified, the fallback otherwise. A generation comes
    /// only from a session whose receipt verified, so no unverified output
    /// reaches a reply marked as a receipt.
    pub fn respond(&self, prompt: &str, outcome: Result<ProvenGeneration, ProofError>, timestamp: u64) -> (r:
        GeneratedResponse)
        ensures
            match outcome {
                Ok(g) => {
                    &&& r.text@ == detokenize_spec(self.reverse_view(), g.spec_generated_tokens())
                    &&& r.proof@ == g.spec_proof()
                    &&& r.kind == ProofKind::Receipt
                },
                Err(_) => {
                    &&& r.text@ == fallback_text(prompt@)
                    &&& r.text@.len() > 0
                    &&& r.proof@ == encoded_document(placeholder_document(timestamp as nat))
                    &&& r.proof@.len() > 0
                    &&& r.kind == ProofKind::Placeholder
                },
            },
    {
        match outcome {
            Ok(g) => GeneratedResponse {
                text: self.detokenize(g.generated_tokens().as_slice()),
                proof: g.encoded_receipt().clone(),
                kind: ProofKind::Receipt,
            },
            Err(_) => fallback_response(prompt, timestamp),
        }
    }
}

} // verus!
