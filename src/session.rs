//! One proving request as a state machine: build the input, run the
//! engine, decode its journal, verify the receipt, encode it. The engine
//! work happens outside; each step here takes what it reported.
use vstd::prelude::*;

use crate::encoding::{base64_encode, base64_of};
use crate::host::BitNetHostSystem;
use crate::tokenizer::tokenize_spec;

verus! {

/// What the guest program reads first: the prompt's ids and the limits.
#[derive(Debug, Clone)]
pub struct BitNetInput {
    pub prompt_tokens: Vec<u32>,
    pub max_new_tokens: usize,
    pub vocab_size: usize,
}

/// Where a proving request stands.
#[derive(Debug, Clone, Copy, PartialEq, Eq, Structural)]
pub enum ProofPhase {
    BuildInput,
    Execute,
    DecodeOutput,
    Verify,
    Encode,
    Done,
    Failed,
}

/// Why a proving request ended without a result.
#[derive(Debug, Clone, Copy, PartialEq, Eq, Structural)]
pub enum ProofError {
    /// The input or the weights could not be written for the engine.
    InputConstruction,
    /// The engine failed or could not be started.
    EngineExecution,
    /// The journal does not hold the declared output, or holds more tokens
    /// than were asked for.
    OutputDecode,
    /// The receipt does not verify against the program identity.
    Verification,
    /// The receipt could not be serialized.
    Encoding,
}

/// What the outside work of the current phase reported.
#[derive(Debug, Clone)]
pub enum ProofEvent {
    InputWritten,
    InputRejected,
    Executed,
    ExecutionFailed,
    Decoded(Vec<u32>),
    DecodeFailed,
    Verified,
    VerificationFailed,
    Encoded(Vec<u8>),
    EncodingFailed,
}

/// A verified generation: the new tokens and the encoded receipt. Only a
/// session that verified its receipt makes one.
#[derive(Debug, Clone)]
pub struct ProvenGeneration {
    generated_tokens: Vec<u32>,
    proof: String,
}

impl ProvenGeneration {
    pub closed spec fn spec_generated_tokens(&self) -> Seq<u32> {
        self.generated_tokens@
    }

    pub closed spec fn spec_proof(&self) -> Seq<char> {
        self.proof@
    }

    pub fn generated_tokens(&self) -> (r: &Vec<u32>)
        ensures
            r@ == self.spec_generated_tokens(),
    {
        &self.generated_tokens
    }

    pub fn encoded_receipt(&self) -> (r: &String)
        ensures
            r@ == self.spec_proof(),
    {
        &self.proof
    }
}

/// One proving request. Its state changes only through `step`.
#[derive(Debug, Clone)]
pub struct ProofSession {
    phase: ProofPhase,
    max_new_tokens: usize,
    generated_tokens: Vec<u32>,
    verified: bool,
    proof: String,
    error: Option<ProofError>,
}

/// The phase after `event` in `phase`; an event that does not belong to
/// the phase, and any event once finished, leaves it as it is.
pub open spec fn next_phase(phase: ProofPhase, event: ProofEvent, max_new_tokens: usize) -> ProofPhase {
    match (phase, event) {
        (ProofPhase::BuildInput, ProofEvent::InputWritten) => ProofPhase::Execute,
        (ProofPhase::BuildInput, ProofEvent::InputRejected) => ProofPhase::Failed,
        (ProofPhase::Execute, ProofEvent::Executed) => ProofPhase::DecodeOutput,
        (ProofPhase::Execute, ProofEvent::ExecutionFailed) => ProofPhase::Failed,
        (ProofPhase::DecodeOutput, ProofEvent::Decoded(t)) => if t@.len() <= max_new_tokens {
            ProofPhase::Verify
        } else {
            ProofPhase::Failed
        },
        (ProofPhase::DecodeOutput, ProofEvent::DecodeFailed) => ProofPhase::Failed,
        (ProofPhase::Verify, ProofEvent::Verified) => ProofPhase::Encode,
        (ProofPhase::Verify, ProofEvent::VerificationFailed) => ProofPhase::Failed,
        (ProofPhase::Encode, ProofEvent::Encoded(_)) => ProofPhase::Done,
        (ProofPhase::Encode, ProofEvent::EncodingFailed) => ProofPhase::Failed,
        _ => phase,
    }
}

/// The error of a step into `Failed`.
pub open spec fn failure_of(phase: ProofPhase) -> ProofError {
    match phase {
        ProofPhase::BuildInput => ProofError::InputConstruction,
        ProofPhase::Execute => ProofError::EngineExecution,
        ProofPhase::DecodeOutput => ProofError::OutputDecode,
        ProofPhase::Verify => ProofError::Verification,
        _ => ProofError::Encoding,
    }
}

impl BitNetHostSystem {
    /// The engine input for a prompt: its ids, the token budget and the
    /// vocabulary size of the weights.
    pub fn build_input(&self, prompt: &str, max_new_tokens: usize) -> (r: BitNetInput)
        ensures
            r.prompt_tokens@ == tokenize_spec(self.tokenizer.entries(), prompt@),
            r.max_new_tokens == max_new_tokens,
            r.vocab_size == self.weights.vocab_size,
    {
        BitNetInput {
            prompt_tokens: self.tokenize(prompt),
            max_new_tokens,
            vocab_size: self.weights.vocab_size,
        }
    }
}

impl ProofSession {
    pub closed spec fn spec_phase(&self) -> ProofPhase {
        self.phase
    }

    pub closed spec fn spec_max_new_tokens(&self) -> usize {
        self.max_new_tokens
    }

    pub closed spec fn spec_generated_tokens(&self) -> Seq<u32> {
        self.generated_tokens@
    }

    pub closed spec fn spec_verified(&self) -> bool {
        self.verified
    }

    pub closed spec fn spec_proof(&self) -> Seq<char> {
        self.proof@
    }

    pub closed spec fn spec_error(&self) -> Option<ProofError> {
        self.error
    }

    pub fn phase(&self) -> (r: ProofPhase)
        ensures
            r == self.spec_phase(),
    {
        self.phase
    }

    /// Whether the receipt has verified.
    pub fn verified(&self) -> (r: bool)
        ensures
            r == self.spec_verified(),
    {
        self.verified
    }

    /// The tokens decoded so far.
    pub fn generated_tokens(&self) -> (r: &Vec<u32>)
        ensures
            r@ == self.spec_generated_tokens(),
    {
        &self.generated_tokens
    }

    /// What holds in every phase: tokens are kept only once decoded within
    /// the budget, a proof only once encoded, and nothing past `Verify`
    /// without a verified receipt.
    pub closed spec fn wf(&self) -> bool {
        &&& self.generated_tokens@.len() <= self.max_new_tokens
        &&& (self.phase == ProofPhase::Encode || self.phase == ProofPhase::Done) ==> self.verified
        &&& self.phase != ProofPhase::Done ==> self.proof@.len() == 0
        &&& (self.phase == ProofPhase::Failed) == (self.error is Some)
        &&& (self.phase == ProofPhase::BuildInput || self.phase == ProofPhase::Execute
            || self.phase == ProofPhase::DecodeOutput) ==> !self.verified
    }

    /// A request that has not started, for at most `max_new_tokens` new tokens.
    pub fn new(max_new_tokens: usize) -> (r: ProofSession)
        ensures
            r.wf(),
            r.spec_phase() == ProofPhase::BuildInput,
            r.spec_max_new_tokens() == max_new_tokens,
            r.spec_generated_tokens().len() == 0,
    {
        ProofSession {
            phase: ProofPhase::BuildInput,
            max_new_tokens,
            generated_tokens: Vec::new(),
            verified: false,
            proof: String::new(),
            error: None,
        }
    }

    /// Takes what the outside work of the current phase reported.
    pub fn step(&mut self, event: ProofEvent)
        requires
            old(self).wf(),
        ensures
            final(self).wf(),
            final(self).spec_phase() == ProofPhase::Encode || final(self).spec_phase()
                == ProofPhase::Done ==> final(self).spec_verified(),
            final(self).spec_phase() == next_phase(old(self).spec_phase(), event, old(self).spec_max_new_tokens()),
            final(self).spec_max_new_tokens() == old(self).spec_max_new_tokens(),
            final(self).spec_phase() == ProofPhase::Failed && old(self).spec_phase() != ProofPhase::Failed
                ==> final(self).spec_error() == Some(failure_of(old(self).spec_phase())),
            old(self).spec_phase() == ProofPhase::DecodeOutput && final(self).spec_phase() == ProofPhase::Verify
                ==> (event matches ProofEvent::Decoded(t) && final(self).spec_generated_tokens() == t@),
            old(self).spec_phase() == ProofPhase::Encode && final(self).spec_phase() == ProofPhase::Done
                ==> (event matches ProofEvent::Encoded(b) && final(self).spec_proof() == base64_of(b@)),
            old(self).spec_phase() != ProofPhase::DecodeOutput ==> final(self).spec_generated_tokens()
                == old(self).spec_generated_tokens(),
            old(self).spec_phase() == ProofPhase::Failed || old(self).spec_phase() == ProofPhase::Done
                ==> *final(self) == *old(self),
    {
        let phase = self.phase;
        match event {
            ProofEvent::InputWritten => {
                if phase == ProofPhase::BuildInput {
                    self.phase = ProofPhase::Execute;
                }
            },
            ProofEvent::InputRejected => {
                if phase == ProofPhase::BuildInput {
                    self.fail(ProofError::InputConstruction);
                }
            },
            ProofEvent::Executed => {
                if phase == ProofPhase::Execute {
                    self.phase = ProofPhase::DecodeOutput;
                }
            },
            ProofEvent::ExecutionFailed => {
                if phase == ProofPhase::Execute {
                    self.fail(ProofError::EngineExecution);
                }
            },
            ProofEvent::Decoded(tokens) => {
                if phase == ProofPhase::DecodeOutput {
                    if tokens.len() <= self.max_new_tokens {
                        self.generated_tokens = tokens;
                        self.phase = ProofPhase::Verify;
                    } else {
                        self.fail(ProofError::OutputDecode);
                    }
                }
            },
            ProofEvent::DecodeFailed => {
                if phase == ProofPhase::DecodeOutput {
                    self.fail(ProofError::OutputDecode);
                }
            },
            ProofEvent::Verified => {
                if phase == ProofPhase::Verify {
                    self.verified = true;
                    self.phase = ProofPhase::Encode;
                }
            },
            ProofEvent::VerificationFailed => {
                if phase == ProofPhase::Verify {
                    self.fail(ProofError::Verification);
                }
            },
            ProofEvent::Encoded(bytes) => {
                if phase == ProofPhase::Encode {
                    self.proof = base64_encode(bytes.as_slice());
                    self.phase = ProofPhase::Done;
                }
            },
            ProofEvent::EncodingFailed => {
                if phase == ProofPhase::Encode {
                    self.fail(ProofError::Encoding);
                }
            },
        }
    }

    /// Ends the request: whatever was decoded is discarded.
    fn fail(&mut self, e: ProofError)
        requires
            old(self).spec_phase() != ProofPhase::Done,
            old(self).spec_phase() != ProofPhase::Failed,
            old(self).wf(),
        ensures
            final(self).spec_phase() == ProofPhase::Failed,
            final(self).spec_error() == Some(e),
            final(self).spec_max_new_tokens() == old(self).spec_max_new_tokens(),
            final(self).spec_generated_tokens() == old(self).spec_generated_tokens(),
            final(self).spec_verified() == old(self).spec_verified(),
            final(self).spec_proof() == old(self).spec_proof(),
            final(self).wf(),
    {
        self.phase = ProofPhase::Failed;
        self.error = Some(e);
    }

    /// The result of a finished request: the verified generation once
    /// `Done`, the error once `Failed`, `EngineExecution` for a request
    /// that was abandoned before either.
    pub fn outcome(self) -> (r: Result<ProvenGeneration, ProofError>)
        requires
            self.wf(),
        ensures
            match r {
                Ok(g) => {
                    &&& self.spec_phase() == ProofPhase::Done
                    &&& self.spec_verified()
                    &&& g.spec_generated_tokens() == self.spec_generated_tokens()
                    &&& g.spec_generated_tokens().len() <= self.spec_max_new_tokens()
                    &&& g.spec_proof() == self.spec_proof()
                },
                Err(e) => {
                    &&& self.spec_phase() != ProofPhase::Done
                    &&& self.spec_phase() == ProofPhase::Failed ==> self.spec_error() == Some(e)
                    &&& self.spec_phase() != ProofPhase::Failed ==> e == ProofError::EngineExecution
                },
            },
    {
        match self.phase {
            ProofPhase::Done => Ok(
                ProvenGeneration { generated_tokens: self.generated_tokens, proof: self.proof },
            ),
            ProofPhase::Failed => match self.error {
                Some(e) => Err(e),
                None => Err(ProofError::EngineExecution),
            },
            _ => Err(ProofError::EngineExecution),
        }
    }
}

} // verus!
