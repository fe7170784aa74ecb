//! Host side of a proof-chaining protocol: conformance rules are evaluated
//! against a probabilistic record of the operations already proven in a
//! chain, and receipts are assembled, composed and checked around an
//! external proving engine.

pub mod assembler;
pub mod composer;
pub mod conformance;
pub mod filter;
pub mod fingerprint;
pub mod orchestrator;
pub mod receipt;
pub mod rules;
pub mod service;
pub mod verification;
pub mod wire;

pub use assembler::{assemble, ConformanceInput, PoamInput, ProverInput};
pub use composer::{compose, CompositionError, CompositionRequest};
pub use conformance::{ConformanceMetadata, RoundError, SerializationError, WireMetadata};
pub use filter::{FilterError, FilterSnapshot, MembershipFilter};
pub use fingerprint::Fingerprint;
pub use orchestrator::{
    prove_method, BinaryRegistry, EngineAnswer, ProvingError, ProvingRequest,
};
pub use rules::{
    evaluate, CardinalityRule, ConformanceResult, PrecedenceRule, Rule, RuleInput,
};
pub use service::{
    ProveError, ProveResponse, VerifiableProcessingServiceServerImplementation, VerifyError,
};
pub use receipt::{EngineFindings, Submission};
pub use verification::{verify, MalformedInput, VerificationOutcome};
pub use wire::{Proof, PublicOutput, WireRule};
