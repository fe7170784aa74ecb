//! The proof input assembler: builds what is handed to the proving engine
//! for one step, namely the operation payload, what the step must conform
//! to, and the prior receipt that the step may rely on.

use vstd::prelude::*;
use crate::conformance::{ConformanceMetadata, SerializationError, WireMetadata};
use crate::fingerprint::Fingerprint;
use crate::rules::RuleInput;
use crate::wire::PublicOutput;

verus! {

/// The proving-time bundle of a step: the binary to run, its rules, and the
/// public output of the step before it, if there was one.
#[derive(Clone, Debug, PartialEq, Eq)]
pub struct PoamInput {
    pub image_id: Fingerprint,
    pub rule_input: RuleInput,
    pub public_data: Option<PublicOutput>,
}

/// What a step must conform to, in one of the two shapes that the guest
/// programs read.
#[derive(Clone, Debug, PartialEq, Eq)]
pub enum ConformanceInput {
    /// The state of the chain, with the filter as a snapshot.
    Metadata(WireMetadata),
    /// The rules of the step and the public output it builds on.
    Poam(PoamInput),
}

/// The input of one run of the engine.
#[derive(Clone, Debug, PartialEq, Eq)]
pub struct ProverInput {
    /// The operation payload; written to the guest first.
    pub payload: String,
    /// What the step must conform to; written to the guest second.
    pub conformance: ConformanceInput,
    /// Serialized receipts that the proof may assume; at most one.
    pub assumptions: Vec<Vec<u8>>,
}

/// The assumptions that a prior receipt gives rise to.
pub open spec fn assumptions_of(prior_receipt: Option<Vec<u8>>) -> Seq<Vec<u8>> {
    match prior_receipt {
        Some(bytes) => seq![bytes],
        None => Seq::<Vec<u8>>::empty(),
    }
}

/// Registers a prior receipt, where there is one, as the only assumption.
pub fn register_assumption(prior_receipt: Option<Vec<u8>>) -> (r: Vec<Vec<u8>>)
    ensures
        r@ == assumptions_of(prior_receipt),
{
    let mut assumptions: Vec<Vec<u8>> = Vec::new();
    match prior_receipt {
        Some(bytes) => {
            assumptions.push(bytes);
            assert(assumptions@ =~= seq![bytes]);
        },
        None => {},
    }
    assumptions
}

/// Assembles the input for the step described by the metadata. The
/// metadata goes in as its wire form; the input is assembled exactly where
/// the metadata is well formed.
pub fn assemble(payload: String, metadata: &ConformanceMetadata, prior_receipt: Option<Vec<u8>>) -> (r:
    Result<ProverInput, SerializationError>)
    ensures
        r is Ok <==> metadata.wf(),
        r matches Ok(input) ==> {
            &&& input.payload == payload
            &&& input.conformance matches ConformanceInput::Metadata(w)
            &&& metadata.serializes_to(w@)
            &&& input.assumptions@ == assumptions_of(prior_receipt)
        },
        r matches Err(e) ==> e == SerializationError::History,
{
    match metadata.serialize() {
        Ok(wire) => Ok(
            ProverInput {
                payload,
                conformance: ConformanceInput::Metadata(wire),
                assumptions: register_assumption(prior_receipt),
            },
        ),
        Err(e) => Err(e),
    }
}

/// Assembles the input for a step given as a proving-time bundle. Nothing
/// of the bundle needs checking, so this never fails.
pub fn assemble_poam(payload: String, input: PoamInput, prior_receipt: Option<Vec<u8>>) -> (r:
    ProverInput)
    ensures
        r.payload == payload,
        r.conformance == ConformanceInput::Poam(input),
        r.assumptions@ == assumptions_of(prior_receipt),
{
    ProverInput {
        payload,
        conformance: ConformanceInput::Poam(input),
        assumptions: register_assumption(prior_receipt),
    }
}

} // verus!
