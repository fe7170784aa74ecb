//! The service facade: the three operations that callers reach remotely,
//! `Prove`, `Compose` and `Verify`. Each operation is split where the
//! proving engine comes in: one function decides what the engine is asked,
//! another turns the engine's answer into the response.

use vstd::prelude::*;
use crate::assembler::{assumptions_of, ConformanceInput, PoamInput};
use crate::composer::{
    compose, composition_outcome, plan_matches, reports_describe, CompositionError,
    CompositionRequest,
};
use crate::filter::{text_snapshot, FilterSnapshot, MembershipFilter, Record};
use crate::fingerprint::Fingerprint;
use crate::orchestrator::{prove_method, BinaryRegistry, EngineAnswer, ProvingRequest};
use crate::receipt::{decode_journal, inspect, journal_discloses, ReceiptReport, Submission};
use crate::rules::{evaluation, ConformanceResult, RuleInput};
use crate::verification::{verification_outcome, MalformedInput, VerificationOutcome};
use crate::wire::{copy_bytes, Proof, PublicOutput};

verus! {

/// Why a step was not proven.
#[derive(Clone, Debug, PartialEq, Eq)]
pub enum ProveError {
    /// The prior proof cannot be read.
    MalformedProof(MalformedInput),
    /// The prior receipt does not hold for the fingerprint it declares, or
    /// its public output does not decode.
    AssumptionRejected,
    /// The metadata that the prior step disclosed is no snapshot of a
    /// filter, or none that a filter writes.
    MalformedHistory,
    /// A rule is violated; the outcome names the first such rule.
    Rejected(ConformanceResult),
    /// No binary is registered for the step.
    UnknownFingerprint,
    /// The engine failed; the detail is the engine's own.
    EngineFailure(String),
    /// The engine's receipt discloses no result.
    UndisclosedResult,
}

/// Why a proof was not verified.
#[derive(Clone, Copy, Debug, PartialEq, Eq)]
pub enum VerifyError {
    /// The request holds no proof.
    MissingProof,
    /// The proof cannot be read.
    Malformed(MalformedInput),
}

/// The response to `Prove`.
#[derive(Clone, Debug, PartialEq, Eq)]
pub struct ProveResponse {
    /// The result that the step discloses.
    pub response_value: String,
    /// The proof of the step.
    pub proof_response: Proof,
    /// The proofs of the chain so far, the new one last.
    pub proof_chain: Vec<Proof>,
}

/// The service: the registry of binaries, the binary that proves a step,
/// the binary that composes, and the rules that every step must satisfy.
pub struct VerifiableProcessingServiceServerImplementation {
    pub registry: BinaryRegistry,
    pub processing_id: Fingerprint,
    pub composition_id: Fingerprint,
    pub rules: RuleInput,
}

/// Why a prior proof cannot be built on, if it cannot: a misshapen
/// fingerprint first, then unreadable bytes, then a receipt that cannot
/// stand as an assumption.
pub open spec fn prior_fault(report: ReceiptReport) -> Option<ProveError> {
    if report.fingerprint is None {
        Some(ProveError::MalformedProof(MalformedInput::Fingerprint))
    } else if !report.readable {
        Some(ProveError::MalformedProof(MalformedInput::Receipt))
    } else if !report.dischargeable() {
        Some(ProveError::AssumptionRejected)
    } else {
        None
    }
}

/// The chain of a response: the prior proof, where there is one, and then
/// the new proof.
pub open spec fn chain_of(prior_proof: Option<Proof>, proof: Proof) -> Seq<Proof> {
    match prior_proof {
        Some(prior) => seq![prior, proof],
        None => seq![proof],
    }
}

impl VerifiableProcessingServiceServerImplementation {
    /// The request asks for the step binary on the payload, under the rules
    /// of the service, building on the given public output and receipt.
    pub open spec fn names_request(
        &self,
        request: ProvingRequest,
        payload: String,
        public_data: Option<PublicOutput>,
        prior_receipt: Option<Vec<u8>>,
    ) -> bool {
        &&& request.image_id == self.processing_id
        &&& request.input.payload == payload
        &&& request.input.assumptions@ == assumptions_of(prior_receipt)
        &&& request.input.conformance matches ConformanceInput::Poam(pi)
        &&& pi.image_id == self.processing_id
        &&& pi.rule_input.same_rules(self.rules)
        &&& pi.public_data == public_data
    }

    /// The result is the one called for by the verdict of the rules: a
    /// violated rule is reported first, then an unknown binary.
    pub open spec fn round_matches(
        &self,
        result: Result<ProvingRequest, ProveError>,
        payload: String,
        public_data: Option<PublicOutput>,
        prior_receipt: Option<Vec<u8>>,
        verdict: ConformanceResult,
    ) -> bool {
        if verdict !is Accepted {
            result == Err::<ProvingRequest, ProveError>(ProveError::Rejected(verdict))
        } else if !self.registry@.dom().contains(self.processing_id) {
            result == Err::<ProvingRequest, ProveError>(ProveError::UnknownFingerprint)
        } else {
            result matches Ok(request) && self.names_request(
                request,
                payload,
                public_data,
                prior_receipt,
            )
        }
    }

    /// The result is the one called for by the report on the prior proof:
    /// the metadata that the prior step disclosed is read as the snapshot of
    /// its filter, and the rules are checked against what a filter read from
    /// the snapshot has stored.
    pub open spec fn next_round_matches(
        &self,
        result: Result<ProvingRequest, ProveError>,
        payload: String,
        report: ReceiptReport,
    ) -> bool {
        match prior_fault(report) {
            Some(e) => result == Err::<ProvingRequest, ProveError>(e),
            None => {
                let history = text_snapshot(report.output.unwrap().metadata@);
                if history is Some && history.unwrap().acceptable() {
                    self.round_matches(
                        result,
                        payload,
                        report.output,
                        Some(report.receipt),
                        evaluation(
                            self.rules.all_rules(),
                            history.unwrap().record(),
                            self.processing_id,
                        ),
                    )
                } else {
                    result == Err::<ProvingRequest, ProveError>(ProveError::MalformedHistory)
                }
            },
        }
    }

    /// A service over the given registry, binaries and rules.
    pub fn new(
        registry: BinaryRegistry,
        processing_id: Fingerprint,
        composition_id: Fingerprint,
        rules: RuleInput,
    ) -> (r: VerifiableProcessingServiceServerImplementation)
        ensures
            r.registry == registry,
            r.processing_id == processing_id,
            r.composition_id == composition_id,
            r.rules == rules,
    {
        VerifiableProcessingServiceServerImplementation {
            registry,
            processing_id,
            composition_id,
            rules,
        }
    }

    /// Decides a round once the verdict of the rules is known: a rejection
    /// costs no proving, an unknown binary is refused, and otherwise the
    /// engine is asked for the step.
    pub fn plan_round(
        &self,
        payload: String,
        public_data: Option<PublicOutput>,
        prior_receipt: Option<Vec<u8>>,
        verdict: ConformanceResult,
    ) -> (r: Result<ProvingRequest, ProveError>)
        ensures
            self.round_matches(r, payload, public_data, prior_receipt, verdict),
    {
        match verdict {
            ConformanceResult::Accepted => {},
            _ => {
                return Err(ProveError::Rejected(verdict));
            },
        }
        let pi = PoamInput {
            image_id: self.processing_id,
            rule_input: self.rules.duplicate(),
            public_data,
        };
        match prove_method(&self.registry, payload, pi, prior_receipt) {
            Ok(request) => Ok(request),
            Err(_) => Err(ProveError::UnknownFingerprint),
        }
    }

    /// `Prove`, up to the engine. Without a prior step the step is the first
    /// of its chain and the rules are checked against an empty record. With
    /// one, the prior proof is inspected with what the engine found out
    /// about it, and the rules are checked against the filter that the
    /// prior step disclosed.
    pub fn prove(&self, operation_payload: String, prior: Option<Submission>) -> (r: Result<
        ProvingRequest,
        ProveError,
    >)
        ensures
            prior is None ==> self.round_matches(
                r,
                operation_payload,
                None,
                None,
                evaluation(self.rules.all_rules(), Record::nothing(), self.processing_id),
            ),
            prior matches Some(step) ==> exists|report: ReceiptReport|
                report.describes(step.proof, step.findings) && #[trigger] self.next_round_matches(
                    r,
                    operation_payload,
                    report,
                ),
            prior is None && self.rules.all_rules().len() == 0 && self.registry@.dom().contains(
                self.processing_id,
            ) ==> r is Ok,
    {
        match prior {
            None => {
                let verdict = self.rules.evaluate_unrecorded(&self.processing_id);
                self.plan_round(operation_payload, None, None, verdict)
            },
            Some(step) => {
                let report = inspect(&step.proof, &step.findings);
                let r = self.plan_next_round(operation_payload, report);
                assert(report.describes(step.proof, step.findings) && self.next_round_matches(
                    r,
                    operation_payload,
                    report,
                ));
                r
            },
        }
    }

    /// Decides a round that builds on a prior proof, from the report on it.
    pub fn plan_next_round(&self, payload: String, report: ReceiptReport) -> (r: Result<
        ProvingRequest,
        ProveError,
    >)
        ensures
            self.next_round_matches(r, payload, report),
    {
        if report.fingerprint.is_none() {
            return Err(ProveError::MalformedProof(MalformedInput::Fingerprint));
        }
        if !report.readable {
            return Err(ProveError::MalformedProof(MalformedInput::Receipt));
        }
        if !report.valid {
            return Err(ProveError::AssumptionRejected);
        }
        let history = match &report.output {
            Some(disclosed) => FilterSnapshot::from_json(disclosed.metadata.as_str()),
            None => {
                return Err(ProveError::AssumptionRejected);
            },
        };
        let filter = match history {
            Some(snapshot) => match MembershipFilter::from_snapshot(&snapshot) {
                Ok(filter) => filter,
                Err(_) => {
                    return Err(ProveError::MalformedHistory);
                },
            },
            None => {
                return Err(ProveError::MalformedHistory);
            },
        };
        let verdict = self.rules.evaluate(&filter, &self.processing_id);
        self.plan_round(payload, report.output, Some(report.receipt), verdict)
    }

    /// `Prove`, from the engine's answer on. A failure of the engine is
    /// passed on. A receipt whose journal discloses no result is refused.
    /// Any other receipt gives a response: the result that the journal
    /// discloses, the proof of the step under the fingerprint of the step
    /// binary, and the chain, which is the prior proof, where there is one,
    /// and then the new proof.
    pub fn prove_response(&self, prior_proof: Option<Proof>, answer: EngineAnswer) -> (r: Result<
        ProveResponse,
        ProveError,
    >)
        ensures
            answer matches EngineAnswer::Failure(detail) ==> r == Err::<ProveResponse, ProveError>(
                ProveError::EngineFailure(detail),
            ),
            answer matches EngineAnswer::Receipt { receipt, journal } ==> match journal_discloses(
                journal@,
            ) {
                None => r == Err::<ProveResponse, ProveError>(ProveError::UndisclosedResult),
                Some(pair) => {
                    &&& r matches Ok(response)
                    &&& response.response_value@ == pair.0
                    &&& response.proof_response.image_id@ == self.processing_id@
                    &&& response.proof_response.receipt@ == receipt@
                    &&& response.proof_chain@.len() == chain_of(
                        prior_proof,
                        response.proof_response,
                    ).len()
                    &&& prior_proof matches Some(prior) ==> response.proof_chain@[0] == prior
                    &&& response.proof_chain@.last().image_id@ == self.processing_id@
                    &&& response.proof_chain@.last().receipt == receipt
                },
            },
    {
        let (receipt, journal) = match answer {
            EngineAnswer::Receipt { receipt, journal } => (receipt, journal),
            EngineAnswer::Failure(detail) => {
                return Err(ProveError::EngineFailure(detail));
            },
        };
        let disclosed = match decode_journal(journal.as_slice()) {
            Some(output) => output,
            None => {
                return Err(ProveError::UndisclosedResult);
            },
        };
        let proof_response = Proof {
            image_id: self.processing_id.to_words(),
            receipt: copy_bytes(receipt.as_slice()),
        };
        let mut proof_chain: Vec<Proof> = Vec::new();
        match prior_proof {
            Some(prior) => {
                proof_chain.push(prior);
            },
            None => {},
        }
        proof_chain.push(Proof { image_id: self.processing_id.to_words(), receipt });
        Ok(ProveResponse { response_value: disclosed.result, proof_response, proof_chain })
    }

    /// `Compose`, up to the engine: the proofs of the chain are inspected
    /// with what the engine found out about them, and the engine is asked
    /// for a composite proof only if every one of them can stand as an
    /// assumption.
    pub fn compose(&self, proof_chain: &[Submission]) -> (r: Result<
        CompositionRequest,
        CompositionError,
    >)
        ensures
            exists|reports: Seq<ReceiptReport>|
                reports_describe(reports, proof_chain@) && #[trigger] plan_matches(
                    r,
                    self.composition_id,
                    reports,
                ),
            proof_chain@.len() == 0 <==> r == Err::<CompositionRequest, CompositionError>(
                CompositionError::EmptyInput,
            ),
    {
        compose(proof_chain, self.composition_id)
    }

    /// `Compose`, from the engine's answer on: the composite proof under the
    /// fingerprint of the composition binary, or the failure.
    pub fn compose_response(&self, answer: EngineAnswer) -> (r: Result<Proof, CompositionError>)
        ensures
            answer is Failure ==> r == Err::<Proof, CompositionError>(
                CompositionError::EngineFailure,
            ),
            answer matches EngineAnswer::Receipt { receipt, .. } ==> r matches Ok(proof)
                && proof.image_id@ == self.composition_id@ && proof.receipt == receipt,
    {
        let composite = match answer {
            EngineAnswer::Receipt { receipt, .. } => Some(receipt),
            EngineAnswer::Failure(_) => None,
        };
        composition_outcome(&self.composition_id, composite)
    }

    /// `Verify`: a request without a proof is refused, a proof that cannot be
    /// read is refused, and any other proof gets an outcome, valid or not,
    /// as the engine found it.
    pub fn verify(&self, submitted: Option<Submission>) -> (r: Result<
        VerificationOutcome,
        VerifyError,
    >)
        ensures
            submitted is None ==> r == Err::<VerificationOutcome, VerifyError>(
                VerifyError::MissingProof,
            ),
            submitted matches Some(s) ==> {
                &&& s.proof.image_id@.len() != 8 ==> r == Err::<VerificationOutcome, VerifyError>(
                    VerifyError::Malformed(MalformedInput::Fingerprint),
                )
                &&& s.proof.image_id@.len() == 8 && !s.findings.readable ==> r == Err::<
                    VerificationOutcome,
                    VerifyError,
                >(VerifyError::Malformed(MalformedInput::Receipt))
                &&& s.proof.image_id@.len() == 8 && s.findings.readable ==> {
                    &&& r matches Ok(outcome)
                    &&& outcome.valid == s.findings.verified
                    &&& outcome.decoded_output is Some <==> s.findings.verified
                        && journal_discloses(s.findings.journal@) is Some
                    &&& outcome.decoded_output matches Some(output) ==> journal_discloses(
                        s.findings.journal@,
                    ) == Some((output.result@, output.metadata@))
                }
            },
    {
        let report = match submitted {
            Some(s) => inspect(&s.proof, &s.findings),
            None => {
                return Err(VerifyError::MissingProof);
            },
        };
        match verification_outcome(report) {
            Ok(outcome) => Ok(outcome),
            Err(e) => Err(VerifyError::Malformed(e)),
        }
    }
}

} // verus!
