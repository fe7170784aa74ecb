//! The verifier: checks a proof against the fingerprint it declares.
//! A receipt that does not hold is an ordinary outcome; only input that
//! cannot be read at all is an error.

use vstd::prelude::*;
use crate::receipt::{inspect, journal_discloses, EngineFindings, ReceiptReport};
use crate::wire::{Proof, PublicOutput};

verus! {

/// Input that could not be read.
#[derive(Clone, Copy, Debug, PartialEq, Eq, Structural)]
pub enum MalformedInput {
    /// The fingerprint does not have eight words.
    Fingerprint,
    /// No receipt can be read from the bytes.
    Receipt,
}

/// The outcome of a verification.
#[derive(Clone, Debug, PartialEq, Eq)]
pub struct VerificationOutcome {
    /// Whether the receipt holds for the expected fingerprint.
    pub valid: bool,
    /// The public output of the receipt; given only for a valid receipt,
    /// and only where the output decodes.
    pub decoded_output: Option<PublicOutput>,
}

/// What the verifier answers for a report: a misshapen fingerprint is
/// refused first, then unreadable bytes; anything else is an outcome, and
/// the public output of an invalid receipt is withheld.
pub open spec fn verdict_of(report: ReceiptReport) -> Result<VerificationOutcome, MalformedInput> {
    if report.fingerprint is None {
        Err(MalformedInput::Fingerprint)
    } else if !report.readable {
        Err(MalformedInput::Receipt)
    } else {
        Ok(
            VerificationOutcome {
                valid: report.valid,
                decoded_output: if report.valid {
                    report.output
                } else {
                    None
                },
            },
        )
    }
}

/// Turns the report on a proof into the verifier's answer.
pub fn verification_outcome(report: ReceiptReport) -> (r: Result<
    VerificationOutcome,
    MalformedInput,
>)
    ensures
        r == verdict_of(report),
{
    if report.fingerprint.is_none() {
        return Err(MalformedInput::Fingerprint);
    }
    if !report.readable {
        return Err(MalformedInput::Receipt);
    }
    let decoded_output = if report.valid {
        report.output
    } else {
        None
    };
    Ok(VerificationOutcome { valid: report.valid, decoded_output })
}

/// Verifies a proof against the fingerprint it declares, given what the
/// engine found out about its receipt. The call fails exactly on a
/// misshapen fingerprint or on bytes that hold no receipt; any other proof
/// gets an outcome, valid or not, and a valid one its public output.
pub fn verify(proof: &Proof, findings: &EngineFindings) -> (r: Result<
    VerificationOutcome,
    MalformedInput,
>)
    ensures
        proof.image_id@.len() != 8 ==> r == Err::<VerificationOutcome, MalformedInput>(
            MalformedInput::Fingerprint,
        ),
        proof.image_id@.len() == 8 && !findings.readable ==> r == Err::<
            VerificationOutcome,
            MalformedInput,
        >(MalformedInput::Receipt),
        proof.image_id@.len() == 8 && findings.readable ==> {
            &&& r matches Ok(outcome)
            &&& outcome.valid == findings.verified
            &&& outcome.decoded_output is Some <==> findings.verified && journal_discloses(
                findings.journal@,
            ) is Some
            &&& outcome.decoded_output matches Some(output) ==> journal_discloses(
                findings.journal@,
            ) == Some((output.result@, output.metadata@))
        },
{
    verification_outcome(inspect(proof, findings))
}

} // verus!
