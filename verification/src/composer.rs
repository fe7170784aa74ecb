//! The composer: folds a sequence of receipts into one request to the
//! composition binary. Every receipt becomes an assumption of the composite
//! proof, so every one of them has to stand: composition is a conjunction.

use vstd::prelude::*;
use crate::fingerprint::Fingerprint;
use crate::receipt::{inspect, ReceiptReport, Submission};
use crate::wire::{copy_bytes, Proof, PublicOutput};

verus! {

/// Why a composition was refused.
#[derive(Clone, Copy, Debug, PartialEq, Eq)]
pub enum CompositionError {
    /// No receipt was given.
    EmptyInput,
    /// The receipt at `index` cannot stand as an assumption; it is the first such.
    AssumptionRejected { index: usize },
    /// The engine produced no composite receipt.
    EngineFailure,
}

/// What the composition binary is told of one constituent receipt.
#[derive(Clone, Debug, PartialEq, Eq)]
pub struct CompositeProofInput {
    pub image_id: Fingerprint,
    pub public_data: PublicOutput,
}

/// A request to the engine for a composite proof.
#[derive(Clone, Debug, PartialEq, Eq)]
pub struct CompositionRequest {
    /// The composition binary.
    pub target: Fingerprint,
    /// One entry for each constituent receipt, in order.
    pub inputs: Vec<CompositeProofInput>,
    /// The constituent receipts, in the same order, to be registered as assumptions.
    pub assumptions: Vec<Vec<u8>>,
}

/// Receipt `i` cannot stand as an assumption and every receipt before it can.
pub open spec fn first_rejected_at(reports: Seq<ReceiptReport>, i: int) -> bool {
    &&& 0 <= i < reports.len()
    &&& !reports[i].dischargeable()
    &&& forall|j: int| 0 <= j < i ==> (#[trigger] reports[j]).dischargeable()
}

/// Why the composition of the reported receipts is refused, if it is.
pub open spec fn composition_fault(reports: Seq<ReceiptReport>) -> Option<CompositionError> {
    if reports.len() == 0 {
        Some(CompositionError::EmptyInput)
    } else if exists|i: int| first_rejected_at(reports, i) {
        Some(
            CompositionError::AssumptionRejected {
                index: (choose|i: int| first_rejected_at(reports, i)) as usize,
            },
        )
    } else {
        None
    }
}

/// The request names the target and, for each report in order, the
/// fingerprint and public output of the receipt and the receipt itself.
pub open spec fn request_matches(
    request: CompositionRequest,
    target: Fingerprint,
    reports: Seq<ReceiptReport>,
) -> bool {
    &&& request.target == target
    &&& request.inputs@.len() == reports.len()
    &&& request.assumptions@.len() == reports.len()
    &&& forall|i: int|
        0 <= i < reports.len() ==> {
            &&& Some((#[trigger] request.inputs@[i]).image_id) == reports[i].fingerprint
            &&& Some(request.inputs@[i].public_data) == reports[i].output
        }
    &&& forall|i: int|
        0 <= i < reports.len() ==> (#[trigger] request.assumptions@[i])@ == reports[i].receipt@
}

/// The result is the one that the reports call for.
pub open spec fn plan_matches(
    result: Result<CompositionRequest, CompositionError>,
    target: Fingerprint,
    reports: Seq<ReceiptReport>,
) -> bool {
    match composition_fault(reports) {
        Some(e) => result == Err::<CompositionRequest, CompositionError>(e),
        None => result matches Ok(request) && request_matches(request, target, reports),
    }
}

/// Each report describes the submission at its place.
pub open spec fn reports_describe(reports: Seq<ReceiptReport>, submissions: Seq<Submission>) -> bool {
    &&& reports.len() == submissions.len()
    &&& forall|i: int|
        0 <= i < reports.len() ==> (#[trigger] reports[i]).describes(
            submissions[i].proof,
            submissions[i].findings,
        )
}

/// The composition is refused for a receipt at or before place `j`.
pub open spec fn rejected_by(reports: Seq<ReceiptReport>, j: int) -> bool {
    match composition_fault(reports) {
        Some(CompositionError::AssumptionRejected { index }) => index <= j,
        _ => false,
    }
}

/// At most one receipt is the first rejected one.
pub proof fn lemma_first_rejection_unique(reports: Seq<ReceiptReport>, i: int, k: int)
    requires
        first_rejected_at(reports, i),
        first_rejected_at(reports, k),
    ensures
        i == k,
{
    if i < k {
        assert(reports[i].dischargeable());
    } else if k < i {
        assert(reports[k].dischargeable());
    }
}

/// Below any rejected receipt there is a first rejected one.
proof fn lemma_some_rejection_has_first(reports: Seq<ReceiptReport>, j: int)
    requires
        0 <= j < reports.len(),
        !reports[j].dischargeable(),
    ensures
        exists|i: int| 0 <= i <= j && first_rejected_at(reports, i),
    decreases j,
{
    if forall|k: int| 0 <= k < j ==> (#[trigger] reports[k]).dischargeable() {
        assert(first_rejected_at(reports, j));
    } else {
        let k = choose|k: int| 0 <= k < j && !(#[trigger] reports[k]).dischargeable();
        lemma_some_rejection_has_first(reports, k);
    }
}

/// Composition is a conjunction: it goes ahead exactly when there is at
/// least one receipt and every receipt can stand as an assumption. For two
/// receipts it goes ahead exactly when both can. A single receipt that cannot
/// stand has the composition refused with `AssumptionRejected`.
pub proof fn law_composition_is_a_conjunction(reports: Seq<ReceiptReport>)
    ensures
        composition_fault(reports) is None <==> reports.len() > 0 && forall|i: int|
            0 <= i < reports.len() ==> (#[trigger] reports[i]).dischargeable(),
        reports.len() == 2 ==> (composition_fault(reports) is None <==> reports[0].dischargeable()
            && reports[1].dischargeable()),
        forall|j: int|
            0 <= j < reports.len() && !(#[trigger] reports[j]).dischargeable() ==> rejected_by(
                reports,
                j,
            ),
{
    assert forall|j: int|
        0 <= j < reports.len() && !(#[trigger] reports[j]).dischargeable() implies rejected_by(
        reports,
        j,
    ) by {
        lemma_some_rejection_has_first(reports, j);
        let i = choose|i: int| 0 <= i <= j && first_rejected_at(reports, i);
        let k = choose|i: int| first_rejected_at(reports, i);
        lemma_first_rejection_unique(reports, i, k);
    }
    if exists|i: int| first_rejected_at(reports, i) {
        let k = choose|i: int| first_rejected_at(reports, i);
        assert(!reports[k].dischargeable());
    }
}

/// Plans a composition from the reports on its receipts: refused without
/// receipts, refused at the first receipt that cannot stand as an
/// assumption, and otherwise a request that lists every receipt in order.
pub fn plan_composition(target: Fingerprint, reports: &[ReceiptReport]) -> (r: Result<
    CompositionRequest,
    CompositionError,
>)
    ensures
        plan_matches(r, target, reports@),
{
    if reports.len() == 0 {
        return Err(CompositionError::EmptyInput);
    }
    let mut inputs: Vec<CompositeProofInput> = Vec::new();
    let mut assumptions: Vec<Vec<u8>> = Vec::new();
    let mut i: usize = 0;
    while i < reports.len()
        invariant
            i <= reports@.len(),
            inputs@.len() == i,
            assumptions@.len() == i,
            forall|j: int| 0 <= j < i ==> (#[trigger] reports@[j]).dischargeable(),
            forall|j: int|
                0 <= j < i ==> {
                    &&& Some((#[trigger] inputs@[j]).image_id) == reports@[j].fingerprint
                    &&& Some(inputs@[j].public_data) == reports@[j].output
                },
            forall|j: int| 0 <= j < i ==> (#[trigger] assumptions@[j])@ == reports@[j].receipt@,
        decreases reports@.len() - i,
    {
        let report = &reports[i];
        let entry = match (&report.fingerprint, report.valid, &report.output) {
            (Some(f), true, Some(pair)) => Some(
                CompositeProofInput {
                    image_id: *f,
                    public_data: PublicOutput {
                        result: pair.result.clone(),
                        metadata: pair.metadata.clone(),
                    },
                },
            ),
            _ => None,
        };
        match entry {
            Some(input) => {
                inputs.push(input);
                assumptions.push(copy_bytes(report.receipt.as_slice()));
            },
            None => {
                proof {
                    assert(first_rejected_at(reports@, i as int));
                    let k = choose|k: int| first_rejected_at(reports@, k);
                    lemma_first_rejection_unique(reports@, i as int, k);
                }
                return Err(CompositionError::AssumptionRejected { index: i });
            },
        }
        i = i + 1;
    }
    proof {
        if exists|k: int| first_rejected_at(reports@, k) {
            let k = choose|k: int| first_rejected_at(reports@, k);
            assert(reports@[k].dischargeable());
        }
    }
    Ok(CompositionRequest { target, inputs, assumptions })
}

/// Composes the proofs of a chain for the composition binary `target`:
/// each proof is inspected with what the engine found out about it, and the
/// composition is planned from the reports.
pub fn compose(submissions: &[Submission], target: Fingerprint) -> (r: Result<
    CompositionRequest,
    CompositionError,
>)
    ensures
        exists|reports: Seq<ReceiptReport>|
            reports_describe(reports, submissions@) && #[trigger] plan_matches(
                r,
                target,
                reports,
            ),
        submissions@.len() == 0 <==> r == Err::<CompositionRequest, CompositionError>(
            CompositionError::EmptyInput,
        ),
{
    let mut reports: Vec<ReceiptReport> = Vec::new();
    let mut i: usize = 0;
    while i < submissions.len()
        invariant
            i <= submissions@.len(),
            reports@.len() == i,
            forall|j: int|
                0 <= j < i ==> (#[trigger] reports@[j]).describes(
                    submissions@[j].proof,
                    submissions@[j].findings,
                ),
        decreases submissions@.len() - i,
    {
        reports.push(inspect(&submissions[i].proof, &submissions[i].findings));
        i = i + 1;
    }
    let r = plan_composition(target, reports.as_slice());
    assert(reports_describe(reports@, submissions@) && plan_matches(r, target, reports@));
    r
}

/// Concludes a composition with what the engine answered: the composite
/// receipt under the fingerprint of the composition binary, or the failure.
pub fn composition_outcome(target: &Fingerprint, composite: Option<Vec<u8>>) -> (r: Result<
    Proof,
    CompositionError,
>)
    ensures
        composite is None ==> r == Err::<Proof, CompositionError>(CompositionError::EngineFailure),
        composite matches Some(bytes) ==> r matches Ok(proof) && proof.image_id@ == target@
            && proof.receipt == bytes,
{
    match composite {
        Some(bytes) => Ok(Proof { image_id: target.to_words(), receipt: bytes }),
        None => Err(CompositionError::EngineFailure),
    }
}

} // verus!
