//! The proving orchestrator: knows the guest binaries by fingerprint and
//! turns an assembled input into a request to the proving engine, and the
//! engine's answer into a proof.

use vstd::prelude::*;
use crate::assembler::{assemble_poam, assumptions_of, ConformanceInput, PoamInput, ProverInput};
use crate::fingerprint::Fingerprint;
use crate::wire::Proof;

verus! {

/// A guest binary under its fingerprint.
pub struct RegisteredBinary {
    pub image_id: Fingerprint,
    pub elf: Vec<u8>,
}

/// No fingerprint stands twice in the list.
pub open spec fn distinct(entries: Seq<RegisteredBinary>) -> bool {
    forall|i: int, j: int|
        0 <= i < j < entries.len() ==> (#[trigger] entries[i]).image_id != (
        #[trigger] entries[j]).image_id
}

/// The entry at `i` is the one for `image_id`.
pub open spec fn holds_at(entries: Seq<RegisteredBinary>, image_id: Fingerprint, i: int) -> bool {
    0 <= i < entries.len() && entries[i].image_id == image_id
}

/// The mapping that a list of entries stands for.
pub open spec fn mapping(entries: Seq<RegisteredBinary>) -> Map<Fingerprint, Seq<u8>> {
    Map::new(
        |id: Fingerprint| exists|i: int| holds_at(entries, id, i),
        |id: Fingerprint| entries[choose|i: int| holds_at(entries, id, i)].elf@,
    )
}

/// In a list without repetition, each entry is what the mapping gives for
/// its fingerprint.
proof fn lemma_mapping_at(entries: Seq<RegisteredBinary>, i: int)
    requires
        distinct(entries),
        0 <= i < entries.len(),
    ensures
        mapping(entries).dom().contains(entries[i].image_id),
        mapping(entries)[entries[i].image_id] == entries[i].elf@,
{
    let id = entries[i].image_id;
    assert(holds_at(entries, id, i));
    let k = choose|k: int| holds_at(entries, id, k);
    if k < i {
        assert(entries[k].image_id != entries[i].image_id);
    } else if i < k {
        assert(entries[i].image_id != entries[k].image_id);
    }
}

/// The registry of guest binaries: an immutable mapping from fingerprint to
/// binary, built once and then only read.
pub struct BinaryRegistry {
    entries: Vec<RegisteredBinary>,
}

impl View for BinaryRegistry {
    type V = Map<Fingerprint, Seq<u8>>;

    closed spec fn view(&self) -> Map<Fingerprint, Seq<u8>> {
        mapping(self.entries@)
    }
}

impl BinaryRegistry {
    #[verifier::type_invariant]
    spec fn no_repetition(&self) -> bool {
        distinct(self.entries@)
    }

    /// A registry that knows no binary.
    pub fn new() -> (r: BinaryRegistry)
        ensures
            r@ == Map::<Fingerprint, Seq<u8>>::empty(),
    {
        let r = BinaryRegistry { entries: Vec::new() };
        assert(r@ =~= Map::<Fingerprint, Seq<u8>>::empty());
        r
    }

    /// The place of a fingerprint in the list, if it has one.
    fn position(&self, image_id: &Fingerprint) -> (r: Option<usize>)
        ensures
            r is Some <==> self@.dom().contains(*image_id),
            r matches Some(i) ==> holds_at(self.entries@, *image_id, i as int),
    {
        let mut i: usize = 0;
        while i < self.entries.len()
            invariant
                i <= self.entries@.len(),
                forall|j: int| 0 <= j < i ==> (#[trigger] self.entries@[j]).image_id != *image_id,
            decreases self.entries@.len() - i,
        {
            if self.entries[i].image_id.same(image_id) {
                assert(holds_at(self.entries@, *image_id, i as int));
                return Some(i);
            }
            i = i + 1;
        }
        assert(!self@.dom().contains(*image_id)) by {
            if exists|k: int| holds_at(self.entries@, *image_id, k) {
                let k = choose|k: int| holds_at(self.entries@, *image_id, k);
                assert(self.entries@[k].image_id != *image_id);
            }
        }
        None
    }

    /// The registry with one more binary, under a fingerprint that it does
    /// not know yet. A fingerprint that is known keeps its binary.
    pub fn with_binary(self, image_id: Fingerprint, elf: Vec<u8>) -> (r: BinaryRegistry)
        ensures
            r@ == (if self@.dom().contains(image_id) {
                self@
            } else {
                self@.insert(image_id, elf@)
            }),
    {
        proof {
            use_type_invariant(&self);
        }
        if self.position(&image_id).is_some() {
            return self;
        }
        let ghost before = self.entries@;
        let mut entries = self.entries;
        entries.push(RegisteredBinary { image_id, elf });
        proof {
            let after = entries@;
            assert(distinct(after)) by {
                assert forall|i: int, j: int| 0 <= i < j < after.len() implies (
                #[trigger] after[i]).image_id != (#[trigger] after[j]).image_id by {
                    if j == before.len() {
                        assert(after[i] == before[i]);
                        assert(!holds_at(before, image_id, i));
                    } else {
                        assert(after[i] == before[i]);
                        assert(after[j] == before[j]);
                    }
                }
            }
            assert forall|id: Fingerprint| #[trigger]
                mapping(after).dom().contains(id) <==> mapping(before).insert(
                    image_id,
                    elf@,
                ).dom().contains(id) by {
                if mapping(after).dom().contains(id) {
                    let k = choose|k: int| holds_at(after, id, k);
                    if k < before.len() {
                        assert(holds_at(before, id, k));
                    }
                }
                if mapping(before).dom().contains(id) {
                    let k = choose|k: int| holds_at(before, id, k);
                    assert(after[k] == before[k]);
                    assert(holds_at(after, id, k));
                }
                if id == image_id {
                    assert(holds_at(after, id, before.len() as int));
                }
            }
            assert forall|id: Fingerprint| #[trigger]
                mapping(after).dom().contains(id) implies mapping(after)[id] == mapping(
                before,
            ).insert(image_id, elf@)[id] by {
                let k = choose|k: int| holds_at(after, id, k);
                lemma_mapping_at(after, k);
                if k < before.len() {
                    assert(after[k] == before[k]);
                    lemma_mapping_at(before, k);
                }
            }
            assert(mapping(after) =~= mapping(before).insert(image_id, elf@));
        }
        BinaryRegistry { entries }
    }

    /// Whether the registry knows the fingerprint.
    pub fn knows(&self, image_id: &Fingerprint) -> (r: bool)
        ensures
            r == self@.dom().contains(*image_id),
    {
        self.position(image_id).is_some()
    }

    /// The binary registered under a fingerprint.
    pub fn lookup(&self, image_id: &Fingerprint) -> (r: Option<&Vec<u8>>)
        ensures
            r is Some <==> self@.dom().contains(*image_id),
            r matches Some(elf) ==> elf@ == self@[*image_id],
    {
        proof {
            use_type_invariant(self);
        }
        match self.position(image_id) {
            Some(i) => {
                proof {
                    lemma_mapping_at(self.entries@, i as int);
                }
                Some(&self.entries[i].elf)
            },
            None => None,
        }
    }
}

/// Why no receipt was obtained.
#[derive(Clone, Debug, PartialEq, Eq)]
pub enum ProvingError {
    /// No binary is registered under the fingerprint.
    UnknownFingerprint,
    /// The engine failed; the detail is the engine's own.
    EngineFailure(String),
}

/// A request to the engine: run the binary registered under `image_id` on
/// the input.
#[derive(Clone, Debug, PartialEq, Eq)]
pub struct ProvingRequest {
    pub image_id: Fingerprint,
    pub input: ProverInput,
}

/// What the engine answered to a request.
#[derive(Clone, Debug, PartialEq, Eq)]
pub enum EngineAnswer {
    /// The serialized receipt, and the journal that the receipt holds.
    Receipt { receipt: Vec<u8>, journal: Vec<u8> },
    /// The engine's account of its failure.
    Failure(String),
}

/// Prepares a run of the binary with the given fingerprint. A fingerprint
/// that the registry does not know is refused before the engine is involved.
pub fn prove(registry: &BinaryRegistry, binary_fingerprint: Fingerprint, input: ProverInput) -> (r:
    Result<ProvingRequest, ProvingError>)
    ensures
        !registry@.dom().contains(binary_fingerprint) ==> r == Err::<ProvingRequest, ProvingError>(
            ProvingError::UnknownFingerprint,
        ),
        registry@.dom().contains(binary_fingerprint) ==> r == Ok::<ProvingRequest, ProvingError>(
            ProvingRequest { image_id: binary_fingerprint, input },
        ),
{
    if !registry.knows(&binary_fingerprint) {
        return Err(ProvingError::UnknownFingerprint);
    }
    Ok(ProvingRequest { image_id: binary_fingerprint, input })
}

/// Prepares the proof of one step from its payload, its proving-time bundle
/// and the receipt of the step before it: the receipt becomes an
/// assumption, payload and bundle become the guest's input in that order,
/// and the binary is the one that the bundle names.
pub fn prove_method(
    registry: &BinaryRegistry,
    method_payload: String,
    pi: PoamInput,
    previous_receipt: Option<Vec<u8>>,
) -> (r: Result<ProvingRequest, ProvingError>)
    ensures
        !registry@.dom().contains(pi.image_id) ==> r == Err::<ProvingRequest, ProvingError>(
            ProvingError::UnknownFingerprint,
        ),
        registry@.dom().contains(pi.image_id) ==> {
            &&& r matches Ok(request)
            &&& request.image_id == pi.image_id
            &&& request.input.payload == method_payload
            &&& request.input.conformance == ConformanceInput::Poam(pi)
            &&& request.input.assumptions@ == assumptions_of(previous_receipt)
        },
{
    let image_id = pi.image_id;
    let input = assemble_poam(method_payload, pi, previous_receipt);
    prove(registry, image_id, input)
}

/// Turns the engine's answer to a request into a proof: the receipt under
/// the fingerprint of the binary that was run, or the engine's failure.
pub fn proving_outcome(image_id: &Fingerprint, answer: EngineAnswer) -> (r: Result<
    Proof,
    ProvingError,
>)
    ensures
        answer matches EngineAnswer::Failure(detail) ==> r == Err::<Proof, ProvingError>(
            ProvingError::EngineFailure(detail),
        ),
        answer matches EngineAnswer::Receipt { receipt, .. } ==> r matches Ok(proof)
            && proof.image_id@ == image_id@ && proof.receipt == receipt,
{
    match answer {
        EngineAnswer::Receipt { receipt, .. } => Ok(
            Proof { image_id: image_id.to_words(), receipt },
        ),
        EngineAnswer::Failure(detail) => Err(ProvingError::EngineFailure(detail)),
    }
}

} // verus!
