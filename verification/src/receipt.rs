//! Receipts of the proving engine. A receipt is an opaque byte string to
//! the library: the engine reads it, checks it against a fingerprint and
//! hands out its journal, and the library decides on what the engine found.
//! The journal is decoded here into the public output of a step.

use vstd::prelude::*;
use vstd::bytes::{spec_u32_from_le_bytes, u32_from_le_bytes};
use vstd::slice::slice_subrange;
use crate::fingerprint::Fingerprint;
use crate::wire::{copy_bytes, Proof, PublicOutput};

verus! {

#[verifier::external_type_specification]
#[verifier::external_body]
pub struct ExJournalFault(risc0_zkvm::serde::Error);

/// The pair of strings that `risc0_zkvm::serde::from_slice` reads from the
/// words of a journal, where it reads one: a result and the metadata that
/// goes with it.
pub uninterp spec fn journal_pair(words: Seq<u32>) -> Option<(Seq<char>, Seq<char>)>;

/// `risc0_zkvm::serde::from_slice`, reading the words of a journal as a pair
/// of strings. What it reads depends on the words alone. The function
/// allocates each string at the length that the journal declares before it
/// reads the string, so it is handed only words that frame a pair.
#[verifier::external_body]
fn journal_output(words: &[u32]) -> (r: Result<(String, String), risc0_zkvm::serde::Error>)
    requires
        frames_pair(words@),
    ensures
        r matches Ok(pair) ==> journal_pair(words@) == Some((pair.0@, pair.1@)),
        r is Err ==> journal_pair(words@) is None,
{
    risc0_zkvm::serde::from_slice::<(String, String), u32>(words)
}

/// The 32-bit words of a byte string, least significant byte first.
pub open spec fn words_of(bytes: Seq<u8>) -> Seq<u32> {
    Seq::new(bytes.len() / 4, |i: int| spec_u32_from_le_bytes(bytes.subrange(4 * i, 4 * i + 4)))
}

/// The number of words that hold `len` bytes.
pub open spec fn words_for(len: int) -> int {
    (len + 3) / 4
}

/// The words frame a pair of strings: a length and that many bytes, padded
/// to whole words, twice over. Words that follow the pair are allowed.
pub open spec fn frames_pair(words: Seq<u32>) -> bool {
    &&& words.len() >= 2
    &&& 1 + words_for(words[0] as int) < words.len()
    &&& 2 + words_for(words[0] as int) + words_for(words[1 + words_for(words[0] as int)] as int)
        <= words.len()
}

/// Reads a journal as words. A journal that does not divide into words has none.
pub fn journal_words(journal: &[u8]) -> (r: Option<Vec<u32>>)
    ensures
        r is Some <==> journal@.len() % 4 == 0,
        r matches Some(words) ==> words@ == words_of(journal@),
{
    if journal.len() % 4 != 0 {
        return None;
    }
    let total: usize = journal.len();
    let count: usize = total / 4;
    let mut words: Vec<u32> = Vec::new();
    let mut i: usize = 0;
    while i < count
        invariant
            i <= count,
            4 * count == total,
            total == journal@.len(),
            words@.len() == i,
            forall|j: int| 0 <= j < i ==> words@[j] == words_of(journal@)[j],
        decreases count - i,
    {
        let word = u32_from_le_bytes(slice_subrange(journal, 4 * i, 4 * i + 4));
        words.push(word);
        i = i + 1;
    }
    assert(words@ =~= words_of(journal@));
    Some(words)
}

/// Checks that words frame a pair of strings.
pub fn is_framed_pair(words: &[u32]) -> (r: bool)
    ensures
        r == frames_pair(words@),
{
    if words.len() < 2 {
        return false;
    }
    let total: u64 = words.len() as u64;
    let first: u64 = (words[0] as u64 + 3) / 4;
    if 1 + first >= total {
        return false;
    }
    let at: usize = (1 + first) as usize;
    let second: u64 = (words[at] as u64 + 3) / 4;
    2 + first + second <= total
}

/// What the engine found out about a serialized receipt.
#[derive(Clone, Debug, PartialEq, Eq)]
pub struct EngineFindings {
    /// Whether the engine could read a receipt from the bytes.
    pub readable: bool,
    /// Whether the receipt holds for the fingerprint that its proof declares.
    pub verified: bool,
    /// The journal of the receipt.
    pub journal: Vec<u8>,
}

/// A proof together with what the engine found out about its receipt.
#[derive(Clone, Debug, PartialEq, Eq)]
pub struct Submission {
    pub proof: Proof,
    pub findings: EngineFindings,
}

/// What is known about a proof.
#[derive(Clone, Debug, PartialEq, Eq)]
pub struct ReceiptReport {
    /// The fingerprint that the proof declares, where it has eight words.
    pub fingerprint: Option<Fingerprint>,
    /// Whether a receipt could be read from the bytes.
    pub readable: bool,
    /// Whether the receipt holds for the declared fingerprint.
    pub valid: bool,
    /// The public output of the receipt, where it decodes.
    pub output: Option<PublicOutput>,
    /// The bytes of the receipt.
    pub receipt: Vec<u8>,
}

impl ReceiptReport {
    /// The report is the one that `inspect` makes of the proof and of the
    /// engine's findings. A receipt counts as valid only where the
    /// fingerprint is well shaped and the receipt readable, and only a
    /// readable receipt has a public output: the one its journal discloses.
    pub open spec fn describes(&self, proof: Proof, findings: EngineFindings) -> bool {
        &&& self.fingerprint is Some <==> proof.image_id@.len() == 8
        &&& self.fingerprint matches Some(f) ==> f@ == proof.image_id@
        &&& self.readable == findings.readable
        &&& self.valid == (proof.image_id@.len() == 8 && findings.readable && findings.verified)
        &&& self.output is Some <==> findings.readable && journal_discloses(findings.journal@)
            is Some
        &&& self.output matches Some(output) ==> journal_discloses(findings.journal@) == Some(
            (output.result@, output.metadata@),
        )
        &&& self.receipt@ == proof.receipt@
    }

    /// The receipt can stand as an assumption: it holds for the fingerprint
    /// it declares and its public output decodes.
    pub open spec fn dischargeable(&self) -> bool {
        self.fingerprint is Some && self.valid && self.output is Some
    }
}

/// What a journal discloses: nothing where it does not divide into words or
/// its words do not frame a pair of strings, and otherwise the pair that the
/// engine's decoder reads from the words, where it reads one.
pub open spec fn journal_discloses(journal: Seq<u8>) -> Option<(Seq<char>, Seq<char>)> {
    if journal.len() % 4 == 0 && frames_pair(words_of(journal)) {
        journal_pair(words_of(journal))
    } else {
        None
    }
}

/// Turns what the engine's decoder read from a journal into the public
/// output of a step: the first string is the result, the second the
/// metadata. A journal that the decoder refused has no public output.
pub fn disclosed_output(decoded: Result<(String, String), risc0_zkvm::serde::Error>) -> (r: Option<
    PublicOutput,
>)
    ensures
        decoded matches Ok(pair) ==> r == Some(PublicOutput { result: pair.0, metadata: pair.1 }),
        decoded is Err ==> r is None,
{
    match decoded {
        Ok(pair) => Some(PublicOutput { result: pair.0, metadata: pair.1 }),
        Err(_) => None,
    }
}

/// Decodes a journal as the public output of a step. A journal that does
/// not divide into words, or whose words do not frame a pair of strings, has
/// no public output; any other has the one that the engine's decoder reads
/// from its words, if it reads one.
pub fn decode_journal(journal: &[u8]) -> (r: Option<PublicOutput>)
    ensures
        r is Some <==> journal_discloses(journal@) is Some,
        r matches Some(output) ==> journal_discloses(journal@) == Some(
            (output.result@, output.metadata@),
        ),
{
    let words = match journal_words(journal) {
        Some(words) => words,
        None => {
            return None;
        },
    };
    if !is_framed_pair(words.as_slice()) {
        return None;
    }
    disclosed_output(journal_output(words.as_slice()))
}

/// Puts together what is known about a proof: the shape of its
/// fingerprint, what the engine found, and the public output that the
/// journal discloses.
pub fn inspect(proof: &Proof, findings: &EngineFindings) -> (r: ReceiptReport)
    ensures
        r.describes(*proof, *findings),
{
    let fingerprint = Fingerprint::from_words(&proof.image_id);
    let valid = fingerprint.is_some() && findings.readable && findings.verified;
    let output = if findings.readable {
        decode_journal(findings.journal.as_slice())
    } else {
        None
    };
    ReceiptReport {
        fingerprint,
        readable: findings.readable,
        valid,
        output,
        receipt: copy_bytes(proof.receipt.as_slice()),
    }
}

} // verus!
