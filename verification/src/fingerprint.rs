//! Operation fingerprints: fixed-width identifiers of guest programs.

use vstd::prelude::*;

verus! {

/// Number of 32-bit words in a fingerprint.
pub const FINGERPRINT_WORDS: usize = 8;

/// Identifier of a guest operation. Two fingerprints name the same operation
/// exactly when all eight words agree.
#[derive(Clone, Copy, Debug, PartialEq, Eq, Hash)]
pub struct Fingerprint {
    pub words: [u32; 8],
}

impl View for Fingerprint {
    type V = Seq<u32>;

    open spec fn view(&self) -> Seq<u32> {
        self.words@
    }
}

/// Fingerprints are equal as values exactly when their word sequences are.
pub proof fn lemma_fingerprint_view_injective(a: Fingerprint, b: Fingerprint)
    ensures
        a@.len() == 8,
        (a@ == b@) <==> (a == b),
{
    if a@ == b@ {
        assert forall|i: int| 0 <= i < 8 implies a.words[i] == b.words[i] by {
            assert(a.words[i] == a@[i]);
            assert(b.words[i] == b@[i]);
        }
        assert(a.words =~= b.words);
    }
}

impl Fingerprint {
    /// Wraps eight words as a fingerprint.
    pub fn new(words: [u32; 8]) -> (r: Fingerprint)
        ensures
            r.words == words,
            r@ == words@,
    {
        Fingerprint { words }
    }

    /// Reads a fingerprint from its wire form, a list of words. A list of any
    /// length other than eight is no fingerprint.
    pub fn from_words(words: &Vec<u32>) -> (r: Option<Fingerprint>)
        ensures
            r is Some <==> words@.len() == 8,
            r matches Some(f) ==> f@ == words@,
    {
        if words.len() != FINGERPRINT_WORDS {
            return None;
        }
        let mut out: [u32; 8] = [0u32; 8];
        let mut i: usize = 0;
        while i < FINGERPRINT_WORDS
            invariant
                i <= 8,
                words@.len() == 8,
                forall|j: int| 0 <= j < i ==> out@[j] == words@[j],
            decreases 8 - i,
        {
            out[i] = words[i];
            i = i + 1;
        }
        let f = Fingerprint { words: out };
        assert(f@ =~= words@);
        Some(f)
    }

    /// The wire form of the fingerprint.
    pub fn to_words(&self) -> (r: Vec<u32>)
        ensures
            r@ == self@,
    {
        let mut out: Vec<u32> = Vec::new();
        let mut i: usize = 0;
        while i < FINGERPRINT_WORDS
            invariant
                i <= 8,
                out@.len() == i,
                forall|j: int| 0 <= j < i ==> out@[j] == self@[j],
            decreases 8 - i,
        {
            out.push(self.words[i]);
            i = i + 1;
        }
        assert(out@ =~= self@);
        out
    }

    /// Exact comparison, word by word.
    pub fn same(&self, other: &Fingerprint) -> (r: bool)
        ensures
            r == (self@ == other@),
            r == (*self == *other),
    {
        let mut i: usize = 0;
        while i < FINGERPRINT_WORDS
            invariant
                i <= 8,
                forall|j: int| 0 <= j < i ==> self@[j] == other@[j],
            decreases 8 - i,
        {
            if self.words[i] != other.words[i] {
                proof {
                    lemma_fingerprint_view_injective(*self, *other);
                }
                return false;
            }
            i = i + 1;
        }
        proof {
            assert(self@ =~= other@);
            lemma_fingerprint_view_injective(*self, *other);
        }
        true
    }
}

} // verus!
