//! The code-pair emitter: collects pairs and lays them out as the bytes of
//! an ASCII DXF file.
//!
//! Each pair becomes two lines: the code right-aligned to width three, then
//! the value, each ended by a carriage return and a line feed.
use vstd::prelude::*;

use crate::value::{emit_pairs, lemma_emit_pairs_push, write_pair_bytes, CodePair, PairV};

verus! {

/// Gathers the code pairs of a drawing on write and lays them out as
/// bytes.
pub struct CodePairAsciiWriter {
    /// The pairs written so far, oldest first.
    pub pairs: Vec<CodePair>,
}

impl View for CodePairAsciiWriter {
    type V = Seq<PairV>;

    open spec fn view(&self) -> Seq<PairV> {
        self.pairs@.map_values(|p: CodePair| p@)
    }
}

impl CodePairAsciiWriter {
    /// Every gathered pair can be laid out.
    pub open spec fn wf(self) -> bool {
        forall|i: int| 0 <= i < self.pairs@.len() ==> (#[trigger] self.pairs@[i]).wf()
    }

    /// A writer with nothing written yet.
    pub fn new() -> (r: CodePairAsciiWriter)
        ensures
            r@ == Seq::<PairV>::empty(),
            r.wf(),
    {
        let r = CodePairAsciiWriter { pairs: Vec::new() };
        proof {
            assert(r@ =~= Seq::<PairV>::empty());
        }
        r
    }

    /// Writes the specified code pair.
    pub fn write_code_pair(&mut self, pair: &CodePair)
        requires
            old(self).wf(),
            pair.wf(),
        ensures
            final(self).wf(),
            final(self)@ == old(self)@.push(pair@),
    {
        let owned: CodePair = pair.clone_pair();
        let ghost prev = self.pairs@;
        self.pairs.push(owned);
        proof {
            assert(self@ =~= prev.map_values(|p: CodePair| p@).push(pair@));
        }
    }

    /// The bytes of everything written, in the order it was written.
    pub fn get_bytes(&self) -> (r: Vec<u8>)
        requires
            self.wf(),
        ensures
            r@ == emit_pairs(self@),
    {
        let mut out: Vec<u8> = Vec::new();
        let mut i: usize = 0;
        proof {
            assert(self@.take(0) =~= Seq::<PairV>::empty());
        }
        while i < self.pairs.len()
            invariant
                0 <= i <= self.pairs@.len(),
                self.wf(),
                out@ == emit_pairs(self@.take(i as int)),
            decreases self.pairs@.len() - i,
        {
            write_pair_bytes(&mut out, &self.pairs[i]);
            proof {
                assert(self@.take(i + 1) =~= self@.take(i as int).push(self@[i as int]));
                lemma_emit_pairs_push(self@.take(i as int), self@[i as int]);
                assert(self@[i as int] == self.pairs@[i as int]@);
            }
            i = i + 1;
        }
        proof {
            assert(self@.take(i as int) =~= self@);
        }
        out
    }
}

} // verus!
