//! A stream fed as a sequence of chunks: the scanner's verdict and the
//! reported fault offset do not depend on where the chunks are cut.

use vstd::prelude::*;

use crate::dfa::{State, run, fault_at, lemma_run_concat, lemma_fault_at_concat, lemma_invalid_absorbs};

verus! {

/// The state reached by scanning each chunk in turn.
pub open spec fn run_chunks(s: State, chunks: Seq<Seq<u8>>) -> State
    decreases chunks.len(),
{
    if chunks.len() == 0 {
        s
    } else {
        run_chunks(run(s, chunks[0]), chunks.drop_first())
    }
}

/// The stream offset of the first rejected byte when the chunks are fed in
/// turn, each fault located as the consumed count plus its index in its
/// chunk; the total length when no byte is rejected.
pub open spec fn fault_in_chunks(s: State, chunks: Seq<Seq<u8>>) -> nat
    decreases chunks.len(),
{
    if chunks.len() == 0 {
        0
    } else if fault_at(s, chunks[0]) < chunks[0].len() {
        fault_at(s, chunks[0])
    } else {
        chunks[0].len() + fault_in_chunks(run(s, chunks[0]), chunks.drop_first())
    }
}

/// Feeding the chunks in turn reaches the state that feeding their
/// concatenation in one piece reaches, however the stream was cut.
pub proof fn lemma_chunking_invariant(s: State, chunks: Seq<Seq<u8>>)
    ensures
        run_chunks(s, chunks) == run(s, chunks.flatten()),
    decreases chunks.len(),
{
    if chunks.len() > 0 {
        lemma_run_concat(s, chunks[0], chunks.drop_first().flatten());
        lemma_chunking_invariant(run(s, chunks[0]), chunks.drop_first());
    }
}

/// The offset reported for a rejected byte is its index in the whole
/// stream, however the stream was cut into chunks.
pub proof fn lemma_fault_offset_invariant(s: State, chunks: Seq<Seq<u8>>)
    ensures
        fault_in_chunks(s, chunks) == fault_at(s, chunks.flatten()),
    decreases chunks.len(),
{
    if chunks.len() > 0 {
        lemma_fault_at_concat(s, chunks[0], chunks.drop_first().flatten());
        lemma_fault_offset_invariant(run(s, chunks[0]), chunks.drop_first());
    }
}

/// Once a byte has been rejected, no later chunk brings the scanner back.
pub proof fn lemma_no_recovery(chunks: Seq<Seq<u8>>)
    ensures
        run_chunks(State::Invalid, chunks) is Invalid,
    decreases chunks.len(),
{
    if chunks.len() > 0 {
        lemma_invalid_absorbs(chunks[0]);
        lemma_no_recovery(chunks.drop_first());
    }
}

/// Empty chunks change nothing: a fresh scanner fed only empty chunks is
/// still at a boundary, so the end check succeeds.
pub proof fn lemma_empty_chunks(s: State, chunks: Seq<Seq<u8>>)
    requires
        forall|k: int| 0 <= k < chunks.len() ==> (#[trigger] chunks[k]).len() == 0,
    ensures
        run_chunks(s, chunks) == s,
    decreases chunks.len(),
{
    if chunks.len() > 0 {
        let rest = chunks.drop_first();
        assert forall|k: int| 0 <= k < rest.len() implies (#[trigger] rest[k]).len() == 0 by {
            assert(rest[k] == chunks[k + 1]);
        }
        lemma_empty_chunks(s, rest);
    }
}

} // verus!
