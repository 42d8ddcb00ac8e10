//! Well-formed UTF-8 as the Unicode Standard defines it (the table of
//! well-formed byte sequences, chapter 3), and the proof that the scanner
//! accepts exactly those byte sequences.

use vstd::prelude::*;

use crate::dfa::{State, step, run, in_range, lemma_run_concat, lemma_run_one, lemma_invalid_absorbs};

verus! {

/// The length of the well-formed sequence that opens `b`, or 0 when none
/// does (`b` is empty, or its first bytes fit no row of the table).
pub open spec fn leading_sequence_len(b: Seq<u8>) -> nat {
    if b.len() >= 1 && b[0] <= 0x7f {
        1
    } else if b.len() >= 2 && in_range(b[0], 0xc2, 0xdf) && in_range(b[1], 0x80, 0xbf) {
        2
    } else if b.len() >= 3 && (
        (b[0] == 0xe0 && in_range(b[1], 0xa0, 0xbf))
        || (in_range(b[0], 0xe1, 0xec) && in_range(b[1], 0x80, 0xbf))
        || (b[0] == 0xed && in_range(b[1], 0x80, 0x9f))
        || (in_range(b[0], 0xee, 0xef) && in_range(b[1], 0x80, 0xbf))
    ) && in_range(b[2], 0x80, 0xbf) {
        3
    } else if b.len() >= 4 && (
        (b[0] == 0xf0 && in_range(b[1], 0x90, 0xbf))
        || (in_range(b[0], 0xf1, 0xf3) && in_range(b[1], 0x80, 0xbf))
        || (b[0] == 0xf4 && in_range(b[1], 0x80, 0x8f))
    ) && in_range(b[2], 0x80, 0xbf) && in_range(b[3], 0x80, 0xbf) {
        4
    } else {
        0
    }
}

/// `b` is a concatenation of well-formed UTF-8 sequences.
pub open spec fn well_formed(b: Seq<u8>) -> bool
    decreases b.len(),
{
    if b.len() == 0 {
        true
    } else {
        let n = leading_sequence_len(b);
        n > 0 && well_formed(b.skip(n as int))
    }
}

/// Scanning a prefix one byte longer is one more step.
proof fn lemma_run_snoc(s: State, b: Seq<u8>, k: int)
    requires
        0 <= k < b.len(),
    ensures
        run(s, b.take(k + 1)) == step(run(s, b.take(k)), b[k]),
{
    assert(b.take(k + 1) =~= b.take(k) + seq![b[k]]);
    lemma_run_concat(s, b.take(k), seq![b[k]]);
    lemma_run_one(run(s, b.take(k)), b[k]);
}

/// Scanning from a boundary, the stream is accepted exactly when it is
/// well-formed UTF-8: validating it whole and then checking its end succeeds
/// if and only if `well_formed(b)`.
pub proof fn lemma_accepts_iff_well_formed(b: Seq<u8>)
    ensures
        (run(State::Valid, b) == State::Valid) == well_formed(b),
    decreases b.len(),
{
    if b.len() > 0 {
        let m: int = if b.len() < 4 { b.len() as int } else { 4 };
        assert(b.take(0) =~= Seq::<u8>::empty());
        lemma_run_snoc(State::Valid, b, 0);
        if m >= 2 {
            lemma_run_snoc(State::Valid, b, 1);
        }
        if m >= 3 {
            lemma_run_snoc(State::Valid, b, 2);
        }
        if m >= 4 {
            lemma_run_snoc(State::Valid, b, 3);
        }
        assert(run(State::Valid, b.take(1)) == step(State::Valid, b[0]));
        let n = leading_sequence_len(b);
        if n > 0 {
            assert(run(State::Valid, b.take(n as int)) == State::Valid);
            assert(b =~= b.take(n as int) + b.skip(n as int));
            lemma_run_concat(State::Valid, b.take(n as int), b.skip(n as int));
            lemma_accepts_iff_well_formed(b.skip(n as int));
        } else {
            let r = run(State::Valid, b.take(m));
            assert(r != State::Valid && (r is Invalid || m == b.len()));
            assert(b =~= b.take(m) + b.skip(m));
            lemma_run_concat(State::Valid, b.take(m), b.skip(m));
            if r is Invalid {
                lemma_invalid_absorbs(b.skip(m));
            } else {
                assert(b.skip(m).len() == 0);
            }
        }
    }
}

} // verus!
