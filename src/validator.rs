//! The streaming validator: running scanner state plus a count of the bytes
//! consumed so far, which locates faults within the whole stream.

use vstd::prelude::*;

use crate::dfa::{
    State, step, run, fault_at, next_state, lemma_run_concat,
    lemma_fault_at_concat, lemma_ascii_fast_path, lemma_run_one, lemma_invalid_absorbs,
};

verus! {

/// Why a stream is not valid UTF-8.
#[derive(Clone, Copy, Debug, PartialEq, Eq)]
pub enum ValidationError {
    /// The byte at this zero-based offset in the whole stream cannot continue
    /// the encoding.
    InvalidByte(usize),
    /// The stream ended inside a multi-byte sequence.
    Truncated,
    /// A byte of the stream had already been rejected.
    AlreadyInvalid,
}

/// Streaming validator for UTF-8 text.
pub struct Utf8Validator {
    processed_count: usize,
    state: State,
}

impl Utf8Validator {
    /// The scanner state reached so far.
    pub closed spec fn dfa_state(&self) -> State {
        self.state
    }

    /// How many bytes have been consumed since construction.
    pub closed spec fn consumed(&self) -> nat {
        self.processed_count as nat
    }

    pub fn new() -> (r: Self)
        ensures
            r.dfa_state() == State::Valid,
            r.consumed() == 0,
    {
        Utf8Validator { processed_count: 0, state: State::Valid }
    }

    /// The number of bytes consumed so far.
    pub fn processed_count(&self) -> (r: usize)
        ensures
            r == self.consumed(),
    {
        self.processed_count
    }

    /// Checks that `bytes`, the next chunk of the stream, continues a valid
    /// UTF-8 encoding. On the first rejected byte, reports its offset within
    /// the whole stream and stops.
    pub fn validate(&mut self, bytes: &[u8]) -> (r: Result<(), ValidationError>)
        requires
            old(self).consumed() + bytes@.len() <= usize::MAX,
        ensures
            final(self).dfa_state() == run(old(self).dfa_state(), bytes@),
            fault_at(old(self).dfa_state(), bytes@) < bytes@.len() ==> {
                &&& final(self).dfa_state() is Invalid
                &&& r == Err::<(), ValidationError>(
                    ValidationError::InvalidByte(
                        (old(self).consumed() + fault_at(old(self).dfa_state(), bytes@)) as usize,
                    ),
                )
                &&& final(self).consumed() == old(self).consumed() + fault_at(
                    old(self).dfa_state(),
                    bytes@,
                ) + 1
            },
            fault_at(old(self).dfa_state(), bytes@) >= bytes@.len() ==> {
                &&& r == Ok::<(), ValidationError>(())
                &&& final(self).consumed() == old(self).consumed() + bytes@.len()
            },
    {
        // Fast path: a chunk of ASCII leaves a boundary state unchanged.
        if let State::Valid = self.state {
            if Self::is_ascii(bytes) {
                proof {
                    lemma_ascii_fast_path(bytes@);
                }
                self.processed_count = self.processed_count + bytes.len();
                return Ok(());
            }
        }
        let ghost s0 = self.state;
        let ghost c0 = self.processed_count as nat;
        let mut i: usize = 0;
        while i < bytes.len()
            invariant
                0 <= i <= bytes@.len(),
                self.state == run(s0, bytes@.take(i as int)),
                fault_at(s0, bytes@.take(i as int)) == i,
                self.processed_count == c0 + i,
                c0 + bytes@.len() <= usize::MAX,
                s0 == old(self).state,
                c0 == old(self).processed_count,
            decreases bytes@.len() - i,
        {
            let ghost head = bytes@.take(i as int);
            let ghost one = seq![bytes@[i as int]];
            proof {
                assert(bytes@.take(i + 1) =~= head + one);
                lemma_run_one(self.state, bytes@[i as int]);
                lemma_run_concat(s0, head, one);
                lemma_fault_at_concat(s0, head, one);
            }
            let res = self.process_byte(&bytes[i]);
            self.processed_count = self.processed_count + 1;
            if let Err(e) = res {
                proof {
                    let upto = bytes@.take(i + 1);
                    let tail = bytes@.skip(i + 1);
                    assert(self.state is Invalid);
                    assert(run(s0, upto) is Invalid);
                    assert(fault_at(s0, upto) == i);
                    assert(bytes@ =~= upto + tail);
                    lemma_fault_at_concat(s0, upto, tail);
                    lemma_run_concat(s0, upto, tail);
                    lemma_invalid_absorbs(tail);
                }
                return Err(e);
            }
            i = i + 1;
        }
        proof {
            assert(bytes@.take(i as int) =~= bytes@);
        }
        Ok(())
    }

    /// Checks that the stream ends at a sequence boundary. Call it when no
    /// more bytes are coming; it changes nothing.
    pub fn validate_end(&self) -> (r: Result<(), ValidationError>)
        ensures
            self.dfa_state() is Valid ==> r == Ok::<(), ValidationError>(()),
            self.dfa_state() is Invalid ==> r == Err::<(), ValidationError>(
                ValidationError::AlreadyInvalid,
            ),
            !(self.dfa_state() is Valid) && !(self.dfa_state() is Invalid) ==> r == Err::<
                (),
                ValidationError,
            >(ValidationError::Truncated),
    {
        match self.state {
            State::Valid => Ok(()),
            State::Invalid => Err(ValidationError::AlreadyInvalid),
            _ => Err(ValidationError::Truncated),
        }
    }

    /// Whether every byte has its high bit clear.
    fn is_ascii(bytes: &[u8]) -> (r: bool)
        ensures
            r == forall|k: int| 0 <= k < bytes@.len() ==> bytes@[k] <= 0x7f,
    {
        let mut i: usize = 0;
        while i < bytes.len()
            invariant
                0 <= i <= bytes@.len(),
                forall|k: int| 0 <= k < i ==> bytes@[k] <= 0x7f,
            decreases bytes@.len() - i,
        {
            if bytes[i] > 0x7f {
                return false;
            }
            i = i + 1;
        }
        true
    }

    /// Feeds one byte to the scanner; reports it, at the current count, if it
    /// is rejected. The count itself is left to the caller.
    fn process_byte(&mut self, b: &u8) -> (r: Result<(), ValidationError>)
        ensures
            final(self).state == step(old(self).state, *b),
            final(self).processed_count == old(self).processed_count,
            step(old(self).state, *b) is Invalid ==> r == Err::<(), ValidationError>(
                ValidationError::InvalidByte(old(self).processed_count),
            ),
            !(step(old(self).state, *b) is Invalid) ==> r == Ok::<(), ValidationError>(()),
    {
        self.state = next_state(self.state, *b);
        match self.state {
            State::Invalid => Err(ValidationError::InvalidByte(self.processed_count)),
            _ => Ok(()),
        }
    }
}

} // verus!
