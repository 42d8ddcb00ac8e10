//! The scanner's states and its transition function, as executable code and
//! as a mathematical model over byte sequences.

use vstd::prelude::*;

verus! {

/// Where the scanner stands within a multi-byte sequence.
///
/// Each awaiting state also fixes the range allowed for the next byte:
/// the `B` and `C` variants narrow the first continuation byte after the
/// lead bytes 0xE0, 0xED, 0xF0 and 0xF4.
#[derive(Clone, Copy, Debug, PartialEq, Eq)]
pub enum State {
    /// At a sequence boundary.
    Valid,
    /// A byte was rejected; this state is never left.
    Invalid,
    /// One continuation byte in 0x80..=0xBF is expected.
    AwaitingOneByte,
    /// Two continuation bytes expected, the first in 0x80..=0xBF.
    AwaitingTwoBytesA,
    /// Two continuation bytes expected, the first in 0xA0..=0xBF (after 0xE0).
    AwaitingTwoBytesB,
    /// Two continuation bytes expected, the first in 0x80..=0x9F (after 0xED).
    AwaitingTwoBytesC,
    /// Three continuation bytes expected, the first in 0x90..=0xBF (after 0xF0).
    AwaitingThreeBytesA,
    /// Three continuation bytes expected, the first in 0x80..=0xBF.
    AwaitingThreeBytesB,
    /// Three continuation bytes expected, the first in 0x80..=0x8F (after 0xF4).
    AwaitingThreeBytesC,
}

/// `lo <= b <= hi`.
pub open spec fn in_range(b: u8, lo: u8, hi: u8) -> bool {
    lo <= b && b <= hi
}

/// The transition function of the scanner.
pub open spec fn step(s: State, b: u8) -> State {
    match s {
        State::Valid => {
            if b <= 0x7f {
                State::Valid
            } else if in_range(b, 0xc2, 0xdf) {
                State::AwaitingOneByte
            } else if in_range(b, 0xe1, 0xec) || in_range(b, 0xee, 0xef) {
                State::AwaitingTwoBytesA
            } else if b == 0xe0 {
                State::AwaitingTwoBytesB
            } else if b == 0xed {
                State::AwaitingTwoBytesC
            } else if b == 0xf0 {
                State::AwaitingThreeBytesA
            } else if in_range(b, 0xf1, 0xf3) {
                State::AwaitingThreeBytesB
            } else if b == 0xf4 {
                State::AwaitingThreeBytesC
            } else {
                State::Invalid
            }
        },
        State::Invalid => State::Invalid,
        State::AwaitingOneByte => if in_range(b, 0x80, 0xbf) {
            State::Valid
        } else {
            State::Invalid
        },
        State::AwaitingTwoBytesA => if in_range(b, 0x80, 0xbf) {
            State::AwaitingOneByte
        } else {
            State::Invalid
        },
        State::AwaitingTwoBytesB => if in_range(b, 0xa0, 0xbf) {
            State::AwaitingOneByte
        } else {
            State::Invalid
        },
        State::AwaitingTwoBytesC => if in_range(b, 0x80, 0x9f) {
            State::AwaitingOneByte
        } else {
            State::Invalid
        },
        State::AwaitingThreeBytesA => if in_range(b, 0x90, 0xbf) {
            State::AwaitingTwoBytesA
        } else {
            State::Invalid
        },
        State::AwaitingThreeBytesB => if in_range(b, 0x80, 0xbf) {
            State::AwaitingTwoBytesA
        } else {
            State::Invalid
        },
        State::AwaitingThreeBytesC => if in_range(b, 0x80, 0x8f) {
            State::AwaitingTwoBytesA
        } else {
            State::Invalid
        },
    }
}

/// The state reached from `s` after scanning `bytes` in order.
pub open spec fn run(s: State, bytes: Seq<u8>) -> State
    decreases bytes.len(),
{
    if bytes.len() == 0 {
        s
    } else {
        run(step(s, bytes[0]), bytes.drop_first())
    }
}

/// Index of the first byte of `bytes` that drives the scanner from `s` into
/// `Invalid`; `bytes.len()` when no byte does.
pub open spec fn fault_at(s: State, bytes: Seq<u8>) -> nat
    decreases bytes.len(),
{
    if bytes.len() == 0 {
        0
    } else if step(s, bytes[0]) is Invalid {
        0
    } else {
        1 + fault_at(step(s, bytes[0]), bytes.drop_first())
    }
}

/// Computes `step`.
pub fn next_state(s: State, b: u8) -> (r: State)
    ensures
        r == step(s, b),
{
    match s {
        State::Valid => {
            if b <= 0x7f {
                State::Valid
            } else if 0xc2 <= b && b <= 0xdf {
                State::AwaitingOneByte
            } else if (0xe1 <= b && b <= 0xec) || (0xee <= b && b <= 0xef) {
                State::AwaitingTwoBytesA
            } else if b == 0xe0 {
                State::AwaitingTwoBytesB
            } else if b == 0xed {
                State::AwaitingTwoBytesC
            } else if b == 0xf0 {
                State::AwaitingThreeBytesA
            } else if 0xf1 <= b && b <= 0xf3 {
                State::AwaitingThreeBytesB
            } else if b == 0xf4 {
                State::AwaitingThreeBytesC
            } else {
                State::Invalid
            }
        },
        State::Invalid => State::Invalid,
        State::AwaitingOneByte => if 0x80 <= b && b <= 0xbf {
            State::Valid
        } else {
            State::Invalid
        },
        State::AwaitingTwoBytesA => if 0x80 <= b && b <= 0xbf {
            State::AwaitingOneByte
        } else {
            State::Invalid
        },
        State::AwaitingTwoBytesB => if 0xa0 <= b && b <= 0xbf {
            State::AwaitingOneByte
        } else {
            State::Invalid
        },
        State::AwaitingTwoBytesC => if 0x80 <= b && b <= 0x9f {
            State::AwaitingOneByte
        } else {
            State::Invalid
        },
        State::AwaitingThreeBytesA => if 0x90 <= b && b <= 0xbf {
            State::AwaitingTwoBytesA
        } else {
            State::Invalid
        },
        State::AwaitingThreeBytesB => if 0x80 <= b && b <= 0xbf {
            State::AwaitingTwoBytesA
        } else {
            State::Invalid
        },
        State::AwaitingThreeBytesC => if 0x80 <= b && b <= 0x8f {
            State::AwaitingTwoBytesA
        } else {
            State::Invalid
        },
    }
}

/// Scanning a concatenation is scanning its parts in turn.
pub proof fn lemma_run_concat(s: State, a: Seq<u8>, c: Seq<u8>)
    ensures
        run(s, a + c) == run(run(s, a), c),
    decreases a.len(),
{
    if a.len() == 0 {
        assert(a + c =~= c);
    } else {
        assert((a + c).drop_first() =~= a.drop_first() + c);
        lemma_run_concat(step(s, a[0]), a.drop_first(), c);
    }
}

/// Scanning a single byte is one step.
pub proof fn lemma_run_one(s: State, b: u8)
    ensures
        run(s, seq![b]) == step(s, b),
        fault_at(s, seq![b]) == if step(s, b) is Invalid { 0nat } else { 1nat },
{
    let one = seq![b];
    assert(one[0] == b);
    assert(one.drop_first().len() == 0);
    assert(run(step(s, b), one.drop_first()) == step(s, b));
    assert(fault_at(step(s, b), one.drop_first()) == 0);
}

/// The fault index lies within the bytes, or just past them.
pub proof fn lemma_fault_at_bound(s: State, bytes: Seq<u8>)
    ensures
        fault_at(s, bytes) <= bytes.len(),
        fault_at(s, bytes) < bytes.len() ==> run(s, bytes) is Invalid,
    decreases bytes.len(),
{
    if bytes.len() > 0 {
        if step(s, bytes[0]) is Invalid {
            lemma_invalid_absorbs(bytes.drop_first());
        } else {
            lemma_fault_at_bound(step(s, bytes[0]), bytes.drop_first());
        }
    }
}

/// Once `Invalid`, always `Invalid`.
pub proof fn lemma_invalid_absorbs(bytes: Seq<u8>)
    ensures
        run(State::Invalid, bytes) is Invalid,
    decreases bytes.len(),
{
    if bytes.len() > 0 {
        lemma_invalid_absorbs(bytes.drop_first());
    }
}

/// The fault index of a concatenation: the first part's, if it faults;
/// otherwise the second part's, counted from the start of the whole.
pub proof fn lemma_fault_at_concat(s: State, a: Seq<u8>, c: Seq<u8>)
    ensures
        fault_at(s, a + c) == if fault_at(s, a) < a.len() {
            fault_at(s, a)
        } else {
            a.len() + fault_at(run(s, a), c)
        },
    decreases a.len(),
{
    lemma_fault_at_bound(s, a);
    if a.len() == 0 {
        assert(a + c =~= c);
    } else {
        assert((a + c)[0] == a[0]);
        assert((a + c).drop_first() =~= a.drop_first() + c);
        if !(step(s, a[0]) is Invalid) {
            lemma_fault_at_concat(step(s, a[0]), a.drop_first(), c);
        }
    }
}

} // verus!

verus! {

/// A chunk of ASCII bytes leaves a boundary state unchanged and rejects no
/// byte: skipping the per-byte scan for it changes neither state nor count.
pub proof fn lemma_ascii_fast_path(bytes: Seq<u8>)
    requires
        forall|k: int| 0 <= k < bytes.len() ==> bytes[k] <= 0x7f,
    ensures
        run(State::Valid, bytes) == State::Valid,
        fault_at(State::Valid, bytes) == bytes.len(),
    decreases bytes.len(),
{
    if bytes.len() > 0 {
        assert(bytes[0] <= 0x7f);
        let rest = bytes.drop_first();
        assert forall|k: int| 0 <= k < rest.len() implies rest[k] <= 0x7f by {
            assert(rest[k] == bytes[k + 1]);
        }
        lemma_ascii_fast_path(rest);
    }
}

} // verus!
