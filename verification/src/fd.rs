//! The descriptor set: the bit-indexed set that the platform's
//! multiplexed-wait primitive reads.
//!
//! The native accessors (`FD_SET`, `FD_CLR`, `FD_ISSET`, `FD_ZERO`) are
//! unchecked macro-style operations over raw memory: a slot outside
//! `[0, FD_SETSIZE)` indexes past the storage.  The accessors here keep the
//! same names, the same packed layout and the same in-range behaviour, but
//! check the slot first and report [`OutOfRange`] instead of performing an
//! out-of-bounds access.  This is a deliberate deviation: it carries the
//! checked convention of the CPU-set sibling over to the descriptor set,
//! surfacing the error rather than leaving the access undefined.

use crate::FD_SETSIZE;
use crate::bits::SET_WORDS;
use crate::bits::has_slot;
use crate::bits::lemma_slot_index;
use crate::bits::lemma_with_slot_bits;
use crate::bits::lemma_without_slot_bits;
use crate::bits::with_slot;
use crate::bits::without_slot;
use crate::bits::zero_words;
use crate::fd_mask;
use vstd::prelude::*;

verus! {

/// The one error a descriptor-set accessor can report: the requested slot
/// lies outside `[0, FD_SETSIZE)`.
#[derive(Clone, Copy, Debug, PartialEq, Eq, Structural)]
pub struct OutOfRange;

/// A fixed-capacity set of descriptor slots in `[0, FD_SETSIZE)`, packed
/// into `SET_WORDS` storage words exactly as the native waiting primitive
/// expects them.
#[derive(Clone, Copy)]
pub struct fd_set {
    fds_bits: [fd_mask; SET_WORDS],
}

impl View for fd_set {
    type V = Seq<u64>;

    closed spec fn view(&self) -> Seq<u64> {
        self.fds_bits@
    }
}

/// A descriptor set always holds exactly `SET_WORDS` storage words.
pub broadcast proof fn lemma_fd_set_len(fdset: &fd_set)
    ensures
        (#[trigger] fdset@).len() == SET_WORDS,
{
}

impl fd_set {
    /// A freshly allocated, zero-valued descriptor set.  The native type is
    /// handed to callers uninitialized and must be zeroed before use; a safe
    /// value starts out zeroed instead.
    pub fn new() -> (r: fd_set)
        ensures
            r@ == zero_words(),
    {
        let r = fd_set { fds_bits: [0u64; SET_WORDS] };
        proof {
            assert(r.fds_bits@ =~= zero_words());
        }
        r
    }
}

/// Sets every storage word of `fdset` to 0, emptying the set.
pub fn FD_ZERO(fdset: &mut fd_set)
    ensures
        final(fdset)@ == zero_words(),
{
    let mut i: usize = 0;
    while i < SET_WORDS
        invariant
            i <= SET_WORDS,
            fdset@.len() == SET_WORDS,
            forall|j: int| 0 <= j < i ==> fdset@[j] == 0u64,
        decreases SET_WORDS - i,
    {
        fdset.fds_bits[i] = 0;
        i = i + 1;
    }
    proof {
        assert(fdset.fds_bits@ =~= zero_words());
    }
}

/// Marks slot `fd` as a member of `fdset`.
///
/// For `fd` in `[0, FD_SETSIZE)` the slot's bit is set and every other slot
/// keeps its membership; otherwise the set is untouched and [`OutOfRange`]
/// is reported (where the native macro would index out of bounds).
pub fn FD_SET(fd: i32, fdset: &mut fd_set) -> (r: Result<(), OutOfRange>)
    ensures
        0 <= fd < FD_SETSIZE ==> {
            &&& r is Ok
            &&& final(fdset)@ == with_slot(old(fdset)@, fd as int)
            &&& forall|s: int|
                0 <= s < FD_SETSIZE ==> has_slot(final(fdset)@, s) == (s == fd || has_slot(
                    old(fdset)@,
                    s,
                ))
        },
        !(0 <= fd < FD_SETSIZE) ==> r == Err::<(), OutOfRange>(OutOfRange) && final(fdset)@
            == old(fdset)@,
{
    if fd < 0 || fd as usize >= FD_SETSIZE {
        return Err(OutOfRange);
    }
    proof {
        lemma_slot_index(fd as int, SET_WORDS as int);
    }
    let idx = fd as usize / 64;
    let off: u64 = (fd as usize % 64) as u64;
    fdset.fds_bits[idx] = fdset.fds_bits[idx] | (1u64 << off);
    proof {
        assert(fdset@ == with_slot(old(fdset)@, fd as int));
        assert forall|s: int| 0 <= s < FD_SETSIZE implies has_slot(fdset@, s) == (s == fd
            || has_slot(old(fdset)@, s)) by {
            lemma_with_slot_bits(old(fdset)@, fd as int, s);
        }
    }
    Ok(())
}

/// Removes slot `fd` from `fdset`.
///
/// For `fd` in `[0, FD_SETSIZE)` the slot's bit is cleared and every other
/// slot keeps its membership; otherwise the set is untouched and
/// [`OutOfRange`] is reported (where the native macro would index out of
/// bounds).
pub fn FD_CLR(fd: i32, fdset: &mut fd_set) -> (r: Result<(), OutOfRange>)
    ensures
        0 <= fd < FD_SETSIZE ==> {
            &&& r is Ok
            &&& final(fdset)@ == without_slot(old(fdset)@, fd as int)
            &&& forall|s: int|
                0 <= s < FD_SETSIZE ==> has_slot(final(fdset)@, s) == (s != fd && has_slot(
                    old(fdset)@,
                    s,
                ))
        },
        !(0 <= fd < FD_SETSIZE) ==> r == Err::<(), OutOfRange>(OutOfRange) && final(fdset)@
            == old(fdset)@,
{
    if fd < 0 || fd as usize >= FD_SETSIZE {
        return Err(OutOfRange);
    }
    proof {
        lemma_slot_index(fd as int, SET_WORDS as int);
    }
    let idx = fd as usize / 64;
    let off: u64 = (fd as usize % 64) as u64;
    fdset.fds_bits[idx] = fdset.fds_bits[idx] & !(1u64 << off);
    proof {
        assert(fdset@ == without_slot(old(fdset)@, fd as int));
        assert forall|s: int| 0 <= s < FD_SETSIZE implies has_slot(fdset@, s) == (s != fd
            && has_slot(old(fdset)@, s)) by {
            lemma_without_slot_bits(old(fdset)@, fd as int, s);
        }
    }
    Ok(())
}

/// Reports whether slot `fd` is a member of `fdset`.
///
/// For `fd` in `[0, FD_SETSIZE)` the slot's bit is returned; otherwise
/// [`OutOfRange`] is reported (where the native macro would read out of
/// bounds).
pub fn FD_ISSET(fd: i32, fdset: &fd_set) -> (r: Result<bool, OutOfRange>)
    ensures
        0 <= fd < FD_SETSIZE ==> r == Ok::<bool, OutOfRange>(has_slot(fdset@, fd as int)),
        !(0 <= fd < FD_SETSIZE) ==> r == Err::<bool, OutOfRange>(OutOfRange),
{
    if fd < 0 || fd as usize >= FD_SETSIZE {
        return Err(OutOfRange);
    }
    proof {
        lemma_slot_index(fd as int, SET_WORDS as int);
    }
    let idx = fd as usize / 64;
    let off: u64 = (fd as usize % 64) as u64;
    Ok((fdset.fds_bits[idx] >> off) & 1 == 1)
}

} // verus!
