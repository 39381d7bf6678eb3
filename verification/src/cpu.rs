//! The CPU set: the bit-indexed set that the platform's affinity-control
//! primitives read.
//!
//! The native accessors (`CPU_SET`, `CPU_CLR`, `CPU_ISSET`, `CPU_ZERO`,
//! `CPU_COUNT`, `CPU_COUNT_S`, `CPU_EQUAL`, `CPU_ALLOC_SIZE`) carry their
//! own internal range guard: an out-of-range slot makes the mutators a
//! silent no-op and the membership test return `false`.  That convention is
//! deliberately different from the descriptor-set sibling and is kept here
//! exactly.

use crate::CPU_SETSIZE;
use crate::bits::SET_WORDS;
use crate::bits::has_slot;
use crate::bits::lemma_count_is_card;
use crate::bits::lemma_ones_upto_word;
use crate::bits::lemma_slot_index;
use crate::bits::lemma_with_slot_bits;
use crate::bits::lemma_without_slot_bits;
use crate::bits::members;
use crate::bits::ones_upto;
use crate::bits::popcount_word;
use crate::bits::with_slot;
use crate::bits::without_slot;
use crate::bits::zero_words;
use vstd::prelude::*;

verus! {

/// A fixed-capacity set of CPU slots in `[0, CPU_SETSIZE)`, packed into
/// `SET_WORDS` sixty-four-bit words exactly as the native affinity
/// primitives expect them.
#[derive(Clone, Copy)]
pub struct cpu_set_t {
    bits: [u64; SET_WORDS],
}

impl View for cpu_set_t {
    type V = Seq<u64>;

    closed spec fn view(&self) -> Seq<u64> {
        self.bits@
    }
}

/// A CPU set always holds exactly `SET_WORDS` storage words.
pub broadcast proof fn lemma_cpu_set_len(cpuset: &cpu_set_t)
    ensures
        (#[trigger] cpuset@).len() == SET_WORDS,
{
}

impl cpu_set_t {
    /// A freshly allocated, zero-valued CPU set.  The native type is handed
    /// to callers uninitialized and must be zeroed before use; a safe value
    /// starts out zeroed instead.
    pub fn new() -> (r: cpu_set_t)
        ensures
            r@ == zero_words(),
    {
        let r = cpu_set_t { bits: [0u64; SET_WORDS] };
        proof {
            assert(r.bits@ =~= zero_words());
        }
        r
    }
}

/// Sets every storage word of `cpuset` to 0, emptying the set.
pub fn CPU_ZERO(cpuset: &mut cpu_set_t)
    ensures
        final(cpuset)@ == zero_words(),
{
    let mut i: usize = 0;
    while i < SET_WORDS
        invariant
            i <= SET_WORDS,
            cpuset@.len() == SET_WORDS,
            forall|j: int| 0 <= j < i ==> cpuset@[j] == 0u64,
        decreases SET_WORDS - i,
    {
        cpuset.bits[i] = 0;
        i = i + 1;
    }
    proof {
        assert(cpuset.bits@ =~= zero_words());
    }
}

/// Marks slot `cpu` as a member of `cpuset`.
///
/// For `cpu` in `[0, CPU_SETSIZE)` the slot's bit is set and every other
/// slot keeps its membership; an out-of-range slot leaves the set untouched,
/// exactly as the native accessor's internal guard does.
pub fn CPU_SET(cpu: usize, cpuset: &mut cpu_set_t)
    ensures
        cpu < CPU_SETSIZE as usize ==> {
            &&& final(cpuset)@ == with_slot(old(cpuset)@, cpu as int)
            &&& forall|s: int|
                0 <= s < CPU_SETSIZE ==> has_slot(final(cpuset)@, s) == (s == cpu || has_slot(
                    old(cpuset)@,
                    s,
                ))
        },
        cpu >= CPU_SETSIZE as usize ==> *final(cpuset) == *old(cpuset),
{
    if cpu < CPU_SETSIZE as usize {
        proof {
            lemma_slot_index(cpu as int, SET_WORDS as int);
        }
        let idx = cpu / 64;
        let off: u64 = (cpu % 64) as u64;
        cpuset.bits[idx] = cpuset.bits[idx] | (1u64 << off);
        proof {
            assert(cpuset@ == with_slot(old(cpuset)@, cpu as int));
            assert forall|s: int| 0 <= s < CPU_SETSIZE implies has_slot(cpuset@, s) == (s == cpu
                || has_slot(old(cpuset)@, s)) by {
                lemma_with_slot_bits(old(cpuset)@, cpu as int, s);
            }
        }
    }
}

/// Removes slot `cpu` from `cpuset`.
///
/// For `cpu` in `[0, CPU_SETSIZE)` the slot's bit is cleared and every other
/// slot keeps its membership; an out-of-range slot leaves the set untouched,
/// exactly as the native accessor's internal guard does.
pub fn CPU_CLR(cpu: usize, cpuset: &mut cpu_set_t)
    ensures
        cpu < CPU_SETSIZE as usize ==> {
            &&& final(cpuset)@ == without_slot(old(cpuset)@, cpu as int)
            &&& forall|s: int|
                0 <= s < CPU_SETSIZE ==> has_slot(final(cpuset)@, s) == (s != cpu && has_slot(
                    old(cpuset)@,
                    s,
                ))
        },
        cpu >= CPU_SETSIZE as usize ==> *final(cpuset) == *old(cpuset),
{
    if cpu < CPU_SETSIZE as usize {
        proof {
            lemma_slot_index(cpu as int, SET_WORDS as int);
        }
        let idx = cpu / 64;
        let off: u64 = (cpu % 64) as u64;
        cpuset.bits[idx] = cpuset.bits[idx] & !(1u64 << off);
        proof {
            assert(cpuset@ == without_slot(old(cpuset)@, cpu as int));
            assert forall|s: int| 0 <= s < CPU_SETSIZE implies has_slot(cpuset@, s) == (s != cpu
                && has_slot(old(cpuset)@, s)) by {
                lemma_without_slot_bits(old(cpuset)@, cpu as int, s);
            }
        }
    }
}

/// Reports whether slot `cpu` is a member of `cpuset`; an out-of-range slot
/// reads as `false`, exactly as the native accessor's internal guard does.
pub fn CPU_ISSET(cpu: usize, cpuset: &cpu_set_t) -> (r: bool)
    ensures
        r == (cpu < CPU_SETSIZE as usize && has_slot(cpuset@, cpu as int)),
{
    if cpu < CPU_SETSIZE as usize {
        proof {
            lemma_slot_index(cpu as int, SET_WORDS as int);
        }
        let idx = cpu / 64;
        let off: u64 = (cpu % 64) as u64;
        (cpuset.bits[idx] >> off) & 1 == 1
    } else {
        false
    }
}

/// Sums the population count of the first `size / 8` storage words: the
/// number of members among slots `[0, 64 * (size / 8))`.  `size` is a view
/// size in bytes, supporting sub-sized views into a larger affinity buffer;
/// it must not claim more than the set's own `SET_WORDS` words.
pub fn CPU_COUNT_S(size: usize, cpuset: &cpu_set_t) -> (r: i32)
    requires
        size / 8 <= SET_WORDS,
    ensures
        r == ones_upto(cpuset@, 64 * (size / 8) as int),
        0 <= r <= CPU_SETSIZE,
{
    let nwords = size / 8;
    let mut total: u32 = 0;
    let mut i: usize = 0;
    while i < nwords
        invariant
            i <= nwords,
            nwords <= SET_WORDS,
            cpuset@.len() == SET_WORDS,
            total == ones_upto(cpuset@, 64 * i as int),
            total <= 64 * i,
        decreases nwords - i,
    {
        let ones = popcount_word(cpuset.bits[i]);
        proof {
            lemma_ones_upto_word(cpuset@, i as int, 64);
        }
        total = total + ones;
        i = i + 1;
    }
    total as i32
}

/// The number of members of `cpuset`, over its full static size: the
/// cardinality of its member set.
pub fn CPU_COUNT(cpuset: &cpu_set_t) -> (r: i32)
    ensures
        r == ones_upto(cpuset@, CPU_SETSIZE as int),
        r == members(cpuset@).len(),
        0 <= r <= CPU_SETSIZE,
{
    let r = CPU_COUNT_S(128, cpuset);
    proof {
        lemma_count_is_card(cpuset@);
    }
    r
}

/// Raw word-array equality of two CPU sets.  Every storage word takes part,
/// members and spare bits alike; this is not a comparison of logical
/// membership over some narrower view.
pub fn CPU_EQUAL(set1: &cpu_set_t, set2: &cpu_set_t) -> (r: bool)
    ensures
        r == (set1@ == set2@),
{
    let mut i: usize = 0;
    while i < SET_WORDS
        invariant
            i <= SET_WORDS,
            set1@.len() == SET_WORDS,
            set2@.len() == SET_WORDS,
            forall|j: int| 0 <= j < i ==> set1@[j] == set2@[j],
        decreases SET_WORDS - i,
    {
        if set1.bits[i] != set2.bits[i] {
            return false;
        }
        i = i + 1;
    }
    proof {
        assert(set1@ =~= set2@);
    }
    true
}

/// The number of bytes needed to hold membership flags for `count` slots:
/// `count` rounded up at byte granularity, `ceil(count / 8)`.  The rounding
/// is the native header's own convention — bytes, not whole storage words.
pub fn CPU_ALLOC_SIZE(count: i32) -> (r: usize)
    requires
        0 <= count,
    ensures
        r == (count + 7) / 8,
{
    ((count as usize) + 7) / 8
}

} // verus!
