//! Laws that relate several set operations to one another, stated over the
//! word-sequence model of `bits` and proved once for both instantiations.
//!
//! The accessors' own contracts say what each single call does; the lemmas
//! here pin down how calls compose: clearing undoes setting, setting twice
//! is setting once, setting a fresh slot grows the member count by exactly
//! one, neighbouring slots on either side of a word boundary do not collide,
//! and raw word equality is exactly agreement of every slot's membership.

use crate::CPU_SETSIZE;
use crate::FD_SETSIZE;
use crate::bits::has_slot;
use crate::bits::lemma_count_is_card;
use crate::bits::lemma_slot_index;
use crate::bits::lemma_with_slot_bits;
use crate::bits::lemma_without_slot_bits;
use crate::bits::members;
use crate::bits::ones_upto;
use crate::bits::with_slot;
use crate::bits::without_slot;
use crate::bits::word_bit;
use crate::cpu::cpu_set_t;
use crate::cpu::lemma_cpu_set_len;
use crate::fd::fd_set;
use crate::fd::lemma_fd_set_len;
use vstd::prelude::*;

verus! {

spec fn low_mask(n: u64) -> u64
    recommends
        n < 64,
{
    ((1u64 << n) - 1) as u64
}

proof fn lemma_mask_step(x: u64, y: u64, n: u64)
    by (bit_vector)
    requires
        n < 63,
        x & low_mask(n) == y & low_mask(n),
        word_bit(x, n) == word_bit(y, n),
    ensures
        x & low_mask((n + 1) as u64) == y & low_mask((n + 1) as u64),
{
}

proof fn lemma_mask_final(x: u64, y: u64)
    by (bit_vector)
    requires
        x & low_mask(63) == y & low_mask(63),
        word_bit(x, 63) == word_bit(y, 63),
    ensures
        x == y,
{
}

proof fn lemma_bits_prefix_eq(x: u64, y: u64, n: u64)
    requires
        n <= 63,
        forall|i: u64| i < 64 ==> word_bit(x, i) == word_bit(y, i),
    ensures
        x & low_mask(n) == y & low_mask(n),
    decreases n,
{
    if n == 0 {
        assert(x & low_mask(0) == y & low_mask(0)) by (bit_vector);
    } else {
        lemma_bits_prefix_eq(x, y, (n - 1) as u64);
        assert(word_bit(x, (n - 1) as u64) == word_bit(y, (n - 1) as u64));
        lemma_mask_step(x, y, (n - 1) as u64);
    }
}

/// A word is determined by its 64 bits: two words that agree on every bit
/// are equal.
pub proof fn lemma_word_bits_determine(x: u64, y: u64)
    requires
        forall|i: u64| i < 64 ==> word_bit(x, i) == word_bit(y, i),
    ensures
        x == y,
{
    lemma_bits_prefix_eq(x, y, 63);
    assert(word_bit(x, 63u64) == word_bit(y, 63u64));
    lemma_mask_final(x, y);
}

/// Clearing a slot right after setting it restores that slot to
/// non-membership, and every other slot comes through the pair of calls
/// unchanged.
pub proof fn lemma_clear_after_set_restores(words: Seq<u64>, s: int, t: int)
    requires
        0 <= s < words.len() * 64,
        0 <= t < words.len() * 64,
    ensures
        !has_slot(without_slot(with_slot(words, s), s), s),
        t != s ==> has_slot(without_slot(with_slot(words, s), s), t) == has_slot(words, t),
{
    lemma_with_slot_bits(words, s, t);
    lemma_without_slot_bits(with_slot(words, s), s, t);
    lemma_without_slot_bits(with_slot(words, s), s, s);
}

/// Setting a slot twice yields the same contents as setting it once.
pub proof fn lemma_set_idempotent(words: Seq<u64>, s: int)
    requires
        0 <= s < words.len() * 64,
    ensures
        with_slot(with_slot(words, s), s) == with_slot(words, s),
{
    lemma_slot_index(s, words.len() as int);
    let m = (s % 64) as u64;
    let w = words[s / 64];
    assert((w | (1u64 << m)) | (1u64 << m) == w | (1u64 << m)) by (bit_vector);
    assert(with_slot(with_slot(words, s), s) =~= with_slot(words, s));
}

/// Setting a slot grows the member count by exactly one when the slot was
/// not yet a member, and leaves the count unchanged when it already was.
pub proof fn lemma_set_grows_count_by_one(words: Seq<u64>, s: int)
    requires
        0 <= s < words.len() * 64,
    ensures
        members(with_slot(words, s)) == members(words).insert(s),
        !has_slot(words, s) ==> members(with_slot(words, s)).len() == members(words).len() + 1,
        has_slot(words, s) ==> members(with_slot(words, s)).len() == members(words).len(),
        ones_upto(with_slot(words, s), words.len() * 64 as int) == members(words).insert(s).len(),
{
    assert forall|t: int| #[trigger] members(with_slot(words, s)).contains(t) == members(
        words,
    ).insert(s).contains(t) by {
        if 0 <= t < words.len() * 64 {
            lemma_with_slot_bits(words, s, t);
        }
    }
    assert(members(with_slot(words, s)) =~= members(words).insert(s));
    lemma_count_is_card(words);
    lemma_count_is_card(with_slot(words, s));
    vstd::set::axiom_set_insert_len(members(words), s);
}

/// Slots on either side of a word boundary land in different words and do
/// not collide: slot 63 is bit 63 of word 0, slot 64 is bit 0 of word 1,
/// and setting either leaves the other's membership untouched.
pub proof fn lemma_word_boundary_rollover(words: Seq<u64>)
    requires
        words.len() >= 2,
    ensures
        with_slot(words, 63) == words.update(0, words[0] | (1u64 << 63u64)),
        with_slot(words, 64) == words.update(1, words[1] | 1u64),
        has_slot(with_slot(words, 63), 64) == has_slot(words, 64),
        has_slot(with_slot(words, 64), 63) == has_slot(words, 63),
        has_slot(with_slot(words, 63), 63),
        has_slot(with_slot(words, 64), 64),
{
    assert(1u64 << 0u64 == 1u64) by (bit_vector);
    lemma_with_slot_bits(words, 63, 64);
    lemma_with_slot_bits(words, 64, 63);
    lemma_with_slot_bits(words, 63, 63);
    lemma_with_slot_bits(words, 64, 64);
}

/// Raw word equality is exactly slot-for-slot agreement of membership: two
/// sets of the same size hold equal words iff every slot of the logical
/// domain is a member of both or of neither.
pub proof fn lemma_equal_iff_same_slots(a: Seq<u64>, b: Seq<u64>)
    requires
        a.len() == b.len(),
    ensures
        (a == b) == (forall|s: int|
            0 <= s < a.len() * 64 ==> has_slot(a, s) == has_slot(b, s)),
{
    if forall|s: int| 0 <= s < a.len() * 64 ==> has_slot(a, s) == has_slot(b, s) {
        assert forall|j: int| 0 <= j < a.len() implies a[j] == b[j] by {
            assert forall|i: u64| i < 64 implies word_bit(a[j], i) == word_bit(b[j], i) by {
                let s = 64 * j + i as int;
                assert(s / 64 == j && s % 64 == i as int) by (nonlinear_arith)
                    requires
                        0 <= j,
                        0 <= i < 64,
                        s == 64 * j + i as int,
                ;
                assert(has_slot(a, s) == has_slot(b, s));
            }
            lemma_word_bits_determine(a[j], b[j]);
        }
        assert(a =~= b);
    }
}

/// Two CPU sets hold equal words — what `CPU_EQUAL` reports — iff every
/// slot in `[0, CPU_SETSIZE)` is a member of both or of neither.
pub proof fn lemma_cpu_sets_equal_iff_same_slots(a: &cpu_set_t, b: &cpu_set_t)
    ensures
        (a@ == b@) == (forall|s: int|
            0 <= s < CPU_SETSIZE ==> has_slot(a@, s) == has_slot(b@, s)),
{
    lemma_cpu_set_len(a);
    lemma_cpu_set_len(b);
    lemma_equal_iff_same_slots(a@, b@);
}

/// A descriptor set is determined by its slots: two descriptor sets hold
/// equal words iff every slot in `[0, FD_SETSIZE)` is a member of both or
/// of neither.
pub proof fn lemma_fd_sets_equal_iff_same_slots(a: &fd_set, b: &fd_set)
    ensures
        (a@ == b@) == (forall|s: int|
            0 <= s < FD_SETSIZE ==> has_slot(a@, s) == has_slot(b@, s)),
{
    lemma_fd_set_len(a);
    lemma_fd_set_len(b);
    lemma_equal_iff_same_slots(a@, b@);
}

} // verus!
