//! The mathematical model of packed bit storage, shared by both set
//! instantiations, together with the verified word-level helpers that the
//! executable accessors are built from.
//!
//! The model speaks of a `Seq<u64>` of storage words.  Slot `s` corresponds
//! to bit `s % 64` of word `s / 64`; [`has_slot`] reads that bit,
//! [`with_slot`] and [`without_slot`] are the contents after setting or
//! clearing it, and [`ones_upto`] counts the members among the first `n`
//! slots.

use vstd::prelude::*;

verus! {

/// Words in one full-size set: both instantiations pack 1024 slots into
/// 16 words of 64 bits.
pub const SET_WORDS: usize = 16;

/// True iff bit `i` of word `w` is 1.
pub open spec fn word_bit(w: u64, i: u64) -> bool
    recommends
        i < 64,
{
    (w >> i) & 1 == 1
}

/// True iff slot `s` is a member: bit `s % 64` of word `s / 64` is 1.
pub open spec fn has_slot(words: Seq<u64>, s: int) -> bool
    recommends
        0 <= s < words.len() * 64,
{
    word_bit(words[s / 64], (s % 64) as u64)
}

/// The contents after setting slot `s`.
pub open spec fn with_slot(words: Seq<u64>, s: int) -> Seq<u64>
    recommends
        0 <= s < words.len() * 64,
{
    words.update(s / 64, words[s / 64] | (1u64 << ((s % 64) as u64)))
}

/// The contents after clearing slot `s`.
pub open spec fn without_slot(words: Seq<u64>, s: int) -> Seq<u64>
    recommends
        0 <= s < words.len() * 64,
{
    words.update(s / 64, words[s / 64] & !(1u64 << ((s % 64) as u64)))
}

/// The all-zero contents of a full-size set.
pub open spec fn zero_words() -> Seq<u64> {
    Seq::new(SET_WORDS as nat, |i: int| 0u64)
}

/// Number of 1-bits among bits `[0, n)` of word `w`.
pub open spec fn word_ones(w: u64, n: int) -> nat
    recommends
        0 <= n <= 64,
    decreases n,
{
    if n <= 0 {
        0
    } else {
        word_ones(w, n - 1) + (if word_bit(w, (n - 1) as u64) {
            1nat
        } else {
            0nat
        })
    }
}

/// Number of member slots among slots `[0, n)`.
pub open spec fn ones_upto(words: Seq<u64>, n: int) -> nat
    recommends
        0 <= n <= words.len() * 64,
    decreases n,
{
    if n <= 0 {
        0
    } else {
        ones_upto(words, n - 1) + (if has_slot(words, n - 1) {
            1nat
        } else {
            0nat
        })
    }
}

/// The set of member slots, as a mathematical set over the logical domain.
pub open spec fn members(words: Seq<u64>) -> Set<int> {
    Set::new(|s: int| 0 <= s < words.len() * 64 && has_slot(words, s))
}

/// Setting a bit by an or-mask: bit `m` becomes 1 and every other bit keeps
/// its value.
pub proof fn lemma_or_mask_bit(w: u64, m: u64, i: u64)
    by (bit_vector)
    requires
        m < 64,
        i < 64,
    ensures
        word_bit(w | (1u64 << m), i) == (i == m || word_bit(w, i)),
{
}

/// Clearing a bit by an and-not-mask: bit `m` becomes 0 and every other bit
/// keeps its value.
pub proof fn lemma_andnot_mask_bit(w: u64, m: u64, i: u64)
    by (bit_vector)
    requires
        m < 64,
        i < 64,
    ensures
        word_bit(w & !(1u64 << m), i) == (i != m && word_bit(w, i)),
{
}

/// Every bit of the zero word is 0.
pub proof fn lemma_zero_word_bit(i: u64)
    by (bit_vector)
    requires
        i < 64,
    ensures
        !word_bit(0u64, i),
{
}

/// A slot in `[0, 64 * len)` addresses a word index in `[0, len)` and a bit
/// offset in `[0, 64)`.
pub proof fn lemma_slot_index(s: int, len: int)
    by (nonlinear_arith)
    requires
        0 <= s,
        s < 64 * len,
    ensures
        0 <= s / 64 < len,
        0 <= s % 64 < 64,
        s == 64 * (s / 64) + s % 64,
{
}

/// Two slots are equal iff they address the same bit of the same word.
pub proof fn lemma_slot_addressing_injective(s: int, t: int)
    requires
        0 <= s,
        0 <= t,
    ensures
        (s == t) == (s / 64 == t / 64 && s % 64 == t % 64),
{
    vstd::arithmetic::div_mod::lemma_fundamental_div_mod(s, 64);
    vstd::arithmetic::div_mod::lemma_fundamental_div_mod(t, 64);
}

/// Membership after setting slot `s`: slot `s` is a member, and every other
/// slot keeps its membership.
pub proof fn lemma_with_slot_bits(words: Seq<u64>, s: int, t: int)
    requires
        0 <= s < words.len() * 64,
        0 <= t < words.len() * 64,
    ensures
        has_slot(with_slot(words, s), t) == (t == s || has_slot(words, t)),
{
    let len = words.len() as int;
    lemma_slot_index(s, len);
    lemma_slot_index(t, len);
    lemma_slot_addressing_injective(s, t);
    let updated = with_slot(words, s);
    if t / 64 == s / 64 {
        assert(updated[t / 64] == words[s / 64] | (1u64 << ((s % 64) as u64)));
        lemma_or_mask_bit(words[s / 64], (s % 64) as u64, (t % 64) as u64);
    } else {
        assert(updated[t / 64] == words[t / 64]);
    }
}

/// Membership after clearing slot `s`: slot `s` is not a member, and every
/// other slot keeps its membership.
pub proof fn lemma_without_slot_bits(words: Seq<u64>, s: int, t: int)
    requires
        0 <= s < words.len() * 64,
        0 <= t < words.len() * 64,
    ensures
        has_slot(without_slot(words, s), t) == (t != s && has_slot(words, t)),
{
    let len = words.len() as int;
    lemma_slot_index(s, len);
    lemma_slot_index(t, len);
    lemma_slot_addressing_injective(s, t);
    let updated = without_slot(words, s);
    if t / 64 == s / 64 {
        assert(updated[t / 64] == words[s / 64] & !(1u64 << ((s % 64) as u64)));
        lemma_andnot_mask_bit(words[s / 64], (s % 64) as u64, (t % 64) as u64);
    } else {
        assert(updated[t / 64] == words[t / 64]);
    }
}

/// No slot of the all-zero contents is a member.
pub proof fn lemma_zero_words_empty(s: int)
    requires
        0 <= s < 1024,
    ensures
        !has_slot(zero_words(), s),
{
    lemma_slot_index(s, SET_WORDS as int);
    lemma_zero_word_bit((s % 64) as u64);
}

/// Counting slot by slot within one word agrees with counting that word's
/// bits: the members among slots `[0, 64 * j + m)` are the members among
/// slots `[0, 64 * j)` plus the 1-bits among bits `[0, m)` of word `j`.
pub proof fn lemma_ones_upto_word(words: Seq<u64>, j: int, m: int)
    requires
        0 <= j < words.len(),
        0 <= m <= 64,
    ensures
        ones_upto(words, 64 * j + m) == ones_upto(words, 64 * j) + word_ones(words[j], m),
    decreases m,
{
    if m > 0 {
        lemma_ones_upto_word(words, j, m - 1);
        let s = 64 * j + (m - 1);
        assert(s / 64 == j && s % 64 == m - 1) by (nonlinear_arith)
            requires
                0 <= j,
                0 <= m - 1 < 64,
                s == 64 * j + (m - 1),
        ;
        assert(has_slot(words, s) == word_bit(words[j], (m - 1) as u64));
    }
}

/// Counting slot by slot agrees with set cardinality: `ones_upto(words, n)`
/// is the number of members among slots `[0, n)`.
pub proof fn lemma_ones_upto_is_card(words: Seq<u64>, n: int)
    requires
        0 <= n,
    ensures
        Set::new(|s: int| 0 <= s < n && has_slot(words, s)).finite(),
        ones_upto(words, n) == Set::new(|s: int| 0 <= s < n && has_slot(words, s)).len(),
    decreases n,
{
    let upto = Set::new(|s: int| 0 <= s < n && has_slot(words, s));
    if n == 0 {
        assert(upto =~= Set::empty());
    } else {
        lemma_ones_upto_is_card(words, n - 1);
        let prev = Set::new(|s: int| 0 <= s < n - 1 && has_slot(words, s));
        if has_slot(words, n - 1) {
            assert(upto =~= prev.insert(n - 1));
            vstd::set::axiom_set_insert_len(prev, n - 1);
        } else {
            assert(upto =~= prev);
        }
    }
}

/// The member count over the whole domain is the cardinality of the member
/// set.
pub proof fn lemma_count_is_card(words: Seq<u64>)
    ensures
        members(words).finite(),
        ones_upto(words, words.len() * 64 as int) == members(words).len(),
{
    lemma_ones_upto_is_card(words, words.len() * 64 as int);
    assert(members(words) =~= Set::new(
        |s: int| 0 <= s < words.len() * 64 && has_slot(words, s),
    ));
}

/// The all-zero contents have no members at all: every prefix count is 0.
pub proof fn lemma_zero_words_count(n: int)
    requires
        0 <= n <= 1024,
    ensures
        ones_upto(zero_words(), n) == 0,
    decreases n,
{
    if n > 0 {
        lemma_zero_words_count(n - 1);
        lemma_zero_words_empty(n - 1);
    }
}

/// Number of 1-bits in `w`, counted bit by bit.
pub fn popcount_word(w: u64) -> (r: u32)
    ensures
        r == word_ones(w, 64),
        r <= 64,
{
    let mut r: u32 = 0;
    let mut i: u64 = 0;
    while i < 64
        invariant
            0 <= i <= 64,
            r == word_ones(w, i as int),
            r <= i,
        decreases 64 - i,
    {
        if (w >> i) & 1 == 1 {
            r = r + 1;
        }
        i = i + 1;
    }
    r
}

} // verus!
