//! The reference-count word of an allocation.
//!
//! One machine word holds both the number of strong handles and the flag for
//! an outstanding reclaim capability: `word == (strong << 1) | reclaim`.

use vstd::prelude::*;

verus! {

/// The packed word for `strong` handles and the given reclaim flag.
pub open spec fn pack(strong: nat, reclaim: bool) -> nat {
    2 * strong + if reclaim {
        1nat
    } else {
        0nat
    }
}

/// Shifting right by one halves a word.
pub proof fn lemma_shr_one(word: usize)
    ensures
        word >> 1 == word / 2,
{
    assert(word >> 1 == word / 2) by (bit_vector);
}

/// The lowest bit of a word is its remainder modulo two.
pub proof fn lemma_low_bit(word: usize)
    ensures
        word & 1 == word % 2,
{
    assert(word & 1 == word % 2) by (bit_vector);
}

/// Masking out the lowest bit subtracts the remainder modulo two.
pub proof fn lemma_clear_low_bit(word: usize)
    ensures
        word & !1usize == word - word % 2,
{
    assert(word & !1usize == word - word % 2) by (bit_vector);
}

/// Shifting a count left by one and or-ing in a flag bit packs them.
pub proof fn lemma_shl_or(count: usize, bit: usize)
    requires
        count <= usize::MAX / 2,
        bit <= 1,
    ensures
        (count << 1 | bit) == 2 * count + bit,
{
    assert(count < 0x8000_0000 ==> count << 1 == count * 2) by (bit_vector);
    if usize::BITS == 64 {
        assert(count as u64 <= 0x7fff_ffff_ffff_ffffu64 ==> (count as u64) << 1 == (count as u64)
            * 2) by (bit_vector);
    }
    let shifted: usize = count << 1;
    assert(shifted % 2 == 0 && bit <= 1 ==> shifted | bit == shifted + bit) by (bit_vector);
}

/// Whether the allocation has to be freed after a reference was given up.
#[derive(Clone, Copy, Debug)]
#[must_use]
pub struct MustDrop(pub bool);

impl From<MustDrop> for bool {
    fn from(value: MustDrop) -> (r: bool) {
        value.0
    }
}

impl vstd::std_specs::convert::FromSpecImpl<MustDrop> for bool {
    open spec fn obeys_from_spec() -> bool {
        true
    }

    open spec fn from_spec(value: MustDrop) -> bool {
        value.0
    }
}

/// The reference count of one allocation.
///
/// - An allocation can have *one* reference from a reclaim capability. This is
///   stored as the lowest bit.
/// - An allocation can have any number of strong references through buffer
///   handles. Their number is stored in the remaining bits.
///
/// Every operation is a single step on the word: the arena that owns the word
/// is borrowed exclusively for its duration, so no other handle can observe an
/// intermediate state.
pub struct AtomicRefCount {
    pub word: usize,
}

impl AtomicRefCount {
    /// The number of strong handles.
    pub open spec fn strong(&self) -> nat {
        (self.word / 2) as nat
    }

    /// Whether a reclaim capability is outstanding.
    pub open spec fn reclaim(&self) -> bool {
        self.word % 2 == 1
    }

    #[inline]
    pub fn new(ref_count: usize, reclaim: bool) -> (r: Self)
        requires
            ref_count <= usize::MAX / 2,
        ensures
            r.word == pack(ref_count as nat, reclaim),
            r.strong() == ref_count,
            r.reclaim() == reclaim,
    {
        let bit: usize = if reclaim {
            1
        } else {
            0
        };
        proof {
            lemma_shl_or(ref_count, bit);
        }
        Self { word: ref_count << 1 | bit }
    }

    /// Adds one strong handle.
    #[inline]
    pub fn increment(&mut self)
        requires
            old(self).strong() < usize::MAX / 2,
        ensures
            final(self).word == old(self).word + 2,
            final(self).strong() == old(self).strong() + 1,
            final(self).reclaim() == old(self).reclaim(),
    {
        self.word = self.word + 2;
    }

    /// Gives up one strong handle and returns whether the allocation must be
    /// freed: that is the case when no strong handle is left and no reclaim
    /// capability is outstanding.
    #[inline]
    pub fn decrement(&mut self) -> (r: MustDrop)
        requires
            old(self).strong() >= 1,
        ensures
            final(self).word == old(self).word - 2,
            final(self).strong() == old(self).strong() - 1,
            final(self).reclaim() == old(self).reclaim(),
            r.0 == (old(self).word == 2),
            r.0 == (final(self).strong() == 0 && !final(self).reclaim()),
    {
        let old_value: usize = self.word;
        self.word = old_value - 2;
        MustDrop(old_value == 2)
    }

    /// Removes the reference of the reclaim capability and returns whether the
    /// allocation must be freed: that is the case when the capability was the
    /// only thing that kept it alive.
    #[inline]
    pub fn make_unreclaimable(&mut self) -> (r: MustDrop)
        ensures
            final(self).strong() == old(self).strong(),
            !final(self).reclaim(),
            r.0 == (old(self).word == 1),
            r.0 == (old(self).strong() == 0 && old(self).reclaim()),
    {
        let old_value: usize = self.word;
        proof {
            lemma_clear_low_bit(old_value);
        }
        self.word = old_value & !1usize;
        MustDrop(old_value == 1)
    }

    /// Tries to reclaim the allocation. This succeeds only if the reference of
    /// the reclaim capability is the only one left; the word then goes from
    /// exactly `1` to exactly `3` in one step, which counts the reclaimed
    /// buffer as the one strong handle.
    #[inline]
    pub fn try_reclaim(&mut self) -> (r: bool)
        ensures
            r == (old(self).word == 1),
            r == (old(self).strong() == 0 && old(self).reclaim()),
            r ==> final(self).word == 3,
            r ==> final(self).strong() == 1 && final(self).reclaim(),
            !r ==> final(self).word == old(self).word,
    {
        if self.word == 1 {
            self.word = 3;
            true
        } else {
            false
        }
    }

    /// Checks whether the allocation can be reclaimed.
    #[inline]
    pub fn can_reclaim(&self) -> (r: bool)
        ensures
            r == (self.word == 1),
            r == (self.strong() == 0 && self.reclaim()),
    {
        self.word == 1
    }
}

/// An observation of a buffer's reference count.
#[derive(Clone, Copy, Debug)]
pub enum RefCount {
    /// The buffer has no allocation, so nothing is counted.
    Static,
    /// The buffer's allocation has `ref_count` strong handles, and `reclaim`
    /// tells whether a reclaim capability is outstanding.
    Counted { ref_count: usize, reclaim: bool },
}

impl RefCount {
    pub fn from_atomic(value: &AtomicRefCount) -> (r: Self)
        ensures
            r == (RefCount::Counted {
                ref_count: value.strong() as usize,
                reclaim: value.reclaim(),
            }),
    {
        let value: usize = value.word;
        proof {
            lemma_shr_one(value);
            lemma_low_bit(value);
        }
        let ref_count: usize = value >> 1;
        RefCount::Counted { ref_count, reclaim: value & 1 != 0 }
    }

    #[inline]
    pub fn ref_count(&self) -> (r: Option<usize>)
        ensures
            r == match *self {
                RefCount::Static => None,
                RefCount::Counted { ref_count, .. } => Some(ref_count),
            },
    {
        match self {
            RefCount::Static => None,
            RefCount::Counted { ref_count, .. } => Some(*ref_count),
        }
    }

    #[inline]
    pub fn can_be_reclaimed(&self) -> (r: bool)
        ensures
            r == match *self {
                RefCount::Static => false,
                RefCount::Counted { reclaim, .. } => reclaim,
            },
    {
        match self {
            RefCount::Static => false,
            RefCount::Counted { reclaim, .. } => *reclaim,
        }
    }

    #[inline]
    pub fn is_static(&self) -> (r: bool)
        ensures
            r == (*self is Static),
    {
        matches!(self, RefCount::Static)
    }
}

} // verus!
