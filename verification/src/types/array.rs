//! Array types; notably, [`PStackArrUnchecked`].

use crate::types::magic::Magic;
use vstd::prelude::*;

verus! {

/// An array with a max length of `LEN`. `inner` holds the slots in use, so
/// its length is the count of them.
///
/// Nothing here tests the capacity before a slot is filled: whoever fills one
/// makes sure that one is left.
pub struct PStackArrUnchecked<T, const LEN: usize> {
    _magic: [u8; 4],
    inner: Vec<T>,
}

impl<T, const LEN: usize> Magic<4> for PStackArrUnchecked<T, LEN> {
    /// The byte 255, then `ary`.
    const MAGIC: [u8; 4] = [0xff, 0x61, 0x72, 0x79];

    closed spec fn leading(&self) -> Seq<u8> {
        self._magic@
    }

    proof fn lemma_tag_is_marked() {
        assert(Self::MAGIC@[0] == 0xff);
    }

    fn header(&self) -> (bytes: [u8; 4]) {
        self._magic
    }
}

impl<T, const LEN: usize> View for PStackArrUnchecked<T, LEN> {
    type V = Seq<T>;

    /// The slots in use, in the order in which they were filled.
    closed spec fn view(&self) -> Seq<T> {
        self.inner@
    }
}

impl<T, const LEN: usize> PStackArrUnchecked<T, LEN> {
    /// The bytes of the tag.
    pub proof fn lemma_magic()
        ensures
            Self::MAGIC@ == seq![0xffu8, 0x61u8, 0x72u8, 0x79u8],
    {
    }

    #[verifier::type_invariant]
    spec fn well_formed(self) -> bool {
        self.inner@.len() <= LEN
    }

    /// An array with no slot in use, and a tag of zero bytes.
    pub fn new() -> (made: Self)
        ensures
            made@ == Seq::<T>::empty(),
            made.leading() == seq![0u8, 0u8, 0u8, 0u8],
    {
        let made = Self { _magic: [0u8; 4], inner: Vec::new() };
        made
    }

    /// The number of slots in use.
    pub fn len(&self) -> (n: usize)
        ensures
            n == self@.len(),
            n <= LEN,
    {
        proof {
            use_type_invariant(self);
        }
        self.inner.len()
    }

    /// The number of slots there are.
    pub fn capacity(&self) -> (n: usize)
        ensures
            n == LEN,
    {
        LEN
    }

    /// Fills the slot at `len`, then counts it.
    pub fn push(&mut self, value: T)
        requires
            old(self)@.len() < LEN,
        ensures
            final(self)@ == old(self)@.push(value),
            final(self).leading() == old(self).leading(),
    {
        proof {
            use_type_invariant(&*self);
        }
        let mut slots: Vec<T> = Vec::new();
        core::mem::swap(&mut self.inner, &mut slots);
        slots.push(value);
        core::mem::swap(&mut self.inner, &mut slots);
    }

    /// The slot at `idx`, if it is in use.
    pub fn get(&self, idx: usize) -> (slot: Option<&T>)
        ensures
            idx < self@.len() ==> slot == Some(&self@[idx as int]),
            idx >= self@.len() ==> slot is None,
    {
        proof {
            use_type_invariant(self);
        }
        if idx < self.inner.len() {
            Some(&self.inner[idx])
        } else {
            None
        }
    }

    /// The slots in use.
    pub fn as_slice(&self) -> (slots: &[T])
        ensures
            slots@ == self@,
    {
        self.inner.as_slice()
    }
}

impl<T, const LEN: usize> Default for PStackArrUnchecked<T, LEN> {
    fn default() -> (made: Self)
        ensures
            made@ == Seq::<T>::empty(),
    {
        Self::new()
    }
}

} // verus!
