//! Magic numbers packed at the first `LEN` bytes of a struct to identify it.

use crate::arena::overlay;
use crate::types::array::PStackArrUnchecked;
use crate::types::error::PError;
use crate::types::string::PStackStr;
use vstd::prelude::*;

verus! {

/// `region` holds `tag` at offset `address`, and the whole tag lies inside the region.
pub open spec fn tag_at(region: Seq<u8>, address: int, tag: Seq<u8>) -> bool {
    &&& 0 <= address
    &&& address + tag.len() <= region.len()
    &&& region.subrange(address, address + tag.len()) == tag
}

/// Compares the `LEN` bytes of `region` that start at `address` with `magic`.
///
/// A range that leaves the region never matches.
pub fn is_magic<const LEN: usize>(region: &[u8], address: usize, magic: [u8; LEN]) -> (found: bool)
    ensures
        found == tag_at(region@, address as int, magic@),
{
    if address > region.len() || LEN > region.len() - address {
        return false;
    }
    let mut idx: usize = 0;
    while idx < LEN
        invariant
            idx <= LEN,
            address + LEN <= region.len(),
            forall|k: int| 0 <= k < idx ==> region@[address + k] == magic@[k],
        decreases LEN - idx,
    {
        if region[address + idx] != magic[idx] {
            return false;
        }
        idx += 1;
    }
    assert(region@.subrange(address as int, address + LEN) =~= magic@);
    true
}

/// A type whose instances start with the `LEN` bytes of its tag.
pub trait Magic<const LEN: usize> {
    /// The tag of this type.
    const MAGIC: [u8; LEN];

    /// The first `LEN` bytes of this instance.
    spec fn leading(&self) -> Seq<u8>;

    /// A tag has a byte that is not zero: blank memory is never taken for an
    /// instance.
    proof fn lemma_tag_is_marked()
        ensures
            exists|k: int| 0 <= k < LEN && Self::MAGIC@[k] != 0,
    ;

    /// The first `LEN` bytes of this instance.
    fn header(&self) -> (bytes: [u8; LEN])
        ensures
            bytes@ == self.leading(),
    ;

    /// Determines if `self` starts with `Self::MAGIC`.
    fn is_magic(&self) -> (tagged: bool)
        ensures
            tagged == (self.leading() == Self::MAGIC@),
    {
        let bytes = self.header();
        assert(bytes@.subrange(0, LEN as int) =~= bytes@);
        self::is_magic(bytes.as_slice(), 0, Self::MAGIC)
    }
}

/// Once an instance that starts with `tag` lies at `address`, the tag is found there.
pub proof fn lemma_tag_found_where_placed(
    region: Seq<u8>,
    address: int,
    image: Seq<u8>,
    tag: Seq<u8>,
)
    requires
        0 <= address,
        address + image.len() <= region.len(),
        tag.len() <= image.len(),
        image.take(tag.len() as int) == tag,
    ensures
        tag_at(overlay(region, address, image), address, tag),
{
    let placed = overlay(region, address, image);
    assert forall|i: int| 0 <= i < tag.len() implies placed.subrange(
        address,
        address + tag.len(),
    )[i] == tag[i] by {
        assert(image.take(tag.len() as int)[i] == image[i]);
    }
    assert(placed.subrange(address, address + tag.len()) =~= tag);
}

/// A region of zero bytes holds no tag that has a byte other than zero.
pub proof fn lemma_zero_region_holds_no_tag(region: Seq<u8>, address: int, tag: Seq<u8>)
    requires
        forall|i: int| 0 <= i < region.len() ==> region[i] == 0,
        exists|k: int| 0 <= k < tag.len() && tag[k] != 0,
    ensures
        !tag_at(region, address, tag),
{
    let k = choose|k: int| 0 <= k < tag.len() && tag[k] != 0;
    if 0 <= address && address + tag.len() <= region.len() {
        assert(region.subrange(address, address + tag.len())[k] == region[address + k]);
    }
}

/// Blank memory holds no instance of a tagged type, wherever one looks.
pub proof fn lemma_blank_memory_is_untagged<const LEN: usize, T: Magic<LEN>>(
    region: Seq<u8>,
    address: int,
)
    requires
        forall|i: int| 0 <= i < region.len() ==> region[i] == 0,
    ensures
        !tag_at(region, address, T::MAGIC@),
{
    T::lemma_tag_is_marked();
    lemma_zero_region_holds_no_tag(region, address, T::MAGIC@);
}

/// The tags of the array, the string and the error differ from each other,
/// whatever the capacities: no instance of one is taken for one of another.
pub proof fn lemma_tags_are_distinct<T, const SLOTS: usize, const BYTES: usize, const TEXT: usize>()
    ensures
        PStackArrUnchecked::<T, SLOTS>::MAGIC@ != PStackStr::<BYTES>::MAGIC@,
        PStackArrUnchecked::<T, SLOTS>::MAGIC@ != PError::<TEXT>::MAGIC@,
        PStackStr::<BYTES>::MAGIC@ != PError::<TEXT>::MAGIC@,
{
    PStackArrUnchecked::<T, SLOTS>::lemma_magic();
    PStackStr::<BYTES>::lemma_magic();
    PError::<TEXT>::lemma_magic();
}

} // verus!
