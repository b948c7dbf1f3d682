//! Error types; notably, [`PError`].

use crate::types::magic::Magic;
use crate::types::string::PStr;
use vstd::prelude::*;

verus! {

/// What went wrong.
#[derive(Clone, Copy, Debug, PartialEq, Eq)]
pub enum PErrorVariant {
    Unknown,
    Stdio,
}

/// A tagged error: its kind, and a text that says where it came from.
pub struct PError<const STACK_STR_LEN: usize> {
    _magic: [u8; 4],
    variant: PErrorVariant,
    context: PStr<'static, STACK_STR_LEN>,
}

/// A result whose error carries a borrowed context only.
pub type PStaticResult<T> = Result<T, PError<0>>;

impl<const STACK_STR_LEN: usize> PError<STACK_STR_LEN> {
    /// The bytes of the tag.
    pub proof fn lemma_magic()
        ensures
            Self::MAGIC@ == seq![0x65u8, 0x72u8, 0x72u8, 0x21u8],
    {
    }

    #[verifier::type_invariant]
    spec fn well_formed(self) -> bool {
        self._magic@ == Self::MAGIC@
    }

    /// The kind of this error.
    pub closed spec fn spec_variant(&self) -> PErrorVariant {
        self.variant
    }

    /// The text that came with this error.
    pub closed spec fn spec_context(&self) -> PStr<'static, STACK_STR_LEN> {
        self.context
    }

    /// An error of the kind `variant` with the text `context`, tagged as an error.
    pub fn new(variant: PErrorVariant, context: PStr<'static, STACK_STR_LEN>) -> (made: Self)
        ensures
            made.spec_variant() == variant,
            made.spec_context() == context,
            made.leading() == Self::MAGIC@,
    {
        Self { _magic: Self::MAGIC, variant, context }
    }

    /// The kind of this error.
    #[verifier::when_used_as_spec(spec_variant)]
    pub fn variant(&self) -> (variant: PErrorVariant)
        ensures
            variant == self.spec_variant(),
    {
        self.variant
    }

    /// The text that came with this error.
    pub fn context(&self) -> (context: &PStr<'static, STACK_STR_LEN>)
        ensures
            *context == self.spec_context(),
    {
        &self.context
    }
}

impl<const STACK_STR_LEN: usize> Magic<4> for PError<STACK_STR_LEN> {
    /// The bytes of `err!`.
    const MAGIC: [u8; 4] = [0x65, 0x72, 0x72, 0x21];

    closed spec fn leading(&self) -> Seq<u8> {
        self._magic@
    }

    proof fn lemma_tag_is_marked() {
        assert(Self::MAGIC@[0] == 0x65);
    }

    fn header(&self) -> (bytes: [u8; 4]) {
        self._magic
    }
}

} // verus!
